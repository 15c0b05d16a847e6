use shell_starter_rust::input_parser::{Input, InputParser};

#[test]
fn hello_world() {
    let test_string = "hello world".to_string();
    let expected_result = vec![
        Input::Command("hello".to_string()),
        Input::Command("world".to_string()),
    ];

    let mut parser = InputParser::new();

    match parser.parse(test_string) {
        Ok(parsed_vector) => {
            assert_vec_eq(&parsed_vector, &expected_result);
        }
        Err(err) => {
            panic!("ERR: {:?}", err);
        }
    }
}

#[test]
fn spacey_hello_world() {
    let test_string = "hello                 world".to_string();
    let expected_result = vec![
        Input::Command("hello".to_string()),
        Input::Command("world".to_string()),
    ];

    let mut parser = InputParser::new();

    match parser.parse(test_string) {
        Ok(parsed_vector) => {
            assert_vec_eq(&parsed_vector, &expected_result);
        }
        Err(err) => {
            panic!("ERR: {:?}", err);
        }
    }
}

#[test]
fn echo_hello_world_single_quote() {
    let test_string = "echo 'example test'".to_string();
    let expected_result = vec![
        Input::Command("echo".to_string()),
        Input::Quoted("example test".to_string(), false),
    ];

    let mut parser = InputParser::new();

    match parser.parse(test_string) {
        Ok(parsed_vector) => {
            assert_vec_eq(&parsed_vector, &expected_result);
        }
        Err(err) => {
            panic!("ERR: {:?}", err);
        }
    }
}

#[test]
fn echo_hello_world_double_quote() {
    let test_string = "echo \"hello world\"".to_string();
    let expected_result = vec![
        Input::Command("echo".to_string()),
        Input::Quoted("hello world".to_string(), true),
    ];

    let mut parser = InputParser::new();

    match parser.parse(test_string) {
        Ok(parsed_vector) => {
            assert_vec_eq(&parsed_vector, &expected_result);
        }
        Err(err) => {
            panic!("ERR: {:?}", err);
        }
    }
}

#[test]
fn spacey_echo_hello_world() {
    let test_string = "echo \"hello                   world\"".to_string();
    let expected_result = vec![
        Input::Command("echo".to_string()),
        Input::Quoted("hello                   world".to_string(), true),
    ];

    let mut parser = InputParser::new();

    match parser.parse(test_string) {
        Ok(parsed_vector) => {
            assert_vec_eq(&parsed_vector, &expected_result);
        }
        Err(err) => {
            panic!("ERR: {:?}", err);
        }
    }
}

#[test]
fn input_parser_double_inside_single_quote() {
    let test_string = "echo '\"hello world\"'".to_string();
    let expected_result = vec![
        Input::Command("echo".to_string()),
        Input::Quoted("\"hello world\"".to_string(), false),
    ];

    let mut parser = InputParser::new();

    match parser.parse(test_string) {
        Ok(parsed_vector) => {
            assert_vec_eq(&parsed_vector, &expected_result);
        }
        Err(err) => {
            panic!("ERR: {:?}", err);
        }
    }
}

#[test]
fn input_parser_single_inside_double_quote() {
    let test_string = "echo \"'hello world'\"".to_string();
    let expected_result = vec![
        Input::Command("echo".to_string()),
        Input::Quoted("'hello world'".to_string(), true),
    ];

    let mut parser = InputParser::new();

    match parser.parse(test_string) {
        Ok(parsed_vector) => {
            assert_vec_eq(&parsed_vector, &expected_result);
        }
        Err(err) => {
            panic!("ERR: {:?}", err);
        }
    }
}

#[test]
fn input_parser_single_dash_argument() {
    let test_string = "echo -s 'hello world'".to_string();
    let expected_result = vec![
        Input::Command("echo".to_string()),
        Input::Argument("s".to_string(), false),
        Input::Quoted("hello world".to_string(), false),
    ];

    let mut parser = InputParser::new();

    match parser.parse(test_string) {
        Ok(parsed_vector) => {
            assert_vec_eq(&parsed_vector, &expected_result);
        }
        Err(err) => {
            panic!("ERR: {:?}", err);
        }
    }
}

#[test]
fn input_parser_double_dash_argument() {
    let test_string = "echo --silent 'hello world'".to_string();
    let expected_result = vec![
        Input::Command("echo".to_string()),
        Input::Argument("silent".to_string(), true),
        Input::Quoted("hello world".to_string(), false),
    ];

    let mut parser = InputParser::new();

    match parser.parse(test_string) {
        Ok(parsed_vector) => {
            assert_vec_eq(&parsed_vector, &expected_result);
        }
        Err(err) => {
            panic!("ERR: {:?}", err);
        }
    }
}

#[test]
fn input_parser_unclosed_quote() {
    let mut parser = InputParser::new();
    let r = parser.parse("echo 'open".to_string());
    assert!(r.is_err());
}

#[test]
fn input_parser_invalid_character() {
    let mut parser = InputParser::new();
    let r = parser.parse("echo @now".to_string());
    assert!(r.is_err());
}

#[test]
fn input_parser_get_value() {
    assert_eq!(Input::Command("ls".to_string()).get_value(), "ls");
    assert_eq!(Input::Argument("s".to_string(), false).get_value(), "s");
    assert_eq!(Input::Quoted("a b".to_string(), true).get_value(), "a b");
}

fn assert_vec_eq<T: std::fmt::Debug + PartialEq>(vec1: &[T], vec2: &[T]) {
    if vec1 != vec2 {
        panic!(
            "Vectors are not equal.\nLeft: {:?}\nRight: {:?}",
            vec1, vec2
        );
    }
}
