use regex_lexer::lexer::{LexAction, Lexer, LexerBuilder};

#[derive(Clone)]
enum Token1 {
    TokenInt(i32),
    TokenString(String),
}

type Conv = fn(&str) -> Token1;

#[test]
fn it_works() {
    let result = 2 + 2;
    assert_eq!(result, 4);
}

#[test]
fn doesnt_panic_array() {
    let _l: Lexer<Conv> = LexerBuilder {
        actions: [LexAction::<Conv> {
            token: r"\d+",
            action: |x: &str| Token1::TokenInt(x.parse::<i32>().unwrap()),
        }]
        .to_vec(),
    }
    .build();
}

#[test]
fn doesnt_panic_append() {
    let _l: Lexer<Conv> = LexerBuilder::<Conv>::new()
        .push(r"\d+", |x: &str| Token1::TokenInt(x.parse::<i32>().unwrap()))
        .push(r"[a-zA-Z_]\w*", |x: &str| Token1::TokenString(String::from(x)))
        .build();
}

#[test]
fn simple_number_test() {
    let mut l = LexerBuilder::<Conv>::new()
        .push(r"\d+", |x: &str| Token1::TokenInt(x.parse::<i32>().unwrap()))
        .build();

    l.init(String::from("42"));

    match l.tok(true).unwrap() {
        Token1::TokenInt(v) => {
            assert!(v == 42);
        }
        _ => {
            panic!("Token is not of type int");
        }
    }
}

#[test]
fn simple_number_leading_ws() {
    let mut l = LexerBuilder::<Conv>::new()
        .push(r"\d+", |x: &str| Token1::TokenInt(x.parse::<i32>().unwrap()))
        .build();

    l.init(String::from(" 42"));

    match l.tok(true).unwrap() {
        Token1::TokenInt(v) => {
            assert!(v == 42, "Expected 42: Actual: {}", v);
        }
        _ => {
            panic!("Token is not of type int");
        }
    }
}

#[test]
fn two_numbers() {
    let mut l = LexerBuilder::<Conv>::new()
        .push(r"\d+", |x: &str| Token1::TokenInt(x.parse::<i32>().unwrap()))
        .build();

    l.init(String::from("42 52"));

    match l.tok(true).unwrap() {
        Token1::TokenInt(v) => {
            assert!(v == 42, "Expected 42: Actual {}", v);
        }
        _ => {
            panic!("Token is not of type int");
        }
    }

    match l.tok(true).unwrap() {
        Token1::TokenInt(v) => {
            assert!(v == 52);
        }
        _ => {
            panic!("Token is not of type int");
        }
    }
}

#[test]
fn many_numbers() {
    let mut l = LexerBuilder::<Conv>::new()
        .push(r"\d+", |x: &str| Token1::TokenInt(x.parse::<i32>().unwrap()))
        .build();

    l.init(
        (0..100)
            .map(|x: i8| x.to_string())
            .collect::<Vec<String>>()
            .join(" "),
    );

    for i in 0..100 {
        match l.tok(true).unwrap() {
            Token1::TokenInt(v) => {
                assert!(v == i, "Expected {}: Actual {}", i, v);
            }
            _ => {
                panic!("Token is not of type int");
            }
        }
    }
}

#[test]
fn test_eof() {
    let mut l = LexerBuilder::<Conv>::new()
        .push(r"\d+", |x: &str| Token1::TokenInt(x.parse::<i32>().unwrap()))
        .build();

    l.init(String::from("42"));

    assert!(!l.is_eof());

    match l.tok(true).unwrap() {
        Token1::TokenInt(v) => {
            assert!(v == 42, "Expected 42: Actual: {}", v);
        }
        _ => {
            panic!("Token is not of type int");
        }
    }

    assert!(l.is_eof());
}
