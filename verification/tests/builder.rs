use regex_lexer::lexer::{LexAction, LexerBuilder};

type Conv = fn(&str) -> usize;

fn length(text: &str) -> usize {
    text.len()
}

fn zero(_text: &str) -> usize {
    0
}

#[test]
fn new_builder_has_no_rules() {
    let builder = LexerBuilder::<Conv>::new();
    assert!(builder.actions.is_empty());
}

#[test]
fn default_builder_has_no_rules() {
    let builder: LexerBuilder<Conv> = Default::default();
    assert!(builder.actions.is_empty());
}

#[test]
fn push_keeps_the_order() {
    let mut builder = LexerBuilder::<Conv>::new();
    builder.push("a", length).push("b", zero);
    builder.push("a", zero);
    assert_eq!(builder.actions.len(), 3);
    assert_eq!(builder.actions[0].token, "a");
    assert_eq!(builder.actions[1].token, "b");
    assert_eq!(builder.actions[2].token, "a");
    assert_eq!((builder.actions[0].action)("xyz"), 3);
    assert_eq!((builder.actions[1].action)("xyz"), 0);
    assert_eq!((builder.actions[2].action)("xyz"), 0);
}

#[test]
fn push_hands_the_same_builder_back() {
    let mut builder = LexerBuilder::<Conv>::new();
    let handed_back = builder.push("a", length);
    assert_eq!(handed_back.actions.len(), 1);
    handed_back.push("b", length);
    assert_eq!(builder.actions.len(), 2);
}

#[test]
fn rules_can_be_cloned() {
    let rule = LexAction::<Conv> { token: "a+", action: length };
    let copy = rule.clone();
    assert_eq!(copy.token, "a+");
    assert_eq!((copy.action)("aa"), 2);
}

#[test]
fn build_leaves_the_builder_as_it_was() {
    let mut builder = LexerBuilder::<Conv>::new();
    builder.push("a+", length);
    let mut first = builder.build();
    builder.push("b+", zero);
    let mut second = builder.build();
    first.init(String::from("bb"));
    second.init(String::from("bb"));
    assert_eq!(first.tok(false), None);
    assert_eq!(second.tok(false), Some(0));
}

#[test]
fn can_build_tells_patterns_that_compile() {
    let mut builder = LexerBuilder::<Conv>::new();
    assert!(builder.can_build());
    builder.push(r"\d+", length);
    assert!(builder.can_build());
    builder.push(r"(", length);
    assert!(!builder.can_build());
}

#[test]
fn try_build_refuses_a_pattern_that_does_not_compile() {
    let mut builder = LexerBuilder::<Conv>::new();
    builder.push(r"\d+", length).push(r"[a-z", length);
    assert!(builder.try_build().is_none());
}

#[test]
fn try_build_refuses_an_unbalanced_pattern() {
    let mut builder = LexerBuilder::<Conv>::new();
    builder.push(r"a)", length);
    assert!(!builder.can_build());
    assert!(builder.try_build().is_none());
}

#[test]
fn try_build_builds_what_compiles() {
    let mut builder = LexerBuilder::<Conv>::new();
    builder.push(r"\d+", length).push(r"[a-z]+", zero);
    let mut lexer = builder.try_build().unwrap();
    assert!(lexer.is_eof());
    assert_eq!(lexer.position(), 0);
    lexer.init(String::from("1234 ab"));
    assert_eq!(lexer.tok(true), Some(4));
    assert_eq!(lexer.tok(true), Some(0));
    assert!(lexer.is_eof());
}

#[test]
fn pattern_that_compiles_only_behind_the_anchor_is_refused() {
    for token in ["*", "+", "?", "a|*"] {
        let mut builder = LexerBuilder::<Conv>::new();
        builder.push(r"\d+", length).push(token, length);
        assert!(!builder.can_build());
        assert!(builder.try_build().is_none());
    }
}

#[test]
fn pattern_with_a_choice_compiles() {
    let mut builder = LexerBuilder::<Conv>::new();
    builder.push(r"a|b", length).push(r"a*", zero);
    assert!(builder.can_build());
    assert!(builder.try_build().is_some());
}
