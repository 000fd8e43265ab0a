use regex_lexer::text::{byte_length, head, tail};

#[test]
fn byte_length_counts_bytes() {
    assert_eq!(byte_length(""), 0);
    assert_eq!(byte_length("abc"), 3);
    assert_eq!(byte_length("é"), 2);
    assert_eq!(byte_length("a€b"), 5);
}

#[test]
fn tail_is_the_text_from_an_offset() {
    assert_eq!(tail("hello", 0), "hello");
    assert_eq!(tail("hello", 2), "llo");
    assert_eq!(tail("hello", 5), "");
    assert_eq!(tail("héllo", 3), "llo");
}

#[test]
fn head_is_the_text_before_an_offset() {
    assert_eq!(head("hello", 0), "");
    assert_eq!(head("hello", 2), "he");
    assert_eq!(head("hello", 5), "hello");
    assert_eq!(head("héllo", 3), "hé");
}

#[test]
fn head_and_tail_make_the_whole() {
    let text = "a€b c";
    for at in [0, 1, 4, 5, 6, 7] {
        let joined = format!("{}{}", head(text, at), tail(text, at));
        assert_eq!(joined, text);
        assert_eq!(byte_length(head(text, at)), at);
        assert_eq!(byte_length(tail(text, at)), byte_length(text) - at);
    }
}

#[test]
fn tail_of_a_tail() {
    let text = "héllo wörld";
    assert_eq!(tail(tail(text, 3), 4), tail(text, 7));
}
