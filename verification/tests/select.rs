use regex_lexer::select::longest_first;

#[test]
fn no_rules_no_winner() {
    assert_eq!(longest_first(&Vec::new()), None);
}

#[test]
fn no_match_no_winner() {
    assert_eq!(longest_first(&vec![None, None, None]), None);
}

#[test]
fn single_match_wins() {
    assert_eq!(longest_first(&vec![None, Some(1), None]), Some(1));
    assert_eq!(longest_first(&vec![Some(5)]), Some(0));
    assert_eq!(longest_first(&vec![None, None, Some(0)]), Some(2));
}

#[test]
fn longest_wins() {
    assert_eq!(longest_first(&vec![Some(2), None, Some(3), Some(1)]), Some(2));
    assert_eq!(longest_first(&vec![Some(9), Some(3), Some(1)]), Some(0));
    assert_eq!(longest_first(&vec![Some(1), Some(3), Some(9)]), Some(2));
}

#[test]
fn first_of_the_longest_wins() {
    assert_eq!(longest_first(&vec![Some(2), None, Some(3), Some(3)]), Some(2));
    assert_eq!(longest_first(&vec![Some(4), Some(4), Some(4)]), Some(0));
    assert_eq!(longest_first(&vec![None, Some(0), Some(0)]), Some(1));
}

#[test]
fn longest_possible_match() {
    assert_eq!(longest_first(&vec![Some(0), Some(usize::MAX), Some(usize::MAX)]), Some(1));
}
