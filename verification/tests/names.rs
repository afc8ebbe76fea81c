use gdsu::names::name_filter;

#[test]
fn filter_without_patterns_accepts_every_name() {
    let re = name_filter(None).unwrap();
    assert_eq!(re.patterns(), [".*".to_string()]);
    assert!(re.is_match(""));
    assert!(re.is_match("anything at all"));
}

#[test]
fn filter_holds_the_patterns_given() {
    let re = name_filter(Some(vec!["^inv_".to_string(), "buf$".to_string()])).unwrap();
    assert_eq!(re.len(), 2);
    assert!(re.is_match("inv_1"));
    assert!(re.is_match("clock_buf"));
    assert!(!re.is_match("nand_2"));
}

#[test]
fn filter_of_no_pattern_accepts_nothing() {
    let re = name_filter(Some(vec![])).unwrap();
    assert!(re.is_empty());
    assert!(!re.is_match("inv_1"));
}

#[test]
fn pattern_that_is_no_expression_gives_no_filter() {
    assert!(name_filter(Some(vec!["(".to_string()])).is_none());
    assert!(name_filter(Some(vec!["ok".to_string(), "[a-".to_string()])).is_none());
}
