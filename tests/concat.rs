use medialibrary::concat::parse_concat;

#[test]
fn parse_concat_absent_is_none() {
    assert_eq!(parse_concat(None), None);
}

#[test]
fn parse_concat_splits_languages() {
    let r = parse_concat(Some("en,fr".to_string())).unwrap();
    assert_eq!(r, vec!["en".to_string(), "fr".to_string()]);
}

#[test]
fn parse_concat_single_value() {
    let r = parse_concat(Some("de".to_string())).unwrap();
    assert_eq!(r, vec!["de".to_string()]);
}

#[test]
fn parse_concat_empty_text_gives_no_values() {
    let r = parse_concat(Some(String::new())).unwrap();
    assert!(r.is_empty());
}

#[test]
fn parse_concat_keeps_empty_parts() {
    let r = parse_concat(Some("a,,b,".to_string())).unwrap();
    assert_eq!(
        r,
        vec!["a".to_string(), String::new(), "b".to_string(), String::new()]
    );
}
