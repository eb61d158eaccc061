use argster::ArgsItem;
use argster::fold_occurrence;
use argster::parse_args;

#[test]
fn test_parse_args() {
    let args = vec!["--hello".to_string()];

    let parsed = parse_args(args);

    assert_eq!(parsed.len(), 1);
    assert_eq!(parsed.get("hello"), Some(&ArgsItem::Present));
}

#[test]
fn test_parse_args_with_value() {
    let args = vec!["--hello".to_string(), "world".to_string()];

    let parsed = parse_args(args);

    assert_eq!(parsed.len(), 1);
    assert_eq!(
        parsed.get("hello"),
        Some(&ArgsItem::String("world".to_string()))
    );
}

#[test]
fn test_parsed_vales() {
    let args = vec!["hello".to_string(), "world".to_string()];

    let parsed = parse_args(args);

    assert_eq!(parsed.len(), 1);
    assert_eq!(
        parsed.get(""),
        Some(&ArgsItem::Many(vec![
            "hello".to_string(),
            "world".to_string()
        ]))
    );
}

#[test]
fn short_value() {
    let args = vec![
        "-hworld".to_string(),
        "yes".to_string(),
        "-v".to_string(),
        "-p".to_string(),
        "other".to_string(),
    ];

    let parsed = parse_args(args);

    assert_eq!(parsed.len(), 4);
    assert_eq!(parsed.get("h"), Some(&ArgsItem::String("world".to_string())));
    assert_eq!(parsed.get("p"), Some(&ArgsItem::String("other".to_string())));
    assert_eq!(parsed.get("v"), Some(&ArgsItem::Present));
    assert_eq!(parsed.get(""), Some(&ArgsItem::String("yes".to_string())));
}

#[test]
fn tokenizing_is_deterministic() {
    let args = vec![
        "--a".to_string(),
        "1".to_string(),
        "-v".to_string(),
        "-v".to_string(),
        "pos".to_string(),
        "--a".to_string(),
    ];

    let first = parse_args(args.clone());
    let second = parse_args(args);

    assert_eq!(first.len(), second.len());
    for key in ["a", "v", ""] {
        assert_eq!(first.get(key), second.get(key));
    }
}

#[test]
fn bare_dash_is_skipped() {
    let parsed = parse_args(vec!["-".to_string(), "x".to_string()]);

    assert_eq!(parsed.len(), 1);
    assert_eq!(parsed.get(""), Some(&ArgsItem::String("x".to_string())));
}

#[test]
fn repeated_flag_counts() {
    let parsed = parse_args(vec!["-v".to_string(), "-v".to_string(), "-v".to_string()]);

    assert_eq!(parsed.len(), 1);
    assert_eq!(parsed.get("v"), Some(&ArgsItem::PresentTimes(3)));
}

#[test]
fn fold_follows_transition_table() {
    assert_eq!(
        fold_occurrence(None, Some("v".to_string())),
        ArgsItem::String("v".to_string())
    );
    assert_eq!(fold_occurrence(None, None), ArgsItem::Present);
    assert_eq!(
        fold_occurrence(Some(ArgsItem::String("a".to_string())), Some("v".to_string())),
        ArgsItem::Many(vec!["a".to_string(), "v".to_string()])
    );
    assert_eq!(
        fold_occurrence(Some(ArgsItem::String("a".to_string())), None),
        ArgsItem::Many(vec!["a".to_string(), "".to_string()])
    );
    assert_eq!(
        fold_occurrence(Some(ArgsItem::Present), Some("v".to_string())),
        ArgsItem::Many(vec!["".to_string(), "v".to_string()])
    );
    assert_eq!(
        fold_occurrence(Some(ArgsItem::Present), None),
        ArgsItem::PresentTimes(2)
    );
    assert_eq!(
        fold_occurrence(Some(ArgsItem::PresentTimes(2)), Some("v".to_string())),
        ArgsItem::Many(vec!["".to_string(), "".to_string(), "v".to_string()])
    );
    assert_eq!(
        fold_occurrence(Some(ArgsItem::PresentTimes(2)), None),
        ArgsItem::PresentTimes(3)
    );
    assert_eq!(
        fold_occurrence(
            Some(ArgsItem::Many(vec!["a".to_string()])),
            Some("v".to_string())
        ),
        ArgsItem::Many(vec!["a".to_string(), "v".to_string()])
    );
    assert_eq!(
        fold_occurrence(Some(ArgsItem::Many(vec!["a".to_string()])), None),
        ArgsItem::Many(vec!["a".to_string(), "".to_string()])
    );
}

#[test]
fn fold_batches_agree() {
    let one_at_a_time = fold_occurrence(
        Some(fold_occurrence(
            Some(fold_occurrence(None, Some("a".to_string()))),
            None,
        )),
        Some("c".to_string()),
    );
    let first_two = fold_occurrence(Some(fold_occurrence(None, Some("a".to_string()))), None);
    let then_third = fold_occurrence(Some(first_two), Some("c".to_string()));
    assert_eq!(one_at_a_time, then_third);
    assert_eq!(
        one_at_a_time,
        ArgsItem::Many(vec!["a".to_string(), "".to_string(), "c".to_string()])
    );
}

#[test]
fn empty_token_is_a_positional_value() {
    let parsed = parse_args(vec!["".to_string()]);
    assert_eq!(parsed.len(), 1);
    assert_eq!(parsed.get(""), Some(&ArgsItem::String("".to_string())));
}

#[test]
fn empty_next_token_is_consumed_as_value() {
    let parsed = parse_args(vec!["--a".to_string(), "".to_string()]);
    assert_eq!(parsed.len(), 1);
    assert_eq!(parsed.get("a"), Some(&ArgsItem::String("".to_string())));
}

#[test]
fn double_dash_token_has_the_empty_key() {
    let parsed = parse_args(vec!["--".to_string(), "x".to_string()]);
    assert_eq!(parsed.len(), 1);
    assert_eq!(parsed.get(""), Some(&ArgsItem::String("x".to_string())));
}

#[test]
fn valued_occurrence_after_flag_keeps_placeholder() {
    let parsed = parse_args(vec![
        "--a".to_string(),
        "--a".to_string(),
        "v".to_string(),
    ]);
    assert_eq!(parsed.len(), 1);
    assert_eq!(
        parsed.get("a"),
        Some(&ArgsItem::Many(vec!["".to_string(), "v".to_string()]))
    );
}

#[test]
fn long_flag_consumes_next_token_only_without_dash() {
    let parsed = parse_args(vec!["--key".to_string(), "--other".to_string()]);

    assert_eq!(parsed.len(), 2);
    assert_eq!(parsed.get("key"), Some(&ArgsItem::Present));
    assert_eq!(parsed.get("other"), Some(&ArgsItem::Present));
}
