use ragrig_bench::defaults::merge_defaults;
use serde_json::Value;

fn parse(text: &str) -> Value {
    serde_json::from_str(text).unwrap()
}

#[test]
fn mentioned_fields_replace_the_defaults() {
    let merged = merge_defaults(
        parse(r#"{"model": "a", "top_k": 50, "timeout": null}"#),
        parse(r#"{"top_k": 20, "model": "b"}"#),
    );
    assert_eq!(merged, parse(r#"{"model": "b", "top_k": 20, "timeout": null}"#));
}

#[test]
fn unknown_fields_are_added() {
    let merged = merge_defaults(parse(r#"{"a": 1}"#), parse(r#"{"b": {"c": 2}}"#));
    assert_eq!(merged, parse(r#"{"a": 1, "b": {"c": 2}}"#));
}

#[test]
fn nested_objects_are_replaced_whole() {
    let merged = merge_defaults(
        parse(r#"{"params": {"seed": 1, "top_p": 2}}"#),
        parse(r#"{"params": {"seed": 3}}"#),
    );
    assert_eq!(merged, parse(r#"{"params": {"seed": 3}}"#));
}

#[test]
fn an_empty_section_is_the_default() {
    let defaults = parse(r#"{"a": 1, "b": [1, 2]}"#);
    assert_eq!(merge_defaults(defaults.clone(), parse("{}")), defaults);
}

#[test]
fn filling_up_twice_changes_nothing() {
    let given = parse(r#"{"b": 2, "c": 3}"#);
    let once = merge_defaults(parse(r#"{"a": 1, "b": 1}"#), given.clone());
    assert_eq!(merge_defaults(once.clone(), given), once);
}

#[test]
fn what_is_no_object_is_passed_over() {
    let defaults = parse(r#"{"a": 1}"#);
    assert_eq!(merge_defaults(defaults.clone(), parse("[1]")), defaults);
    assert_eq!(merge_defaults(parse("3"), parse(r#"{"a": 1}"#)), parse("3"));
}
