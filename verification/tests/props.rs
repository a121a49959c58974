use fervid::transform::props::{dedupe_properties, PropKey, PropValue, Property};

fn prop(name: &str, value: &str) -> Property {
    Property { key: PropKey::Static(name.to_string()), value: PropValue::Expr(value.to_string()) }
}

fn dynamic(key: &str, value: &str) -> Property {
    Property { key: PropKey::Dynamic(key.to_string()), value: PropValue::Expr(value.to_string()) }
}

fn name_of(p: &Property) -> &str {
    match &p.key {
        PropKey::Static(n) => n.as_str(),
        PropKey::Dynamic(k) => k.as_str(),
    }
}

fn exprs(v: &PropValue) -> Vec<String> {
    match v {
        PropValue::Array(items) => items
            .iter()
            .map(|i| match i {
                PropValue::Expr(e) => e.clone(),
                PropValue::Array(_) => "[..]".to_string(),
            })
            .collect(),
        PropValue::Expr(e) => vec![e.clone()],
    }
}

#[test]
fn duplicate_handlers_are_merged_into_an_array() {
    let out = dedupe_properties(vec![prop("onClick", "first"), prop("id", "x"), prop("onClick", "second")]);
    assert_eq!(2, out.len());
    assert_eq!("onClick", name_of(&out[0]));
    assert!(matches!(&out[0].value, PropValue::Array(_)));
    assert_eq!(vec!["first".to_string(), "second".to_string()], exprs(&out[0].value));
    assert_eq!("id", name_of(&out[1]));
}

#[test]
fn class_and_style_are_merged_and_other_duplicates_dropped() {
    let out = dedupe_properties(vec![
        prop("class", "a"),
        prop("style", "s1"),
        prop("title", "t1"),
        prop("class", "b"),
        prop("title", "t2"),
        prop("style", "s2"),
        prop("class", "c"),
    ]);
    assert_eq!(3, out.len());
    assert_eq!(vec!["a", "b", "c"], exprs(&out[0].value));
    assert_eq!(vec!["s1", "s2"], exprs(&out[1].value));
    assert_eq!("title", name_of(&out[2]));
    assert!(matches!(&out[2].value, PropValue::Expr(t) if t == "t1"));
}

#[test]
fn an_array_value_takes_the_merged_values() {
    let first = Property {
        key: PropKey::Static("onClick".to_string()),
        value: PropValue::Array(vec![PropValue::Expr("a".to_string()), PropValue::Expr("b".to_string())]),
    };
    let out = dedupe_properties(vec![first, prop("onClick", "c")]);
    assert_eq!(1, out.len());
    assert_eq!(vec!["a", "b", "c"], exprs(&out[0].value));
}

#[test]
fn dynamic_keys_are_all_kept() {
    let out = dedupe_properties(vec![dynamic("k", "1"), dynamic("k", "2"), prop("onclick", "x"), prop("onclick", "y")]);
    // `onclick` is not an event handler name (no capital after `on`): the second is dropped
    assert_eq!(3, out.len());
    assert_eq!("k", name_of(&out[0]));
    assert_eq!("k", name_of(&out[1]));
    assert!(matches!(&out[2].value, PropValue::Expr(x) if x == "x"));
}

#[test]
fn no_properties_give_none() {
    assert!(dedupe_properties(vec![]).is_empty());
}
