use fervid::analyzer::scope::Scope;
use fervid::transform::collect_vars::{JsPat, ObjectPatProp};
use fervid::transform::context::TransformSfcContext;
use fervid::transform::v_for::{
    find_for_key, fragment_kind, post_transform_for, process_for, ForAliases, ForKey, ForKeyAttr, FragmentKind,
};

fn regular(name: &str, value: &str) -> ForKeyAttr {
    ForKeyAttr::Regular { name: name.to_string(), value: value.to_string() }
}

fn bind(name: &str, value: &str) -> ForKeyAttr {
    ForKeyAttr::Bind { name: name.to_string(), value: value.to_string() }
}

fn ident(n: &str) -> JsPat {
    JsPat::Ident(n.to_string())
}

#[test]
fn the_first_key_attribute_is_the_key() {
    let (has_key, key) = find_for_key(&vec![ForKeyAttr::Other, regular("id", "x"), bind("key", "item.id"), regular("key", "k")]);
    assert!(has_key);
    assert!(matches!(key, Some(ForKey::Bound(e)) if e == "item.id"));

    let (has_key, key) = find_for_key(&vec![regular("key", "k"), bind("key", "item.id")]);
    assert!(has_key);
    assert!(matches!(key, Some(ForKey::Literal(s)) if s == "k"));
}

#[test]
fn an_empty_key_is_a_key_without_value() {
    let (has_key, key) = find_for_key(&vec![regular("key", "")]);
    assert!(has_key);
    assert!(key.is_none());
}

#[test]
fn no_key_attribute_no_key() {
    let (has_key, key) = find_for_key(&vec![regular("id", "x"), bind("title", "t")]);
    assert!(!has_key);
    assert!(key.is_none());
}

#[test]
fn fragment_kinds() {
    assert_eq!(FragmentKind::Stable, fragment_kind(true, true));
    assert_eq!(FragmentKind::Keyed, fragment_kind(false, true));
    assert_eq!(FragmentKind::Unkeyed, fragment_kind(false, false));
}

#[test]
fn process_for_opens_a_scope_with_the_aliases() {
    let mut ctx = TransformSfcContext::anonymous();
    ctx.bindings_helper.template_scopes.push(Scope { variables: vec![], parent: 0 });
    let aliases = ForAliases {
        value: JsPat::Object(vec![ObjectPatProp::Assign("id".to_string(), None), ObjectPatProp::Assign("name".to_string(), None)]),
        key: Some(ident("key")),
        index: Some(ident("index")),
    };
    let plan = process_for(&mut ctx, 0, &vec![bind("key", "id")], &aliases, false);
    assert_eq!(1, plan.template_scope);
    assert_eq!(FragmentKind::Keyed, plan.kind);
    assert!(plan.disable_tracking);
    assert!(matches!(&plan.key, Some(ForKey::Bound(e)) if e == "id"));
    assert_eq!(2, ctx.bindings_helper.template_scopes.len());
    let scope = &ctx.bindings_helper.template_scopes[1];
    assert_eq!(0, scope.parent);
    assert_eq!(vec!["id", "name", "key", "index"], scope.variables);
    assert_eq!(1, ctx.directive_scopes.v_for);

    let (is_block, need_patch) = post_transform_for(&mut ctx, plan.kind, false, true);
    assert!(is_block);
    assert!(!need_patch);
    assert_eq!(0, ctx.directive_scopes.v_for);
}

#[test]
fn a_stable_fragment_is_no_block_unless_required() {
    let mut ctx = TransformSfcContext::anonymous();
    let plan = process_for(&mut ctx, 0, &vec![], &ForAliases { value: ident("i"), key: None, index: None }, true);
    assert_eq!(0, plan.template_scope);
    assert_eq!(FragmentKind::Stable, plan.kind);
    assert!(!plan.disable_tracking);
    assert_eq!((false, true), post_transform_for(&mut ctx, plan.kind, false, true));
    let plan = process_for(&mut ctx, 0, &vec![], &ForAliases { value: ident("j"), key: None, index: None }, true);
    assert_eq!((true, false), post_transform_for(&mut ctx, plan.kind, true, true));
    assert_eq!(vec!["j"], ctx.bindings_helper.template_scopes[1].variables);
}

#[test]
fn for_aliases_are_read_before_in_or_of() {
    use_for_alias();
}

fn use_for_alias() {
    assert_eq!(Some("(item, index)".to_string()), fervid::transform::v_for::for_alias("(item, index) in items"));
    assert_eq!(Some("x".to_string()), fervid::transform::v_for::for_alias("  x   of list"));
    assert_eq!(None, fervid::transform::v_for::for_alias("items"));
}
