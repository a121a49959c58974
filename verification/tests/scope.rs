use fervid::analyzer::scope::{Scope, ScopeHelper, VarScopeDescriptor};
use fervid::parser::attributes::{HtmlAttribute, VDirective};
use fervid::parser::structs::{ElementKind, ElementNode, Node, StartingTag};

#[test]
fn feature() {
    let root_scope = Scope { parent: 0, variables: vec!["root".into()] };
    let child_scope = Scope { parent: 0, variables: vec!["child1".into(), "child2".into()] };
    let grandchild1_scope = Scope { parent: 1, variables: vec!["grand1_1".into(), "grand1_2".into()] };
    let grandchild2_scope = Scope { parent: 1, variables: vec!["grand2_1".into(), "grand2_2".into()] };

    let mut scope_helper = ScopeHelper::default();
    scope_helper.add_template_scopes(vec![root_scope, child_scope, grandchild1_scope, grandchild2_scope]);

    // All scopes have a root variable
    assert_eq!(scope_helper.find_scope_of_variable(0, "root"), VarScopeDescriptor::Template(0));
    assert_eq!(scope_helper.find_scope_of_variable(1, "root"), VarScopeDescriptor::Template(0));
    assert_eq!(scope_helper.find_scope_of_variable(2, "root"), VarScopeDescriptor::Template(0));
    assert_eq!(scope_helper.find_scope_of_variable(3, "root"), VarScopeDescriptor::Template(0));

    // Only `child1` and its children have `child1` and `child2` vars
    assert_eq!(scope_helper.find_scope_of_variable(0, "child1"), VarScopeDescriptor::Unknown);
    assert_eq!(scope_helper.find_scope_of_variable(1, "child1"), VarScopeDescriptor::Template(1));
    assert_eq!(scope_helper.find_scope_of_variable(2, "child1"), VarScopeDescriptor::Template(1));
    assert_eq!(scope_helper.find_scope_of_variable(3, "child1"), VarScopeDescriptor::Template(1));
    assert_eq!(scope_helper.find_scope_of_variable(0, "child2"), VarScopeDescriptor::Unknown);
    assert_eq!(scope_helper.find_scope_of_variable(1, "child2"), VarScopeDescriptor::Template(1));
    assert_eq!(scope_helper.find_scope_of_variable(2, "child2"), VarScopeDescriptor::Template(1));
    assert_eq!(scope_helper.find_scope_of_variable(3, "child2"), VarScopeDescriptor::Template(1));

    // Only `grandchild1` has `grand1_1` and `grand1_2` vars
    assert_eq!(scope_helper.find_scope_of_variable(0, "grand1_1"), VarScopeDescriptor::Unknown);
    assert_eq!(scope_helper.find_scope_of_variable(1, "grand1_1"), VarScopeDescriptor::Unknown);
    assert_eq!(scope_helper.find_scope_of_variable(2, "grand1_1"), VarScopeDescriptor::Template(2));
    assert_eq!(scope_helper.find_scope_of_variable(3, "grand1_1"), VarScopeDescriptor::Unknown);
    assert_eq!(scope_helper.find_scope_of_variable(0, "grand1_2"), VarScopeDescriptor::Unknown);
    assert_eq!(scope_helper.find_scope_of_variable(1, "grand1_2"), VarScopeDescriptor::Unknown);
    assert_eq!(scope_helper.find_scope_of_variable(2, "grand1_2"), VarScopeDescriptor::Template(2));
    assert_eq!(scope_helper.find_scope_of_variable(3, "grand1_2"), VarScopeDescriptor::Unknown);

    // Only `grandchild2` has `grand2_1` and `grand2_2` vars
    assert_eq!(scope_helper.find_scope_of_variable(0, "grand2_1"), VarScopeDescriptor::Unknown);
    assert_eq!(scope_helper.find_scope_of_variable(1, "grand2_1"), VarScopeDescriptor::Unknown);
    assert_eq!(scope_helper.find_scope_of_variable(2, "grand2_1"), VarScopeDescriptor::Unknown);
    assert_eq!(scope_helper.find_scope_of_variable(3, "grand2_1"), VarScopeDescriptor::Template(3));
    assert_eq!(scope_helper.find_scope_of_variable(0, "grand2_2"), VarScopeDescriptor::Unknown);
    assert_eq!(scope_helper.find_scope_of_variable(1, "grand2_2"), VarScopeDescriptor::Unknown);
    assert_eq!(scope_helper.find_scope_of_variable(2, "grand2_2"), VarScopeDescriptor::Unknown);
    assert_eq!(scope_helper.find_scope_of_variable(3, "grand2_2"), VarScopeDescriptor::Template(3));
}

#[test]
fn builtins_globals_and_component_variables() {
    let mut scope_helper = ScopeHelper::default();
    scope_helper.add_template_scope(Scope { parent: 0, variables: vec!["item".into()] });
    scope_helper.globals.push("window".into());
    scope_helper.setup_vars.push("count".into());
    scope_helper.props_vars.push("title".into());
    scope_helper.data_vars.push("state".into());
    scope_helper.options_vars.push("computedValue".into());

    assert_eq!(scope_helper.find_scope_of_variable(0, "undefined"), VarScopeDescriptor::Builtin);
    assert_eq!(scope_helper.find_scope_of_variable(0, "window"), VarScopeDescriptor::Global);
    assert_eq!(scope_helper.find_scope_of_variable(0, "item"), VarScopeDescriptor::Template(0));
    assert_eq!(scope_helper.find_scope_of_variable(0, "count"), VarScopeDescriptor::Setup);
    assert_eq!(scope_helper.find_scope_of_variable(0, "title"), VarScopeDescriptor::Props);
    assert_eq!(scope_helper.find_scope_of_variable(0, "state"), VarScopeDescriptor::Data);
    assert_eq!(scope_helper.find_scope_of_variable(0, "computedValue"), VarScopeDescriptor::Options);
    assert_eq!(scope_helper.find_scope_of_variable(0, "nothing"), VarScopeDescriptor::Unknown);
    // A starting scope outside of the template scopes goes straight to the component
    assert_eq!(scope_helper.find_scope_of_variable(5, "item"), VarScopeDescriptor::Unknown);
}

#[test]
fn prefixes_of_scope_descriptors() {
    assert_eq!(VarScopeDescriptor::Builtin.get_prefix(), "");
    assert_eq!(VarScopeDescriptor::Data.get_prefix(), "$data.");
    assert_eq!(VarScopeDescriptor::Global.get_prefix(), "_ctx.");
    assert_eq!(VarScopeDescriptor::Props.get_prefix(), "$props.");
    assert_eq!(VarScopeDescriptor::Options.get_prefix(), "$options.");
    assert_eq!(VarScopeDescriptor::Setup.get_prefix(), "$setup.");
    assert_eq!(VarScopeDescriptor::Template(3).get_prefix(), "");
    assert_eq!(VarScopeDescriptor::Unknown.get_prefix(), "_ctx.");
}

fn element(tag: &str, attributes: Vec<HtmlAttribute>, children: Vec<Node>) -> Node {
    Node::ElementNode(ElementNode {
        starting_tag: StartingTag { tag_name: tag.to_string(), attributes, is_self_closing: false, kind: ElementKind::Normal },
        children,
        template_scope: 0,
    })
}

fn scoping(name: &str, argument: &str, value: &str) -> HtmlAttribute {
    HtmlAttribute::VDirective(VDirective {
        name: name.to_string(),
        argument: argument.to_string(),
        modifiers: vec![],
        value: Some(value.to_string()),
        is_dynamic_slot: false,
    })
}

fn scope_of(node: &Node) -> u32 {
    match node {
        Node::ElementNode(e) => e.template_scope,
        Node::DynamicExpression { template_scope, .. } => *template_scope,
        _ => panic!("no scope"),
    }
}

fn children(node: &Node) -> &Vec<Node> {
    match node {
        Node::ElementNode(e) => &e.children,
        _ => panic!("element expected"),
    }
}

#[test]
fn records_the_scopes_of_a_template() {
    let mut ast = vec![element(
        "template",
        vec![],
        vec![
            element(
                "div",
                vec![scoping("for", "", "item in items")],
                vec![element("span", vec![], vec![Node::DynamicExpression { value: "item".to_string(), template_scope: 7 }])],
            ),
            element("comp", vec![], vec![element("template", vec![scoping("slot", "header", "props")], vec![])]),
            Node::DynamicExpression { value: "outside".to_string(), template_scope: 7 },
        ],
    )];
    let mut helper = ScopeHelper::default();
    let requests = helper.transform_and_record_ast(&mut ast);

    assert_eq!(helper.template_scopes.len(), 3);
    assert_eq!(helper.template_scopes.iter().map(|s| s.parent).collect::<Vec<_>>(), vec![0, 0, 0]);
    assert!(helper.template_scopes.iter().all(|s| s.variables.is_empty()));
    assert!(helper.parents_ordered());

    let asked: Vec<(u32, &str, &str)> = requests.iter().map(|r| (r.scope, r.directive.as_str(), r.value.as_str())).collect();
    assert_eq!(asked, vec![(1, "for", "item in items"), (2, "slot", "props")]);

    let root = &ast[0];
    assert_eq!(scope_of(root), 0);
    let div = &children(root)[0];
    assert_eq!(scope_of(div), 1);
    let span = &children(div)[0];
    assert_eq!(scope_of(span), 1);
    assert_eq!(scope_of(&children(span)[0]), 1);
    let comp = &children(root)[1];
    assert_eq!(scope_of(comp), 0);
    assert_eq!(scope_of(&children(comp)[0]), 2);
    assert_eq!(scope_of(&children(root)[2]), 0);
}

#[test]
fn nested_scopes_have_their_parents() {
    let mut ast = vec![element(
        "template",
        vec![],
        vec![element("ul", vec![scoping("for", "", "row in rows")], vec![element("li", vec![scoping("for", "", "cell in row")], vec![])])],
    )];
    let mut helper = ScopeHelper::default();
    let requests = helper.transform_and_record_ast(&mut ast);
    assert_eq!(helper.template_scopes.iter().map(|s| s.parent).collect::<Vec<_>>(), vec![0, 0, 1]);
    assert_eq!(requests.len(), 2);
    assert_eq!(requests[1].scope, 2);

    // Once the variables are known, identifiers are written by where they come from
    helper.template_scopes[1].variables.push("row".to_string());
    helper.template_scopes[2].variables.push("cell".to_string());
    helper.setup_vars.push("count".to_string());
    assert!(helper.parents_ordered());
    assert_eq!(helper.scoped_identifier(2, "cell"), "cell");
    assert_eq!(helper.scoped_identifier(2, "row"), "row");
    assert_eq!(helper.scoped_identifier(1, "cell"), "_ctx.cell");
    assert_eq!(helper.scoped_identifier(2, "count"), "$setup.count");
    assert_eq!(helper.scoped_identifier(0, "true"), "true");
}

#[test]
fn an_empty_template_opens_no_scope() {
    let mut ast: Vec<Node> = vec![];
    let mut helper = ScopeHelper::default();
    let requests = helper.transform_and_record_ast(&mut ast);
    assert!(requests.is_empty());
    assert!(helper.template_scopes.is_empty());
}

#[test]
fn parents_after_their_scope_are_refused() {
    let mut helper = ScopeHelper::default();
    helper.add_template_scopes(vec![Scope { parent: 1, variables: vec![] }, Scope { parent: 0, variables: vec![] }]);
    assert!(!helper.parents_ordered());
}
