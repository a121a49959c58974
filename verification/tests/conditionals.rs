use fervid::transform::conditionals::{
    optimize_v_if_plus_v_for, transform_if, ConditionalSeq, StructuralDirectives, TemplateElement, TemplateNode,
};

fn directives() -> StructuralDirectives {
    StructuralDirectives { v_if: None, v_else_if: None, v_else: false, v_for: None, v_slot: false }
}

fn element(tag: &str, directives: Option<StructuralDirectives>, children: Vec<TemplateNode>) -> TemplateNode {
    TemplateNode::Element(TemplateElement {
        tag_name: tag.to_string(),
        is_template: tag == "template",
        directives,
        children,
    })
}

fn text(s: &str) -> TemplateNode {
    TemplateNode::Text(s.to_string())
}

// <h1 v-if="true">if</h1>
fn if_node() -> TemplateNode {
    element("h1", Some(StructuralDirectives { v_if: Some("true".to_string()), ..directives() }), vec![text("if")])
}

// <h2 v-else-if="foo">else-if</h2>
fn else_if_node() -> TemplateNode {
    element("h2", Some(StructuralDirectives { v_else_if: Some("foo".to_string()), ..directives() }), vec![text("else-if")])
}

// <h3 v-else>else</h3>
fn else_node() -> TemplateNode {
    element("h3", Some(StructuralDirectives { v_else: true, ..directives() }), vec![text("else")])
}

fn tag_of(node: &TemplateNode) -> &str {
    match node {
        TemplateNode::Element(e) => e.tag_name.as_str(),
        _ => panic!("Expected element"),
    }
}

fn as_seq(node: &TemplateNode) -> &ConditionalSeq {
    match node {
        TemplateNode::ConditionalSeq(seq) => seq,
        _ => panic!("Not a conditional sequence"),
    }
}

fn is_text(node: &TemplateNode, expected: &str) -> bool {
    matches!(node, TemplateNode::Text(t) if t == expected)
}

#[test]
fn folds_a_basic_sequence() {
    let mut children = vec![text("text"), if_node(), else_if_node(), else_node()];
    transform_if(&mut children);

    assert_eq!(2, children.len());
    assert!(is_text(&children[0], "text"));
    let seq = as_seq(&children[1]);
    assert_eq!("true", seq.if_node.condition);
    assert_eq!("h1", tag_of(&seq.if_node.node));
    assert_eq!(1, seq.else_if_nodes.len());
    assert_eq!("foo", seq.else_if_nodes[0].condition);
    assert_eq!("h2", tag_of(&seq.else_if_nodes[0].node));
    assert_eq!("h3", tag_of(seq.else_node.as_deref().expect("Must have else node")));
}

#[test]
fn the_condition_is_taken_off_the_branch() {
    let mut children = vec![if_node(), else_if_node()];
    transform_if(&mut children);
    let seq = as_seq(&children[0]);
    match &seq.if_node.node {
        TemplateNode::Element(e) => assert!(e.directives.as_ref().unwrap().v_if.is_none()),
        _ => panic!("Expected element"),
    }
    match &seq.else_if_nodes[0].node {
        TemplateNode::Element(e) => assert!(e.directives.as_ref().unwrap().v_else_if.is_none()),
        _ => panic!("Expected element"),
    }
    assert!(seq.else_node.is_none());
}

#[test]
fn folds_multiple_ifs_into_separate_sequences() {
    let mut children = vec![if_node(), if_node()];
    transform_if(&mut children);
    assert_eq!(2, children.len());
    assert_eq!("h1", tag_of(&as_seq(&children[0]).if_node.node));
    assert_eq!("h1", tag_of(&as_seq(&children[1]).if_node.node));
}

#[test]
fn folds_multiple_else_ifs() {
    let mut children = vec![if_node(), else_if_node(), if_node(), else_if_node()];
    transform_if(&mut children);
    assert_eq!(2, children.len());
    for child in &children {
        let seq = as_seq(child);
        assert_eq!("h1", tag_of(&seq.if_node.node));
        assert_eq!("h2", tag_of(&seq.else_if_nodes[0].node));
    }
}

#[test]
fn leaves_else_branches_without_an_if() {
    let mut children = vec![else_if_node(), else_node()];
    transform_if(&mut children);
    assert_eq!(2, children.len());
    assert_eq!("h2", tag_of(&children[0]));
    assert_eq!("h3", tag_of(&children[1]));
}

#[test]
fn handles_complex_cases() {
    let mut children = vec![
        text("text"),
        if_node(),
        text("text"),
        if_node(),
        else_if_node(),
        text("text"),
        if_node(),
        else_node(),
    ];
    transform_if(&mut children);
    assert_eq!(6, children.len());
    assert!(is_text(&children[0], "text"));
    assert!(is_text(&children[2], "text"));
    assert!(is_text(&children[4], "text"));
    assert!(as_seq(&children[1]).else_if_nodes.is_empty());
    assert_eq!(1, as_seq(&children[3]).else_if_nodes.len());
    assert!(as_seq(&children[5]).else_node.is_some());
}

#[test]
fn ignores_nodes_without_conditional_directives() {
    let mut children = vec![element("test-component", Some(directives()), vec![]), element("div", Some(directives()), vec![text("hello")])];
    transform_if(&mut children);
    assert_eq!(2, children.len());
    assert_eq!("test-component", tag_of(&children[0]));
    assert_eq!("div", tag_of(&children[1]));
}

#[test]
fn comments_inside_a_sequence_are_dropped() {
    let mut children = vec![
        TemplateNode::Comment("before".to_string()),
        if_node(),
        TemplateNode::Comment("between".to_string()),
        else_node(),
        TemplateNode::Comment("after".to_string()),
    ];
    transform_if(&mut children);
    assert_eq!(3, children.len());
    assert!(matches!(&children[0], TemplateNode::Comment(c) if c == "before"));
    assert!(as_seq(&children[1]).else_node.is_some());
    assert!(matches!(&children[2], TemplateNode::Comment(c) if c == "after"));
}

#[test]
fn an_open_sequence_is_closed_by_other_nodes() {
    let mut children = vec![if_node(), TemplateNode::Interpolation("x".to_string()), else_node()];
    transform_if(&mut children);
    assert_eq!(3, children.len());
    assert!(as_seq(&children[0]).else_node.is_none());
    assert!(matches!(&children[1], TemplateNode::Interpolation(x) if x == "x"));
    assert_eq!("h3", tag_of(&children[2]));
}

#[test]
fn template_slots_stay_out_of_sequences() {
    let slot = element("template", Some(StructuralDirectives { v_if: Some("ok".to_string()), v_slot: true, ..directives() }), vec![]);
    let mut children = vec![if_node(), slot, else_node()];
    transform_if(&mut children);
    assert_eq!(3, children.len());
    assert!(as_seq(&children[0]).else_node.is_none());
    assert_eq!("template", tag_of(&children[1]));
    assert_eq!("h3", tag_of(&children[2]));
}

#[test]
fn an_empty_list_stays_empty() {
    let mut children: Vec<TemplateNode> = vec![];
    transform_if(&mut children);
    assert!(children.is_empty());
}

#[test]
fn a_template_with_one_element_gives_way_to_it() {
    let parent = TemplateElement {
        tag_name: "template".to_string(),
        is_template: true,
        directives: Some(StructuralDirectives { v_for: Some("item in items".to_string()), ..directives() }),
        children: vec![element("li", None, vec![text("x")])],
    };
    let child = optimize_v_if_plus_v_for(parent);
    assert_eq!("li", child.tag_name);
    assert_eq!(Some("item in items".to_string()), child.directives.unwrap().v_for);
}

#[test]
fn a_template_with_two_v_for_stays() {
    let parent = TemplateElement {
        tag_name: "template".to_string(),
        is_template: true,
        directives: Some(StructuralDirectives { v_for: Some("a in b".to_string()), ..directives() }),
        children: vec![element("li", Some(StructuralDirectives { v_for: Some("c in d".to_string()), ..directives() }), vec![])],
    };
    let same = optimize_v_if_plus_v_for(parent);
    assert_eq!("template", same.tag_name);
    assert_eq!(1, same.children.len());
}

#[test]
fn a_template_folded_from_v_if_unwraps_its_child() {
    let wrapper = element(
        "template",
        Some(StructuralDirectives { v_if: Some("ok".to_string()), ..directives() }),
        vec![element("span", None, vec![text("x")])],
    );
    let mut children = vec![wrapper];
    transform_if(&mut children);
    assert_eq!(1, children.len());
    let seq = as_seq(&children[0]);
    assert_eq!("ok", seq.if_node.condition);
    assert_eq!("span", tag_of(&seq.if_node.node));
}

#[test]
fn folding_goes_piece_by_piece() {
    // [v-if, v-else] followed by [v-if, text]: the second part starts afresh
    let mut whole = vec![if_node(), else_node(), if_node(), text("after")];
    transform_if(&mut whole);
    let mut first = vec![if_node(), else_node()];
    transform_if(&mut first);
    let mut second = vec![if_node(), text("after")];
    transform_if(&mut second);

    assert_eq!(whole.len(), first.len() + second.len());
    assert_eq!(whole.len(), 3);
    assert_eq!(as_seq(&whole[0]).else_node.is_some(), as_seq(&first[0]).else_node.is_some());
    assert_eq!(as_seq(&whole[1]).else_node.is_some(), as_seq(&second[0]).else_node.is_some());
    assert!(is_text(&whole[2], "after"));
    assert!(is_text(&second[1], "after"));
}
