use wxml_compiler::binding_map::{BindingMapCollector, BindingMapKeys};
use wxml_compiler::convert_tree::{
    convert_directives, prepare_attr_value, prepare_expr_in_tree, prepare_node_expr_in_tree,
};
use wxml_compiler::element::{
    TmplAttr, TmplAttrKind, TmplAttrValue, TmplElement, TmplNode, TmplScript, TmplTextNode,
    TmplVirtualType,
};
use wxml_compiler::expr::TmplExpr;
use wxml_compiler::tree::TmplTree;

fn text(s: &str) -> TmplAttrValue {
    TmplAttrValue::Static(s.to_string())
}

fn ident(name: &str) -> TmplExpr {
    TmplExpr::Ident(name.to_string())
}

fn dynamic(expr: TmplExpr) -> TmplAttrValue {
    TmplAttrValue::Dynamic { expr: Box::new(expr), binding_map_keys: None }
}

fn field(name: &str) -> TmplAttrValue {
    dynamic(ident(name))
}

fn keys(list: &[(&str, usize)]) -> Option<BindingMapKeys> {
    let mut k = BindingMapKeys::new();
    for (name, index) in list {
        k.add(name, *index);
    }
    Some(k)
}

fn resolved(expr: TmplExpr, k: Option<BindingMapKeys>) -> TmplAttrValue {
    TmplAttrValue::Dynamic { expr: Box::new(expr), binding_map_keys: k }
}

fn static_node(s: &str) -> TmplNode {
    TmplNode::TextNode(TmplTextNode::Static(s.to_string()))
}

fn dyn_node(expr: TmplExpr) -> TmplNode {
    TmplNode::TextNode(TmplTextNode::Dynamic { expr: Box::new(expr), binding_map_keys: None })
}

fn dyn_node_with(expr: TmplExpr, k: Option<BindingMapKeys>) -> TmplNode {
    TmplNode::TextNode(TmplTextNode::Dynamic { expr: Box::new(expr), binding_map_keys: k })
}

fn elem(tag: &str, attrs: Vec<(&str, TmplAttrValue)>, children: Vec<TmplNode>) -> TmplElement {
    let vt = if tag == "block" { TmplVirtualType::Pure } else { TmplVirtualType::Plain };
    let mut e = TmplElement::new(tag, vt);
    for (name, value) in attrs {
        e.add_attr(name, value);
    }
    e.children = children;
    e
}

fn node(tag: &str, attrs: Vec<(&str, TmplAttrValue)>, children: Vec<TmplNode>) -> TmplNode {
    TmplNode::Element(elem(tag, attrs, children))
}

fn block(vt: TmplVirtualType, children: Vec<TmplNode>) -> TmplElement {
    let mut e = TmplElement::new("block", vt);
    e.children = children;
    e
}

fn names(list: &[&str]) -> Vec<String> {
    list.iter().map(|s| s.to_string()).collect()
}

fn compile(children: Vec<TmplNode>) -> TmplTree {
    let mut tree = TmplTree::new();
    tree.root.children = children;
    convert_directives(&mut tree);
    prepare_expr_in_tree(&mut tree);
    tree
}

fn element_at(nodes: &[TmplNode], i: usize) -> &TmplElement {
    match &nodes[i] {
        TmplNode::Element(e) => e,
        _ => panic!("an element expected"),
    }
}

#[test]
fn plain_path_maps_fields_in_order() {
    let tree = compile(vec![
        dyn_node(ident("a")),
        node(
            "view",
            vec![("class", field("b")), ("id", text("s")), ("hidden", field("a"))],
            vec![dyn_node(TmplExpr::Plus(Box::new(ident("c")), Box::new(ident("b"))))],
        ),
    ]);
    assert_eq!(tree.root.children[0], dyn_node_with(ident("a"), keys(&[("a", 0)])));
    let view = element_at(&tree.root.children, 1);
    assert_eq!(
        view.attrs,
        vec![
            TmplAttr { kind: TmplAttrKind::Class, value: resolved(ident("b"), keys(&[("b", 1)])) },
            TmplAttr { kind: TmplAttrKind::Id, value: text("s") },
            TmplAttr {
                kind: TmplAttrKind::PropertyOrExternalClass { name: "hidden".to_string() },
                value: resolved(ident("a"), keys(&[("a", 0)])),
            },
        ]
    );
    assert_eq!(
        view.children,
        vec![dyn_node_with(
            TmplExpr::Plus(Box::new(ident("c")), Box::new(ident("b"))),
            keys(&[("c", 2), ("b", 1)])
        )]
    );
    assert_eq!(
        tree.binding_map_collector.list_fields(),
        vec![("a".to_string(), 0), ("b".to_string(), 1), ("c".to_string(), 2)]
    );
}

#[test]
fn end_to_end_conditional_chain() {
    let tree = compile(vec![
        node("view", vec![("wx:if", field("a"))], vec![static_node("1")]),
        node("view", vec![("wx:elif", field("b"))], vec![static_node("2")]),
        node(
            "view",
            vec![("wx:else", dynamic(TmplExpr::LitBool(true)))],
            vec![static_node("3")],
        ),
    ]);
    assert_eq!(
        tree.root.children,
        vec![TmplNode::Element(block(
            TmplVirtualType::IfGroup,
            vec![
                TmplNode::Element(block(
                    TmplVirtualType::If { cond: resolved(ident("a"), None) },
                    vec![node("view", vec![], vec![static_node("1")])],
                )),
                TmplNode::Element(block(
                    TmplVirtualType::Elif { cond: resolved(ident("b"), None) },
                    vec![node("view", vec![], vec![static_node("2")])],
                )),
                TmplNode::Element(block(
                    TmplVirtualType::Else,
                    vec![node("view", vec![], vec![static_node("3")])],
                )),
            ],
        ))]
    );
    let bmc = &tree.binding_map_collector;
    assert!(bmc.is_disabled("a"));
    assert!(bmc.is_disabled("b"));
    assert_eq!(bmc.get_field("a"), None);
    assert_eq!(bmc.get_field("b"), None);
    assert!(bmc.list_fields().is_empty());
}

#[test]
fn end_to_end_loop() {
    let tree = compile(vec![node(
        "block",
        vec![("wx:for", field("list")), ("wx:for-item", text("x"))],
        vec![dyn_node(ident("x"))],
    )]);
    assert_eq!(
        tree.root.children,
        vec![TmplNode::Element(block(
            TmplVirtualType::For {
                list: resolved(ident("list"), None),
                item_name: "$0".to_string(),
                index_name: "$1".to_string(),
                key: None,
            },
            vec![dyn_node_with(TmplExpr::ScopeIndex(0), None)],
        ))]
    );
    let bmc = &tree.binding_map_collector;
    assert!(bmc.is_disabled("list"));
    assert!(!bmc.is_disabled("x"));
    assert_eq!(bmc.get_field("x"), None);
    assert!(bmc.list_fields().is_empty());
}

#[test]
fn loop_item_hides_a_field_of_the_same_name_only_inside() {
    let tree = compile(vec![
        dyn_node(ident("x")),
        node(
            "view",
            vec![("wx:for", field("list")), ("wx:for-item", text("x"))],
            vec![dyn_node(TmplExpr::Plus(Box::new(ident("x")), Box::new(ident("index"))))],
        ),
        dyn_node(ident("x")),
        dyn_node(ident("index")),
    ]);
    assert_eq!(tree.root.children[0], dyn_node_with(ident("x"), keys(&[("x", 0)])));
    let looped = element_at(&tree.root.children, 1);
    let view = element_at(&looped.children, 0);
    assert_eq!(
        view.children,
        vec![dyn_node_with(
            TmplExpr::Plus(Box::new(TmplExpr::ScopeIndex(0)), Box::new(TmplExpr::ScopeIndex(1))),
            None
        )]
    );
    assert_eq!(tree.root.children[2], dyn_node_with(ident("x"), keys(&[("x", 0)])));
    assert_eq!(tree.root.children[3], dyn_node_with(ident("index"), keys(&[("index", 1)])));
    assert_eq!(
        tree.binding_map_collector.list_fields(),
        vec![("x".to_string(), 0), ("index".to_string(), 1)]
    );
}

#[test]
fn inner_loop_shadows_outer_loop() {
    let tree = compile(vec![node(
        "view",
        vec![("wx:for", field("a"))],
        vec![
            dyn_node(ident("item")),
            node(
                "view",
                vec![("wx:for", field("item")), ("wx:for-index", text("j"))],
                vec![dyn_node(TmplExpr::LitArr(vec![ident("item"), ident("index"), ident("j")]))],
            ),
        ],
    )]);
    let outer = element_at(&tree.root.children, 0);
    let outer_view = element_at(&outer.children, 0);
    assert_eq!(outer_view.children[0], dyn_node_with(TmplExpr::ScopeIndex(0), None));
    let inner = element_at(&outer_view.children, 1);
    assert_eq!(
        inner.virtual_type,
        TmplVirtualType::For {
            list: resolved(TmplExpr::ScopeIndex(0), None),
            item_name: "$2".to_string(),
            index_name: "$3".to_string(),
            key: None,
        }
    );
    let inner_view = element_at(&inner.children, 0);
    assert_eq!(
        inner_view.children,
        vec![dyn_node_with(
            TmplExpr::LitArr(vec![
                TmplExpr::ScopeIndex(2),
                TmplExpr::ScopeIndex(1),
                TmplExpr::ScopeIndex(3)
            ]),
            None
        )]
    );
}

#[test]
fn field_used_in_a_structure_is_disabled_for_good() {
    let tree = compile(vec![
        dyn_node(ident("a")),
        node("view", vec![("wx:if", field("a"))], vec![dyn_node(ident("b"))]),
        dyn_node(ident("a")),
        dyn_node(ident("b")),
        dyn_node(ident("c")),
    ]);
    assert_eq!(tree.root.children[0], dyn_node_with(ident("a"), keys(&[("a", 0)])));
    assert_eq!(tree.root.children[2], dyn_node_with(ident("a"), keys(&[])));
    assert_eq!(tree.root.children[3], dyn_node_with(ident("b"), keys(&[])));
    assert_eq!(tree.root.children[4], dyn_node_with(ident("c"), keys(&[("c", 1)])));
    let bmc = &tree.binding_map_collector;
    assert!(bmc.is_disabled("a"));
    assert!(bmc.is_disabled("b"));
    assert_eq!(bmc.list_fields(), vec![("c".to_string(), 1)]);
    match &tree.root.children[0] {
        TmplNode::TextNode(TmplTextNode::Dynamic { binding_map_keys: Some(k), .. }) => {
            assert!(k.is_empty(bmc));
        }
        _ => panic!("a dynamic text expected"),
    }
    match &tree.root.children[4] {
        TmplNode::TextNode(TmplTextNode::Dynamic { binding_map_keys: Some(k), .. }) => {
            assert!(!k.is_empty(bmc));
        }
        _ => panic!("a dynamic text expected"),
    }
}

#[test]
fn slot_values_open_scopes() {
    let tree = compile(vec![node(
        "comp",
        vec![("slot:item", text("")), ("slot:pos", text("p")), ("title", field("item"))],
        vec![dyn_node(TmplExpr::LitArr(vec![ident("item"), ident("p"), ident("pos")]))],
    )]);
    let comp = element_at(&tree.root.children, 0);
    assert_eq!(
        comp.slot_values,
        vec![("item".to_string(), "$0".to_string()), ("pos".to_string(), "$1".to_string())]
    );
    assert_eq!(
        comp.attrs,
        vec![TmplAttr {
            kind: TmplAttrKind::PropertyOrExternalClass { name: "title".to_string() },
            value: resolved(TmplExpr::ScopeIndex(0), keys(&[])),
        }]
    );
    assert_eq!(
        comp.children,
        vec![dyn_node_with(
            TmplExpr::LitArr(vec![TmplExpr::ScopeIndex(0), TmplExpr::ScopeIndex(1), ident("pos")]),
            keys(&[("pos", 0)])
        )]
    );
}

#[test]
fn loop_with_slot_values_opens_both_kinds_of_scopes() {
    let tree = compile(vec![node(
        "comp",
        vec![("wx:for", field("l")), ("slot:v", text(""))],
        vec![dyn_node(TmplExpr::LitArr(vec![ident("item"), ident("index"), ident("v")]))],
    )]);
    let looped = element_at(&tree.root.children, 0);
    assert_eq!(
        looped.virtual_type,
        TmplVirtualType::For {
            list: resolved(ident("l"), None),
            item_name: "$0".to_string(),
            index_name: "$1".to_string(),
            key: None,
        }
    );
    assert_eq!(looped.slot_values, vec![("v".to_string(), "$2".to_string())]);
    let comp = element_at(&looped.children, 0);
    assert_eq!(
        comp.children,
        vec![dyn_node_with(
            TmplExpr::LitArr(vec![
                TmplExpr::ScopeIndex(0),
                TmplExpr::ScopeIndex(1),
                TmplExpr::ScopeIndex(2)
            ]),
            None
        )]
    );
}

#[test]
fn roles_resolve_their_expressions_disabled() {
    let tree = compile(vec![
        node("template", vec![("is", field("t")), ("data", field("d"))], vec![]),
        node("slot", vec![("name", field("n")), ("p", field("q"))], vec![]),
    ]);
    let reference = element_at(&tree.root.children, 0);
    assert_eq!(
        reference.virtual_type,
        TmplVirtualType::TemplateRef {
            target: resolved(ident("t"), None),
            data: resolved(TmplExpr::LitObj(vec![(Some("d".to_string()), ident("d"))]), None),
        }
    );
    let slot = element_at(&tree.root.children, 1);
    assert_eq!(
        slot.virtual_type,
        TmplVirtualType::Slot {
            name: resolved(ident("n"), None),
            props: Some(vec![TmplAttr {
                kind: TmplAttrKind::PropertyOrExternalClass { name: "p".to_string() },
                value: resolved(ident("q"), None),
            }]),
        }
    );
    let bmc = &tree.binding_map_collector;
    for f in ["t", "d", "n", "q"] {
        assert!(bmc.is_disabled(f));
    }
}

#[test]
fn script_modules_are_no_fields() {
    let tree = compile(vec![
        node("wxs", vec![("module", text("tools"))], vec![static_node("code")]),
        node("wxs", vec![("module", text("far")), ("src", text("f.wxs"))], vec![]),
        dyn_node(TmplExpr::FuncCall(
            Box::new(TmplExpr::StaticMember(Box::new(ident("tools")), "f".to_string())),
            vec![ident("a"), ident("far")],
        )),
        node("view", vec![("wx:if", field("tools"))], vec![]),
    ]);
    assert_eq!(
        tree.root.children[0],
        dyn_node_with(
            TmplExpr::FuncCall(
                Box::new(TmplExpr::StaticMember(Box::new(ident("tools")), "f".to_string())),
                vec![ident("a"), ident("far")],
            ),
            keys(&[("a", 0)])
        )
    );
    let bmc = &tree.binding_map_collector;
    assert_eq!(bmc.list_fields(), vec![("a".to_string(), 0)]);
    assert!(!bmc.is_disabled("tools"));
    assert!(!bmc.is_disabled("far"));
    assert_eq!(
        tree.scripts,
        vec![
            TmplScript::Inline { module_name: "tools".to_string(), content: "code".to_string() },
            TmplScript::GlobalRef { module_name: "far".to_string(), rel_path: "f".to_string() },
        ]
    );
}

#[test]
fn sub_templates_are_resolved_by_themselves() {
    let tree = compile(vec![
        dyn_node(ident("a")),
        node(
            "template",
            vec![("name", text("t"))],
            vec![
                dyn_node(ident("a")),
                node("view", vec![("wx:for", field("l"))], vec![dyn_node(ident("item"))]),
            ],
        ),
        dyn_node(ident("b")),
    ]);
    assert_eq!(
        tree.binding_map_collector.list_fields(),
        vec![("a".to_string(), 0), ("b".to_string(), 1)]
    );
    assert!(!tree.binding_map_collector.is_disabled("l"));
    let t = tree.sub_templates.get("t").unwrap();
    assert_eq!(t.children[0], dyn_node_with(ident("a"), None));
    let looped = element_at(&t.children, 1);
    let view = element_at(&looped.children, 0);
    assert_eq!(view.children, vec![dyn_node_with(TmplExpr::ScopeIndex(0), None)]);
}

#[test]
fn resolving_children_directly() {
    let mut parent = elem("view", vec![("id", field("untouched"))], vec![dyn_node(ident("s"))]);
    let mut bmc = BindingMapCollector::new();
    prepare_node_expr_in_tree(&mut parent, &mut bmc, &names(&["q", "s"]), &names(&[]), false);
    assert_eq!(parent.children, vec![dyn_node_with(TmplExpr::ScopeIndex(1), keys(&[]))]);
    assert_eq!(parent.attrs[0].value, field("untouched"));
    assert!(bmc.list_fields().is_empty());
}

#[test]
fn resolving_one_value() {
    let mut bmc = BindingMapCollector::new();
    let mut v = field("a");
    prepare_attr_value(&mut v, &mut bmc, &names(&[]), &names(&[]), false);
    assert_eq!(v, resolved(ident("a"), keys(&[("a", 0)])));
    let mut w = text("a");
    prepare_attr_value(&mut w, &mut bmc, &names(&[]), &names(&[]), true);
    assert_eq!(w, text("a"));
    let mut x = resolved(ident("a"), keys(&[("stale", 5)]));
    prepare_attr_value(&mut x, &mut bmc, &names(&[]), &names(&[]), true);
    assert_eq!(x, resolved(ident("a"), None));
    assert!(bmc.is_disabled("a"));
}

#[test]
fn resolving_a_whole_tree_keeps_what_was_gathered() {
    let mut tree = TmplTree::new();
    tree.path = "p".to_string();
    tree.imports = names(&["i"]);
    tree.includes = names(&["j"]);
    tree.root.children = vec![dyn_node(ident("a"))];
    prepare_expr_in_tree(&mut tree);
    assert_eq!(tree.path, "p");
    assert_eq!(tree.imports, names(&["i"]));
    assert_eq!(tree.includes, names(&["j"]));
    assert_eq!(tree.root.children, vec![dyn_node_with(ident("a"), keys(&[("a", 0)]))]);
}
