use wxml_compiler::convert_tree::{convert_directives, convert_nodes_directives};
use wxml_compiler::element::{
    TmplAttr, TmplAttrKind, TmplAttrValue, TmplElement, TmplNode, TmplScript, TmplTextNode,
    TmplVirtualType,
};
use wxml_compiler::expr::TmplExpr;
use wxml_compiler::str_map::StrMap;
use wxml_compiler::tree::TmplTree;

fn text(s: &str) -> TmplAttrValue {
    TmplAttrValue::Static(s.to_string())
}

fn dynamic(expr: TmplExpr) -> TmplAttrValue {
    TmplAttrValue::Dynamic { expr: Box::new(expr), binding_map_keys: None }
}

fn field(name: &str) -> TmplAttrValue {
    dynamic(TmplExpr::Ident(name.to_string()))
}

fn flag() -> TmplAttrValue {
    dynamic(TmplExpr::LitBool(true))
}

fn static_node(s: &str) -> TmplNode {
    TmplNode::TextNode(TmplTextNode::Static(s.to_string()))
}

fn elem(tag: &str, attrs: Vec<(&str, TmplAttrValue)>, children: Vec<TmplNode>) -> TmplElement {
    let vt = if tag == "block" { TmplVirtualType::Pure } else { TmplVirtualType::Plain };
    let mut e = TmplElement::new(tag, vt);
    for (name, value) in attrs {
        e.add_attr(name, value);
    }
    e.children = children;
    e
}

fn node(tag: &str, attrs: Vec<(&str, TmplAttrValue)>, children: Vec<TmplNode>) -> TmplNode {
    TmplNode::Element(elem(tag, attrs, children))
}

fn with_role(mut e: TmplElement, vt: TmplVirtualType) -> TmplElement {
    e.virtual_type = vt;
    e
}

fn block(vt: TmplVirtualType, children: Vec<TmplNode>) -> TmplElement {
    let mut e = TmplElement::new("block", vt);
    e.children = children;
    e
}

fn pairs(list: &[(&str, &str)]) -> Vec<(String, String)> {
    list.iter().map(|(a, b)| (a.to_string(), b.to_string())).collect()
}

struct Converted {
    children: Vec<TmplNode>,
    imports: Vec<String>,
    includes: Vec<String>,
    sub_templates: StrMap<TmplElement>,
    scripts: Vec<TmplScript>,
}

fn convert(children: Vec<TmplNode>) -> Converted {
    let mut parent = TmplElement::new("", TmplVirtualType::Plain);
    parent.children = children;
    let mut imports = vec![];
    let mut includes = vec![];
    let mut sub_templates = StrMap::new();
    let mut scripts = vec![];
    convert_nodes_directives(
        &mut parent,
        &mut imports,
        &mut includes,
        &mut sub_templates,
        &mut scripts,
    );
    Converted { children: parent.children, imports, includes, sub_templates, scripts }
}

fn if_chain() -> Vec<TmplNode> {
    vec![
        node("view", vec![("wx:if", field("a"))], vec![static_node("1")]),
        node("view", vec![("wx:elif", field("b"))], vec![static_node("2")]),
        node("view", vec![("wx:else", flag())], vec![static_node("3")]),
    ]
}

fn grouped_chain() -> TmplNode {
    TmplNode::Element(block(
        TmplVirtualType::IfGroup,
        vec![
            TmplNode::Element(block(
                TmplVirtualType::If { cond: field("a") },
                vec![node("view", vec![], vec![static_node("1")])],
            )),
            TmplNode::Element(block(
                TmplVirtualType::Elif { cond: field("b") },
                vec![node("view", vec![], vec![static_node("2")])],
            )),
            TmplNode::Element(block(
                TmplVirtualType::Else,
                vec![node("view", vec![], vec![static_node("3")])],
            )),
        ],
    ))
}

#[test]
fn text_and_plain_elements_stay() {
    let got = convert(vec![
        static_node("a"),
        node("view", vec![("id", text("x")), ("class", field("c"))], vec![static_node("b")]),
    ]);
    assert_eq!(
        got.children,
        vec![
            static_node("a"),
            node("view", vec![("id", text("x")), ("class", field("c"))], vec![static_node("b")]),
        ]
    );
    assert!(got.imports.is_empty());
    assert!(got.includes.is_empty());
    assert_eq!(got.sub_templates.len(), 0);
    assert!(got.scripts.is_empty());
}

#[test]
fn if_elif_else_become_one_group() {
    let got = convert(if_chain());
    assert_eq!(got.children, vec![grouped_chain()]);
}

#[test]
fn chain_is_one_group_among_any_siblings() {
    let mut children = vec![static_node("before"), node("view", vec![], vec![])];
    children.extend(if_chain());
    children.push(node("text", vec![("wx:for", field("l"))], vec![]));
    children.push(static_node("after"));
    let got = convert(children);
    assert_eq!(got.children.len(), 5);
    assert_eq!(got.children[2], grouped_chain());
    let groups = got
        .children
        .iter()
        .filter(|n| matches!(n, TmplNode::Element(e) if e.virtual_type == TmplVirtualType::IfGroup))
        .count();
    assert_eq!(groups, 1);
    assert_eq!(got.children[0], static_node("before"));
    assert_eq!(got.children[4], static_node("after"));
}

#[test]
fn transparent_group_takes_the_role_itself() {
    let got = convert(vec![
        node("block", vec![("wx:if", field("a"))], vec![static_node("1")]),
        node("block", vec![("wx:else", flag())], vec![static_node("2")]),
    ]);
    assert_eq!(
        got.children,
        vec![TmplNode::Element(block(
            TmplVirtualType::IfGroup,
            vec![
                TmplNode::Element(block(TmplVirtualType::If { cond: field("a") }, vec![static_node("1")])),
                TmplNode::Element(block(TmplVirtualType::Else, vec![static_node("2")])),
            ],
        ))]
    );
}

#[test]
fn dangling_elif_and_else_open_a_group() {
    let got = convert(vec![
        node("view", vec![("wx:elif", field("a"))], vec![]),
        static_node("x"),
        node("view", vec![("wx:else", flag())], vec![]),
    ]);
    assert_eq!(
        got.children,
        vec![
            TmplNode::Element(block(
                TmplVirtualType::IfGroup,
                vec![TmplNode::Element(block(
                    TmplVirtualType::Elif { cond: field("a") },
                    vec![node("view", vec![], vec![])],
                ))],
            )),
            static_node("x"),
            TmplNode::Element(block(
                TmplVirtualType::IfGroup,
                vec![TmplNode::Element(block(TmplVirtualType::Else, vec![node("view", vec![], vec![])]))],
            )),
        ]
    );
}

#[test]
fn a_second_if_opens_a_second_group() {
    let got = convert(vec![
        node("view", vec![("wx:if", field("a"))], vec![]),
        node("view", vec![("wx:if", field("b"))], vec![]),
        node("view", vec![("wx:else", flag())], vec![]),
    ]);
    assert_eq!(got.children.len(), 2);
    match (&got.children[0], &got.children[1]) {
        (TmplNode::Element(g1), TmplNode::Element(g2)) => {
            assert_eq!(g1.virtual_type, TmplVirtualType::IfGroup);
            assert_eq!(g1.children.len(), 1);
            assert_eq!(g2.virtual_type, TmplVirtualType::IfGroup);
            assert_eq!(g2.children.len(), 2);
        }
        _ => panic!("two groups expected"),
    }
}

#[test]
fn last_conditional_directive_counts() {
    let got = convert(vec![node(
        "view",
        vec![("wx:if", field("a")), ("wx:else", flag())],
        vec![],
    )]);
    assert_eq!(
        got.children,
        vec![TmplNode::Element(block(
            TmplVirtualType::IfGroup,
            vec![TmplNode::Element(block(TmplVirtualType::Else, vec![node("view", vec![], vec![])]))],
        ))]
    );
}

#[test]
fn pure_group_is_replaced_by_its_children_in_order() {
    let got = convert(vec![
        node("a", vec![], vec![]),
        node("block", vec![], vec![node("x", vec![], vec![]), node("y", vec![], vec![])]),
        node("b", vec![], vec![]),
    ]);
    assert_eq!(
        got.children,
        vec![
            node("a", vec![], vec![]),
            node("x", vec![], vec![]),
            node("y", vec![], vec![]),
            node("b", vec![], vec![]),
        ]
    );
}

#[test]
fn nested_pure_groups_are_all_replaced() {
    let got = convert(vec![node(
        "block",
        vec![],
        vec![
            static_node("t"),
            node("block", vec![], vec![node("x", vec![], vec![]), node("block", vec![], vec![])]),
            node("y", vec![], vec![]),
        ],
    )]);
    assert_eq!(
        got.children,
        vec![static_node("t"), node("x", vec![], vec![]), node("y", vec![], vec![])]
    );
}

#[test]
fn pure_group_with_a_slot_target_stays() {
    let got = convert(vec![node("block", vec![("slot", text("s"))], vec![static_node("t")])]);
    let mut expected = block(TmplVirtualType::Pure, vec![static_node("t")]);
    expected.slot = Some(text("s"));
    assert_eq!(got.children, vec![TmplNode::Element(expected)]);
}

#[test]
fn pure_group_hands_its_slot_values_to_its_children() {
    let got = convert(vec![node(
        "block",
        vec![("slot:item", text("")), ("slot:list-index", text("i")), ("slot:on", flag()), ("slot:bad", field("v"))],
        vec![static_node("t"), node("x", vec![("slot:own", text(""))], vec![node("y", vec![], vec![])])],
    )]);
    let mut x = elem("x", vec![], vec![node("y", vec![], vec![])]);
    x.slot_values = pairs(&[("item", "item"), ("listIndex", "i"), ("on", "on")]);
    assert_eq!(got.children, vec![static_node("t"), TmplNode::Element(x)]);
}

#[test]
fn kept_element_gets_its_slot_values() {
    let got = convert(vec![node("view", vec![("slot:a", text("b")), ("slot", field("s"))], vec![])]);
    let mut v = elem("view", vec![], vec![]);
    v.slot_values = pairs(&[("a", "b")]);
    v.slot = Some(field("s"));
    assert_eq!(got.children, vec![TmplNode::Element(v)]);
}

#[test]
fn for_wraps_with_default_names() {
    let got = convert(vec![node("view", vec![("wx:for", field("list")), ("id", text("i"))], vec![])]);
    assert_eq!(
        got.children,
        vec![TmplNode::Element(block(
            TmplVirtualType::For {
                list: field("list"),
                item_name: "item".to_string(),
                index_name: "index".to_string(),
                key: None,
            },
            vec![node("view", vec![("id", text("i"))], vec![])],
        ))]
    );
}

#[test]
fn for_takes_the_given_names_and_key() {
    let got = convert(vec![node(
        "block",
        vec![
            ("wx:for-items", field("list")),
            ("wx:for-item", text("x")),
            ("wx:for-index", text("i")),
            ("wx:key", text("id")),
            ("wx:unknown", text("u")),
        ],
        vec![static_node("t")],
    )]);
    assert_eq!(
        got.children,
        vec![TmplNode::Element(block(
            TmplVirtualType::For {
                list: field("list"),
                item_name: "x".to_string(),
                index_name: "i".to_string(),
                key: Some("id".to_string()),
            },
            vec![static_node("t")],
        ))]
    );
}

#[test]
fn if_with_for_nests_the_group_in_the_loop() {
    let got = convert(vec![node(
        "view",
        vec![("wx:if", field("a")), ("wx:for", field("l"))],
        vec![node("block", vec![], vec![static_node("t")])],
    )]);
    assert_eq!(
        got.children,
        vec![TmplNode::Element(block(
            TmplVirtualType::For {
                list: field("l"),
                item_name: "item".to_string(),
                index_name: "index".to_string(),
                key: None,
            },
            vec![TmplNode::Element(block(
                TmplVirtualType::IfGroup,
                vec![TmplNode::Element(block(
                    TmplVirtualType::If { cond: field("a") },
                    vec![node("view", vec![], vec![static_node("t")])],
                ))],
            ))],
        ))]
    );
}

#[test]
fn elif_after_a_looped_if_opens_a_new_group() {
    let got = convert(vec![
        node("view", vec![("wx:if", field("a")), ("wx:for", field("l"))], vec![]),
        node("view", vec![("wx:elif", field("b"))], vec![]),
    ]);
    assert_eq!(got.children.len(), 2);
    match &got.children[1] {
        TmplNode::Element(g) => assert_eq!(g.virtual_type, TmplVirtualType::IfGroup),
        _ => panic!("a group expected"),
    }
}

#[test]
fn attached_branch_ignores_its_loop_and_slot_values() {
    let got = convert(vec![
        node("view", vec![("wx:if", field("a"))], vec![]),
        node("view", vec![("wx:else", flag()), ("wx:for", field("l")), ("slot:a", text(""))], vec![]),
    ]);
    assert_eq!(
        got.children,
        vec![TmplNode::Element(block(
            TmplVirtualType::IfGroup,
            vec![
                TmplNode::Element(block(
                    TmplVirtualType::If { cond: field("a") },
                    vec![node("view", vec![], vec![])],
                )),
                TmplNode::Element(block(TmplVirtualType::Else, vec![node("view", vec![], vec![])])),
            ],
        ))]
    );
}

#[test]
fn generics_are_gathered_on_the_element() {
    let got = convert(vec![node(
        "comp",
        vec![("generic:a", text("x")), ("generic:B", text("y")), ("generic:a", text("z"))],
        vec![],
    )]);
    match &got.children[0] {
        TmplNode::Element(e) => {
            let g = e.generics.as_ref().unwrap();
            assert_eq!(g.len(), 2);
            assert_eq!(g.get("a"), Some(&"z".to_string()));
            assert_eq!(g.get("b"), Some(&"y".to_string()));
            assert!(e.attrs.is_empty());
        }
        _ => panic!("an element expected"),
    }
}

#[test]
fn import_is_recorded_and_dropped() {
    let got = convert(vec![
        node("import", vec![("src", text("a/b.wxml")), ("src", text("c")), ("id", text("i"))], vec![]),
        node("import", vec![("src", text("d"))], vec![]),
        node("import", vec![("id", text("no-src"))], vec![]),
    ]);
    assert!(got.children.is_empty());
    assert_eq!(got.imports, vec!["a/b".to_string(), "d".to_string()]);
    assert!(got.includes.is_empty());
}

#[test]
fn include_leaves_a_placeholder() {
    let got = convert(vec![
        node("include", vec![("src", text("h.wxml")), ("wx:if", field("a"))], vec![static_node("gone")]),
        node("include", vec![], vec![]),
    ]);
    assert_eq!(
        got.children,
        vec![TmplNode::Element(with_role(
            elem("include", vec![], vec![]),
            TmplVirtualType::Include { path: "h".to_string() },
        ))]
    );
    assert_eq!(got.includes, vec!["h".to_string()]);
    assert!(got.imports.is_empty());
}

#[test]
fn named_template_is_stored_and_dropped() {
    let got = convert(vec![
        static_node("a"),
        node(
            "template",
            vec![("name", text("t")), ("is", text("ignored"))],
            vec![node("block", vec![], vec![static_node("x")]), node("import", vec![("src", text("i"))], vec![])],
        ),
    ]);
    assert_eq!(got.children, vec![static_node("a")]);
    assert_eq!(got.sub_templates.len(), 1);
    assert_eq!(
        got.sub_templates.get("t"),
        Some(&elem("template", vec![], vec![static_node("x")]))
    );
    assert_eq!(got.imports, vec!["i".to_string()]);
}

#[test]
fn later_template_of_one_name_replaces_the_earlier() {
    let got = convert(vec![
        node("template", vec![("name", text("t"))], vec![static_node("1")]),
        node("template", vec![("name", text("u"))], vec![static_node("2")]),
        node("template", vec![("name", text("t"))], vec![static_node("3")]),
    ]);
    assert_eq!(got.sub_templates.len(), 2);
    assert_eq!(got.sub_templates.get("t"), Some(&elem("template", vec![], vec![static_node("3")])));
    assert_eq!(got.sub_templates.get("u"), Some(&elem("template", vec![], vec![static_node("2")])));
}

#[test]
fn template_reference_passes_an_object() {
    let obj = |items: Vec<(Option<String>, TmplExpr)>| dynamic(TmplExpr::LitObj(items));
    let reference = |data: TmplAttrValue| {
        TmplNode::Element(with_role(
            elem("template", vec![], vec![]),
            TmplVirtualType::TemplateRef { target: text("t"), data },
        ))
    };
    let got = convert(vec![
        node("template", vec![("is", text("t"))], vec![]),
        node("template", vec![("is", text("t")), ("data", field("d"))], vec![]),
        node(
            "template",
            vec![
                ("is", text("t")),
                ("data", obj(vec![(Some("k".to_string()), TmplExpr::LitInt(1))])),
            ],
            vec![],
        ),
        node("template", vec![("is", text("t")), ("data", text("plain"))], vec![]),
        node("template", vec![("is", text("t")), ("data", dynamic(TmplExpr::LitInt(1)))], vec![]),
    ]);
    assert_eq!(
        got.children,
        vec![
            reference(obj(vec![])),
            reference(obj(vec![(Some("d".to_string()), TmplExpr::Ident("d".to_string()))])),
            reference(obj(vec![(Some("k".to_string()), TmplExpr::LitInt(1))])),
            reference(obj(vec![])),
            reference(obj(vec![])),
        ]
    );
}

#[test]
fn template_without_name_and_target_loses_its_attributes() {
    let got = convert(vec![node("template", vec![("data", field("d")), ("id", text("i"))], vec![static_node("t")])]);
    assert_eq!(got.children, vec![node("template", vec![], vec![static_node("t")])]);
}

#[test]
fn template_reference_can_be_conditional() {
    let got = convert(vec![node("template", vec![("is", field("n")), ("wx:if", field("a"))], vec![])]);
    assert_eq!(
        got.children,
        vec![TmplNode::Element(block(
            TmplVirtualType::IfGroup,
            vec![TmplNode::Element(block(
                TmplVirtualType::If { cond: field("a") },
                vec![TmplNode::Element(with_role(
                    elem("template", vec![], vec![]),
                    TmplVirtualType::TemplateRef {
                        target: field("n"),
                        data: dynamic(TmplExpr::LitObj(vec![])),
                    },
                ))],
            ))],
        ))]
    );
}

#[test]
fn slot_collects_name_and_properties() {
    let got = convert(vec![
        node("slot", vec![], vec![]),
        node(
            "slot",
            vec![("name", text("a")), ("p", field("x")), ("id", text("dropped")), ("name", field("n")), ("q", text("y"))],
            vec![static_node("fallback")],
        ),
    ]);
    let prop = |name: &str, value: TmplAttrValue| TmplAttr {
        kind: TmplAttrKind::PropertyOrExternalClass { name: name.to_string() },
        value,
    };
    assert_eq!(
        got.children,
        vec![
            TmplNode::Element(with_role(
                elem("slot", vec![], vec![]),
                TmplVirtualType::Slot { name: text(""), props: None },
            )),
            TmplNode::Element(with_role(
                elem("slot", vec![], vec![static_node("fallback")]),
                TmplVirtualType::Slot {
                    name: field("n"),
                    props: Some(vec![prop("p", field("x")), prop("q", text("y"))]),
                },
            )),
        ]
    );
}

#[test]
fn scripts_are_recorded_and_dropped() {
    let got = convert(vec![
        node("wxs", vec![("module", text("m"))], vec![static_node("exports.a = 1")]),
        node("wxs", vec![("module", text("n")), ("src", text("./n.wxs"))], vec![static_node("unused")]),
        node("wxs", vec![("module", field("dyn")), ("src", field("dyn"))], vec![]),
        node("wxs", vec![("module", text("o")), ("src", text(".wxs"))], vec![node("view", vec![], vec![])]),
    ]);
    assert!(got.children.is_empty());
    assert_eq!(
        got.scripts,
        vec![
            TmplScript::Inline { module_name: "m".to_string(), content: "exports.a = 1".to_string() },
            TmplScript::GlobalRef { module_name: "n".to_string(), rel_path: "./n".to_string() },
            TmplScript::Inline { module_name: "".to_string(), content: "".to_string() },
            TmplScript::Inline { module_name: "o".to_string(), content: "".to_string() },
        ]
    );
}

#[test]
fn conversion_goes_down_to_every_level() {
    let got = convert(vec![node(
        "view",
        vec![],
        vec![node(
            "view",
            vec![("wx:for", field("l"))],
            vec![
                node("import", vec![("src", text("deep"))], vec![]),
                node("block", vec![], vec![static_node("t")]),
            ],
        )],
    )]);
    assert_eq!(
        got.children,
        vec![node(
            "view",
            vec![],
            vec![TmplNode::Element(block(
                TmplVirtualType::For {
                    list: field("l"),
                    item_name: "item".to_string(),
                    index_name: "index".to_string(),
                    key: None,
                },
                vec![node("view", vec![], vec![static_node("t")])],
            ))],
        )]
    );
    assert_eq!(got.imports, vec!["deep".to_string()]);
}

#[test]
fn whole_tree_conversion_fills_the_tree() {
    let mut tree = TmplTree::new();
    tree.path = "p".to_string();
    tree.root.children = vec![
        node("import", vec![("src", text("i.wxml"))], vec![]),
        node("include", vec![("src", text("j"))], vec![]),
        node("template", vec![("name", text("t"))], vec![]),
        node("wxs", vec![("module", text("m"))], vec![]),
        static_node("x"),
    ];
    convert_directives(&mut tree);
    assert_eq!(tree.path, "p");
    assert_eq!(tree.imports, vec!["i".to_string()]);
    assert_eq!(tree.includes, vec!["j".to_string()]);
    assert!(tree.sub_templates.contains_key("t"));
    assert_eq!(tree.scripts.len(), 1);
    assert_eq!(tree.root.children.len(), 2);
    assert_eq!(tree.root.children[1], static_node("x"));
    assert!(tree.binding_map_collector.list_fields().is_empty());
}
