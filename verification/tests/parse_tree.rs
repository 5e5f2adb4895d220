use wxml_compiler::binding_map::BindingMapKeys;
use wxml_compiler::element::{
    TmplAttrValue, TmplElement, TmplNode, TmplScript, TmplTextNode, TmplVirtualType,
};
use wxml_compiler::expr::TmplExpr;
use wxml_compiler::parser::{parse_segment, TmplParseError};
use wxml_compiler::syntax::{ParsedPair, Rule};
use wxml_compiler::{parse_tmpl, TmplTree};

fn p(rule: Rule, text: &str, inner: Vec<ParsedPair>) -> ParsedPair {
    ParsedPair { rule, text: text.to_string(), start_pos: (0, 0), end_pos: (0, 0), inner }
}

fn leaf(rule: Rule, text: &str) -> ParsedPair {
    ParsedPair::leaf(rule, text)
}

/// The syntax tree of `{{name}}`.
fn braces(name: &str) -> ParsedPair {
    let ladder = [
        Rule::Unary,
        Rule::MultiDiv,
        Rule::PlusMinus,
        Rule::Comparison,
        Rule::Equal,
        Rule::BitAndExpr,
        Rule::BitXorExpr,
        Rule::BitOrExpr,
        Rule::AndExpr,
        Rule::OrExpr,
        Rule::Cond,
        Rule::ExprOrObj,
    ];
    let mut pair = p(Rule::Member, "", vec![p(Rule::Value, "", vec![leaf(Rule::Ident, name)])]);
    for rule in ladder {
        pair = p(rule, "", vec![pair]);
    }
    pair
}

fn text_of(rule: Rule, pieces: Vec<ParsedPair>) -> ParsedPair {
    p(rule, "", pieces.into_iter().map(|x| p(Rule::Other, "", vec![x])).collect())
}

fn plain_text(s: &str) -> ParsedPair {
    text_of(Rule::TextNode, vec![leaf(Rule::PureText, s)])
}

fn dyn_text(name: &str) -> ParsedPair {
    text_of(Rule::TextNode, vec![braces(name)])
}

fn attr(name: &str, value: Option<ParsedPair>) -> ParsedPair {
    let mut inner = vec![leaf(Rule::Other, name)];
    if let Some(v) = value {
        inner.push(p(Rule::Other, "", vec![text_of(Rule::TextEntity, vec![v])]));
    }
    p(Rule::Attr, "", inner)
}

fn open(name: &str, attrs: Vec<ParsedPair>) -> ParsedPair {
    let mut inner = vec![leaf(Rule::Other, name)];
    inner.extend(attrs);
    p(Rule::Tag, "", vec![p(Rule::TagBegin, "", inner)])
}

fn self_closing(name: &str, attrs: Vec<ParsedPair>) -> ParsedPair {
    let mut inner = vec![leaf(Rule::Other, name)];
    inner.extend(attrs);
    p(Rule::Tag, "", vec![p(Rule::TagBegin, "", inner), leaf(Rule::SelfClose, "/>")])
}

fn close(name: &str) -> ParsedPair {
    p(Rule::Tag, "", vec![p(Rule::TagEnd, "", vec![leaf(Rule::Other, name)])])
}

fn comment() -> ParsedPair {
    p(Rule::Tag, "<!-- c -->", vec![])
}

fn whole(pieces: Vec<ParsedPair>) -> ParsedPair {
    p(Rule::Main, "", vec![p(Rule::Segment, "", pieces), leaf(Rule::Other, "")])
}

fn ident(name: &str) -> TmplExpr {
    TmplExpr::Ident(name.to_string())
}

fn static_node(s: &str) -> TmplNode {
    TmplNode::TextNode(TmplTextNode::Static(s.to_string()))
}

fn dyn_node(expr: TmplExpr, keys: Option<BindingMapKeys>) -> TmplNode {
    TmplNode::TextNode(TmplTextNode::Dynamic { expr: Box::new(expr), binding_map_keys: keys })
}

fn keys(list: &[(&str, usize)]) -> Option<BindingMapKeys> {
    let mut k = BindingMapKeys::new();
    for (name, index) in list {
        k.add(name, *index);
    }
    Some(k)
}

fn value(expr: TmplExpr, keys: Option<BindingMapKeys>) -> TmplAttrValue {
    TmplAttrValue::Dynamic { expr: Box::new(expr), binding_map_keys: keys }
}

fn plain(tag: &str, children: Vec<TmplNode>) -> TmplElement {
    let mut e = TmplElement::new(tag, TmplVirtualType::Plain);
    e.children = children;
    e
}

fn block(vt: TmplVirtualType, children: Vec<TmplNode>) -> TmplElement {
    let mut e = TmplElement::new("block", vt);
    e.children = children;
    e
}

fn read(pieces: Vec<ParsedPair>) -> (TmplElement, usize) {
    let mut root = TmplElement::new("", TmplVirtualType::Plain);
    let mut pos = 0;
    parse_segment(&mut root, &pieces, &mut pos);
    (root, pos)
}

#[test]
fn elements_nest_by_their_tags() {
    let (root, pos) = read(vec![
        plain_text("t"),
        open("a", vec![attr("id", Some(leaf(Rule::PureText, "x"))), attr("hidden", None)]),
        open("b", vec![]),
        plain_text("in b"),
        close("b"),
        self_closing("c", vec![]),
        comment(),
        plain_text("  "),
        close("a"),
        open("block", vec![]),
        close("block"),
    ]);
    assert_eq!(pos, 11);
    let mut a = plain("a", vec![
        TmplNode::Element(plain("b", vec![static_node("in b")])),
        TmplNode::Element(plain("c", vec![])),
    ]);
    a.add_attr("id", TmplAttrValue::Static("x".to_string()));
    a.add_attr("hidden", value(TmplExpr::LitBool(true), None));
    assert_eq!(
        root.children,
        vec![
            static_node("t"),
            TmplNode::Element(a),
            TmplNode::Element(block(TmplVirtualType::Pure, vec![])),
        ]
    );
}

#[test]
fn reading_stops_at_a_closing_tag_that_ends_nothing() {
    let (root, pos) = read(vec![open("a", vec![]), close("b"), plain_text("after")]);
    assert_eq!(pos, 1);
    assert_eq!(root.children, vec![TmplNode::Element(plain("a", vec![]))]);
    let (root, pos) = read(vec![plain_text("x"), close("a"), plain_text("after")]);
    assert_eq!(pos, 1);
    assert_eq!(root.children, vec![static_node("x")]);
}

#[test]
fn unclosed_element_takes_the_rest() {
    let (root, pos) = read(vec![open("a", vec![]), plain_text("x"), self_closing("b", vec![])]);
    assert_eq!(pos, 3);
    assert_eq!(
        root.children,
        vec![TmplNode::Element(plain("a", vec![static_node("x"), TmplNode::Element(plain("b", vec![]))]))]
    );
}

#[test]
fn reading_from_the_middle() {
    let pieces = vec![plain_text("a"), plain_text("b"), close(""), plain_text("c")];
    let mut root = TmplElement::new("", TmplVirtualType::Plain);
    let mut pos = 1;
    parse_segment(&mut root, &pieces, &mut pos);
    assert_eq!(pos, 3);
    assert_eq!(root.children, vec![static_node("b")]);
    let mut pos = 4;
    parse_segment(&mut root, &pieces, &mut pos);
    assert_eq!(pos, 4);
}

#[test]
fn script_tag_keeps_its_text() {
    let script = p(
        Rule::Tag,
        "",
        vec![
            leaf(Rule::WxsScriptTagBegin, "<wxs"),
            p(
                Rule::WxsScriptTag,
                "",
                vec![
                    attr("module", Some(leaf(Rule::PureText, "m"))),
                    p(
                        Rule::WxsScriptBody,
                        "",
                        vec![leaf(Rule::PureText, "a "), leaf(Rule::Entity, "&lt;"), leaf(Rule::PureText, " b")],
                    ),
                    attr("late", None),
                ],
            ),
        ],
    );
    let (root, pos) = read(vec![script]);
    assert_eq!(pos, 1);
    let mut wxs = block(TmplVirtualType::Pure, vec![static_node("a < b")]);
    wxs.tag_name = "wxs".to_string();
    wxs.add_attr("module", TmplAttrValue::Static("m".to_string()));
    assert_eq!(root.children, vec![TmplNode::Element(wxs)]);
}

#[test]
fn whole_text_with_a_conditional_chain() {
    let tree = parse_tmpl(&whole(vec![
        open("view", vec![attr("wx:if", Some(braces("a")))]),
        plain_text("1"),
        close("view"),
        open("view", vec![attr("wx:elif", Some(braces("b")))]),
        plain_text("2"),
        close("view"),
        open("view", vec![attr("wx:else", None)]),
        plain_text("3"),
        close("view"),
    ]))
    .unwrap();
    assert_eq!(
        tree.root.children,
        vec![TmplNode::Element(block(
            TmplVirtualType::IfGroup,
            vec![
                TmplNode::Element(block(
                    TmplVirtualType::If { cond: value(ident("a"), None) },
                    vec![TmplNode::Element(plain("view", vec![static_node("1")]))],
                )),
                TmplNode::Element(block(
                    TmplVirtualType::Elif { cond: value(ident("b"), None) },
                    vec![TmplNode::Element(plain("view", vec![static_node("2")]))],
                )),
                TmplNode::Element(block(
                    TmplVirtualType::Else,
                    vec![TmplNode::Element(plain("view", vec![static_node("3")]))],
                )),
            ],
        ))]
    );
    assert!(tree.binding_map_collector.is_disabled("a"));
    assert!(tree.binding_map_collector.is_disabled("b"));
    assert!(tree.binding_map_collector.list_fields().is_empty());
}

#[test]
fn whole_text_with_a_loop() {
    let tree = parse_tmpl(&whole(vec![
        open(
            "block",
            vec![attr("wx:for", Some(braces("list"))), attr("wx:for-item", Some(leaf(Rule::PureText, "x")))],
        ),
        dyn_text("x"),
        close("block"),
        dyn_text("x"),
    ]))
    .unwrap();
    assert_eq!(
        tree.root.children,
        vec![
            TmplNode::Element(block(
                TmplVirtualType::For {
                    list: value(ident("list"), None),
                    item_name: "$0".to_string(),
                    index_name: "$1".to_string(),
                    key: None,
                },
                vec![dyn_node(TmplExpr::ScopeIndex(0), None)],
            )),
            dyn_node(ident("x"), keys(&[("x", 0)])),
        ]
    );
    assert!(tree.binding_map_collector.is_disabled("list"));
    assert_eq!(tree.binding_map_collector.list_fields(), vec![("x".to_string(), 0)]);
}

#[test]
fn whole_text_gathers_scripts_and_templates() {
    let tree: TmplTree = parse_tmpl(&whole(vec![
        self_closing("import", vec![attr("src", Some(leaf(Rule::PureText, "a.wxml")))]),
        open("template", vec![attr("name", Some(leaf(Rule::PureText, "t")))]),
        dyn_text("f"),
        close("template"),
        p(
            Rule::Tag,
            "",
            vec![
                leaf(Rule::WxsScriptTagBegin, "<wxs"),
                p(
                    Rule::WxsScriptTag,
                    "",
                    vec![
                        attr("module", Some(leaf(Rule::PureText, "m"))),
                        p(Rule::WxsScriptBody, "", vec![leaf(Rule::PureText, "code")]),
                    ],
                ),
            ],
        ),
        dyn_text("m"),
    ]))
    .unwrap();
    assert_eq!(tree.imports, vec!["a".to_string()]);
    assert_eq!(
        tree.scripts,
        vec![TmplScript::Inline { module_name: "m".to_string(), content: "code".to_string() }]
    );
    assert_eq!(tree.root.children, vec![dyn_node(ident("m"), keys(&[]))]);
    let t = tree.sub_templates.get("t").unwrap();
    assert_eq!(t.children, vec![dyn_node(ident("f"), None)]);
    assert!(tree.binding_map_collector.list_fields().is_empty());
}

#[test]
fn unexpected_segment_is_an_error() {
    let mut stray = close("view");
    stray.start_pos = (2, 1);
    stray.end_pos = (2, 8);
    let got = parse_tmpl(&whole(vec![plain_text("x"), stray, plain_text("y")]));
    match got {
        Err(e) => {
            assert_eq!(
                e,
                TmplParseError {
                    message: "Unexpected segment".to_string(),
                    start_pos: (2, 1),
                    end_pos: (2, 8)
                }
            );
        }
        Ok(_) => panic!("an error expected"),
    }
}

#[test]
fn empty_text_is_an_empty_template() {
    let tree = parse_tmpl(&whole(vec![])).unwrap();
    assert!(tree.root.children.is_empty());
    let tree = parse_tmpl(&p(Rule::Main, "", vec![])).unwrap();
    assert!(tree.root.children.is_empty());
}
