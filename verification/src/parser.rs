//! From the syntax tree of a template text to the template: the tree of
//! elements as it is written, then its conversion and resolution; and the
//! error of a reading that fails.

use vstd::prelude::*;
use crate::convert_tree::{convert_directives, prepare_expr_in_tree};
use crate::directives::IfTypeView;
use crate::element::{
    AttrValueView, ElementView, NodeView, TextView, TmplAttrValue, TmplElement, TmplTextNode,
    TmplVirtualType, VirtualTypeView,
};
use crate::entities::{decode, decoded};
use crate::expr::{ExprView, TmplExpr};
use crate::parse_text_entity::{parse_text_entity, text_entity, TextEntityView};
use crate::syntax::{syntax_views, PairView, ParsedPair, Rule};
use crate::tree::{TmplTree, TreeView};
use crate::utils::{decimal, push_decimal};

verus! {

/// One piece of a text: plain characters, or an expression between braces.
#[derive(Debug, PartialEq)]
pub enum TextEntity<U> {
    Static(U),
    Dynamic(Box<TmplExpr>),
}

/// The conditional directive that the attributes of an element hold.
#[derive(Debug, PartialEq)]
pub enum IfType {
    Absent,
    If(TmplAttrValue),
    Elif(TmplAttrValue),
    Else,
}

impl View for IfType {
    type V = IfTypeView;

    open spec fn view(&self) -> IfTypeView {
        match self {
            IfType::Absent => IfTypeView::Absent,
            IfType::If(v) => IfTypeView::If(v@),
            IfType::Elif(v) => IfTypeView::Elif(v@),
            IfType::Else => IfTypeView::Else,
        }
    }
}

/// Why a template text could not be read, and where.
#[derive(Debug, PartialEq, Eq)]
pub struct TmplParseError {
    pub message: String,
    /// Line and column at which the rejected text begins.
    pub start_pos: (usize, usize),
    /// Line and column at which it ends.
    pub end_pos: (usize, usize),
}

impl TmplParseError {
    /// What the error says, with its place.
    pub open spec fn text(self) -> Seq<char> {
        "Template parsing error (from line "@ + decimal(self.start_pos.0 as nat) + " column "@
            + decimal(self.start_pos.1 as nat) + " to line "@ + decimal(self.end_pos.0 as nat)
            + " column "@ + decimal(self.end_pos.1 as nat) + ") : "@ + self.message@
    }

    /// What the error says, with its place.
    pub fn to_string(&self) -> (r: String)
        ensures
            r@ == self.text(),
    {
        let mut s = String::new();
        s.append("Template parsing error (from line ");
        push_decimal(&mut s, self.start_pos.0);
        s.append(" column ");
        push_decimal(&mut s, self.start_pos.1);
        s.append(" to line ");
        push_decimal(&mut s, self.end_pos.0);
        s.append(" column ");
        push_decimal(&mut s, self.end_pos.1);
        s.append(") : ");
        s.append(self.message.as_str());
        proof {
            assert(Seq::<char>::empty() + "Template parsing error (from line "@
                =~= "Template parsing error (from line "@);
        }
        s
    }
}

/// Whether a character is white space as Unicode defines it.
pub uninterp spec fn is_white_space(c: char) -> bool;

/// `char::is_whitespace`, from the standard library: whether the character
/// has the Unicode property of white space.
pub assume_specification[ char::is_whitespace ](c: char) -> (r: bool)
    ensures
        r == is_white_space(c),
;

/// The text holds nothing but white space.
pub open spec fn is_blank(s: Seq<char>) -> bool {
    forall|i: int| 0 <= i < s.len() ==> is_white_space(#[trigger] s[i])
}

/// Whether the text holds nothing but white space.
pub fn is_blank_text(s: &str) -> (r: bool)
    ensures
        r == is_blank(s@),
{
    for c in it: s.chars()
        invariant
            it.seq() == s@,
            forall|j: int| 0 <= j < it.index() ==> is_white_space(#[trigger] s@[j]),
    {
        if !c.is_whitespace() {
            return false;
        }
    }
    true
}

/// The value that an attribute has: that of its text, or, for an
/// attribute that is written without a value, the literal `true`.
pub open spec fn attr_value_of(p: PairView) -> AttrValueView {
    if p.inner.len() > 1 && p.inner[1].inner.len() > 0 {
        match text_entity(p.inner[1].inner[0]) {
            TextEntityView::Static(s) => AttrValueView::Static(s),
            TextEntityView::Dynamic(e) => AttrValueView::Dynamic { expr: e, binding_map_keys: None },
        }
    } else {
        AttrValueView::Dynamic { expr: ExprView::LitBool(true), binding_map_keys: None }
    }
}

/// The name of an attribute, as it is written.
pub open spec fn attr_name_of(p: PairView) -> Seq<char> {
    if p.inner.len() > 0 {
        p.inner[0].text
    } else {
        Seq::empty()
    }
}

/// The name and the value of an attribute.
pub fn read_attr(pair: &ParsedPair) -> (r: (String, TmplAttrValue))
    ensures
        r.0@ == attr_name_of(pair@),
        r.1@ == attr_value_of(pair@),
{
    let name = if pair.inner.len() > 0 {
        proof {
            assert(pair@.inner[0] == pair.inner@[0]@);
        }
        pair.inner[0].text.clone()
    } else {
        String::new()
    };
    let value = if pair.inner.len() > 1 && pair.inner[1].inner.len() > 0 {
        proof {
            assert(pair@.inner[1] == pair.inner@[1]@);
            assert(pair.inner@[1]@.inner[0] == pair.inner@[1].inner@[0]@);
        }
        match parse_text_entity(&pair.inner[1].inner[0]) {
            TextEntity::Static(s) => TmplAttrValue::Static(s),
            TextEntity::Dynamic(expr) => TmplAttrValue::Dynamic { expr, binding_map_keys: None },
        }
    } else {
        TmplAttrValue::Dynamic { expr: Box::new(TmplExpr::LitBool(true)), binding_map_keys: None }
    };
    (name, value)
}

/// The element with the text of `p` as one more child; a text of white
/// space alone adds nothing.
pub open spec fn with_text_node(e: ElementView, p: PairView) -> ElementView {
    match text_entity(p) {
        TextEntityView::Static(s) => if is_blank(s) {
            e
        } else {
            e.with_child(NodeView::TextNode(TextView::Static(s)))
        },
        TextEntityView::Dynamic(expr) => e.with_child(
            NodeView::TextNode(TextView::Dynamic { expr, binding_map_keys: None }),
        ),
    }
}

/// Appends a text to the children of `target`, unless it holds nothing but
/// white space.
pub fn parse_text_node(target: &mut TmplElement, pair: &ParsedPair)
    ensures
        final(target)@ == with_text_node(old(target)@, pair@),
{
    match parse_text_entity(pair) {
        TextEntity::Static(s) => {
            if !is_blank_text(s.as_str()) {
                target.append_text_node(TmplTextNode::new_static(s));
            }
        },
        TextEntity::Dynamic(expr) => {
            target.append_text_node(TmplTextNode::new_dynamic(expr));
        },
    }
}

/// The characters of the pieces of a script, with every character
/// reference decoded.
pub open spec fn script_text(pieces: Seq<PairView>) -> Seq<char>
    decreases pieces.len(),
{
    if pieces.len() == 0 {
        Seq::empty()
    } else {
        script_text(pieces.drop_last()) + match pieces.last().rule {
            Rule::Entity => decoded(pieces.last().text),
            Rule::PureText => pieces.last().text,
            _ => Seq::empty(),
        }
    }
}

/// The text of an inline script.
pub fn parse_script_body(pair: &ParsedPair) -> (r: String)
    ensures
        r@ == script_text(pair@.inner),
{
    let mut out = String::new();
    let ghost pieces = pair@.inner;
    let mut i: usize = 0;
    proof {
        assert(pieces.take(0) =~= Seq::<PairView>::empty());
    }
    while i < pair.inner.len()
        invariant
            i <= pair.inner.len(),
            pieces == pair@.inner,
            pieces.len() == pair.inner.len(),
            out@ == script_text(pieces.take(i as int)),
        decreases pair.inner.len() - i,
    {
        let piece = &pair.inner[i];
        proof {
            assert(pieces[i as int] == piece@);
            assert(pieces.take(i + 1).drop_last() =~= pieces.take(i as int));
            assert(pieces.take(i + 1).last() == piece@);
        }
        match piece.rule {
            Rule::Entity => {
                let text = decode(piece.text.as_str());
                out.append(text.as_str());
            },
            Rule::PureText => {
                out.append(piece.text.as_str());
            },
            _ => {
                proof {
                    assert(out@ + Seq::<char>::empty() =~= out@);
                }
            },
        }
        i = i + 1;
    }
    proof {
        assert(pieces.take(i as int) =~= pieces);
    }
    out
}

/// The element with the attributes that stand in `items` behind the first
/// item, up to position `n`.
pub open spec fn with_attrs(e: ElementView, items: Seq<PairView>, n: nat) -> ElementView
    decreases n,
{
    if n <= 1 || n > items.len() {
        e
    } else {
        with_attrs(e, items, (n - 1) as nat).with_attr(
            attr_name_of(items[n - 1]),
            attr_value_of(items[n - 1]),
        )
    }
}

/// The element that an opening tag begins: it has the name of the tag and
/// its attributes, and it is a transparent group if the tag is `block`.
pub open spec fn opened_element(begin: PairView) -> ElementView {
    let name = attr_name_of(begin);
    let role = if name == "block"@ {
        VirtualTypeView::Pure
    } else {
        VirtualTypeView::Plain
    };
    with_attrs(ElementView::empty(name, role), begin.inner, begin.inner.len())
}

/// The script element `e` with what the parts from position `i` on add: its
/// attributes up to its body, and the text of the body as its only child.
pub open spec fn script_from(e: ElementView, parts: Seq<PairView>, i: nat) -> ElementView
    decreases parts.len() - i,
{
    if i >= parts.len() {
        e
    } else {
        match parts[i as int].rule {
            Rule::Attr => script_from(
                e.with_attr(attr_name_of(parts[i as int]), attr_value_of(parts[i as int])),
                parts,
                i + 1,
            ),
            Rule::WxsScriptBody => e.with_child(
                NodeView::TextNode(TextView::Static(script_text(parts[i as int].inner))),
            ),
            _ => script_from(e, parts, i + 1),
        }
    }
}

/// The element of a script tag.
pub open spec fn script_element(tag: PairView) -> ElementView {
    let e = ElementView::empty("wxs"@, VirtualTypeView::Pure);
    if tag.inner.len() > 1 {
        script_from(e, tag.inner[1].inner, 0)
    } else {
        e
    }
}

/// The number of pieces from position `pos` on.
pub open spec fn pieces_left(pairs: Seq<PairView>, pos: nat) -> nat {
    if pos < pairs.len() {
        (pairs.len() - pos) as nat
    } else {
        0
    }
}

/// What the reading of one tag leaves.
pub struct TagOutcome {
    /// The element whose children are being read, with what the tag added.
    pub target: ElementView,
    /// The pieces that were taken after the tag itself.
    pub extra: nat,
    /// The tag is a closing tag: the children of the element end here.
    pub closed: bool,
    /// The closing tag names the element and is taken with it.
    pub matched: bool,
}

/// The reading of the tag at position `pos` into `target`. A closing tag
/// ends the children of `target`, and is taken if it names `target`. An
/// opening tag begins an element; unless it closes itself, the pieces after
/// it are the children of that element, up to the closing tag that ends
/// them. A script tag becomes an element with its text as its child.
pub open spec fn tag_step(pairs: Seq<PairView>, pos: nat, target: ElementView) -> TagOutcome
    decreases pieces_left(pairs, pos), 0nat,
{
    let idle = TagOutcome { target, extra: 0, closed: false, matched: false };
    if pos >= pairs.len() || pairs[pos as int].inner.len() == 0 {
        idle
    } else {
        let tag = pairs[pos as int];
        let first = tag.inner[0];
        match first.rule {
            Rule::WxsScriptTagBegin => TagOutcome {
                target: target.with_child(NodeView::Element(script_element(tag))),
                ..idle
            },
            Rule::TagBegin => if tag.inner.len() > 1 {
                TagOutcome {
                    target: target.with_child(NodeView::Element(opened_element(first))),
                    ..idle
                }
            } else {
                let (child, taken) = segment_from(pairs, pos + 1, opened_element(first));
                TagOutcome {
                    target: target.with_child(NodeView::Element(child)),
                    extra: taken,
                    ..idle
                }
            },
            Rule::TagEnd => TagOutcome {
                closed: true,
                matched: attr_name_of(first) == target.tag_name,
                ..idle
            },
            _ => idle,
        }
    }
}

/// The element `target` with the children that the pieces from position
/// `pos` on give it, and the number of pieces that were taken for them.
/// The reading ends with the pieces or at a closing tag.
pub open spec fn segment_from(pairs: Seq<PairView>, pos: nat, target: ElementView) -> (
    ElementView,
    nat,
)
    decreases pieces_left(pairs, pos), 1nat,
{
    if pos >= pairs.len() {
        (target, 0)
    } else {
        match pairs[pos as int].rule {
            Rule::Tag => {
                let o = tag_step(pairs, pos, target);
                if o.closed {
                    (
                        o.target,
                        if o.matched {
                            1
                        } else {
                            0
                        },
                    )
                } else {
                    let (done, taken) = segment_from(pairs, pos + 1 + o.extra, o.target);
                    (done, 1 + o.extra + taken)
                }
            },
            Rule::TextNode => {
                let (done, taken) = segment_from(
                    pairs,
                    pos + 1,
                    with_text_node(target, pairs[pos as int]),
                );
                (done, 1 + taken)
            },
            _ => {
                let (done, taken) = segment_from(pairs, pos + 1, target);
                (done, 1 + taken)
            },
        }
    }
}

/// The pieces of a whole text: those inside the first node of its tree.
pub open spec fn main_segment(main: PairView) -> Seq<PairView> {
    if main.inner.len() > 0 {
        main.inner[0].inner
    } else {
        Seq::empty()
    }
}

/// The root element that the pieces of a whole text give, and the number
/// of pieces that were taken for it.
pub open spec fn raw_root(main: PairView) -> (ElementView, nat) {
    segment_from(main_segment(main), 0, ElementView::empty(Seq::empty(), VirtualTypeView::Plain))
}

/// The template that comes of a root element as it was read: its directives
/// are converted, then its expressions are resolved.
pub open spec fn compiled(root: ElementView) -> TreeView {
    TreeView::with_root(root).convert_directives().prepare_expr()
}

/// The error of a piece that no element takes: a closing tag that ends
/// nothing.
pub open spec fn is_unexpected_segment(e: TmplParseError, piece: PairView) -> bool {
    e.message@ == "Unexpected segment"@ && e.start_pos == piece.start_pos && e.end_pos
        == piece.end_pos
}

/// The element that an opening tag begins.
fn open_element(begin: &ParsedPair) -> (r: TmplElement)
    ensures
        r@ == opened_element(begin@),
{
    let tag_name = if begin.inner.len() > 0 {
        proof {
            assert(begin@.inner[0] == begin.inner@[0]@);
        }
        begin.inner[0].text.clone()
    } else {
        String::new()
    };
    let virtual_type = if tag_name.as_str().eq("block") {
        TmplVirtualType::Pure
    } else {
        TmplVirtualType::Plain
    };
    let mut elem = TmplElement::new(tag_name.as_str(), virtual_type);
    let ghost items = begin@.inner;
    let ghost base = elem@;
    let mut i: usize = 1;
    while i < begin.inner.len()
        invariant
            1 <= i,
            items == begin@.inner,
            begin.inner.len() == items.len(),
            i <= begin.inner.len() || begin.inner.len() == 0,
            elem@ == with_attrs(base, items, i as nat),
        decreases begin.inner.len() - i,
    {
        proof {
            assert(items[i as int] == begin.inner@[i as int]@);
        }
        let (name, value) = read_attr(&begin.inner[i]);
        elem.add_attr(name.as_str(), value);
        i = i + 1;
    }
    elem
}

/// The element of a script tag.
fn script_tag_element(tag: &ParsedPair) -> (r: TmplElement)
    ensures
        r@ == script_element(tag@),
{
    let mut elem = TmplElement::new("wxs", TmplVirtualType::Pure);
    if tag.inner.len() < 2 {
        return elem;
    }
    let body = &tag.inner[1];
    proof {
        assert(tag@.inner[1] == body@);
    }
    let ghost parts = body@.inner;
    let ghost base = elem@;
    let mut i: usize = 0;
    while i < body.inner.len()
        invariant
            i <= body.inner.len(),
            parts == body@.inner,
            parts.len() == body.inner.len(),
            tag@.inner.len() > 1,
            tag@.inner[1].inner == parts,
            base == ElementView::empty("wxs"@, VirtualTypeView::Pure),
            script_from(base, parts, 0) == script_from(elem@, parts, i as nat),
        decreases body.inner.len() - i,
    {
        let part = &body.inner[i];
        proof {
            assert(parts[i as int] == part@);
        }
        match part.rule {
            Rule::Attr => {
                let (name, value) = read_attr(part);
                elem.add_attr(name.as_str(), value);
            },
            Rule::WxsScriptBody => {
                let text = parse_script_body(part);
                proof {
                    assert(script_from(elem@, parts, i as nat) == elem@.with_child(
                        NodeView::TextNode(TextView::Static(text@)),
                    ));
                }
                elem.append_text_node(TmplTextNode::Static(text));
                return elem;
            },
            _ => {},
        }
        i = i + 1;
    }
    elem
}

/// Reads the tag at position `*pos` into `target` and moves `*pos` behind
/// what was taken. Returns whether the tag ended the children of `target`.
fn parse_tag(target: &mut TmplElement, pairs: &Vec<ParsedPair>, pos: &mut usize) -> (closed: bool)
    requires
        *old(pos) < pairs.len(),
    ensures
        final(target)@ == tag_step(syntax_views(pairs@), *old(pos) as nat, old(target)@).target,
        closed == tag_step(syntax_views(pairs@), *old(pos) as nat, old(target)@).closed,
        *final(pos) <= pairs.len(),
        closed ==> *final(pos) == *old(pos) + (if tag_step(
            syntax_views(pairs@),
            *old(pos) as nat,
            old(target)@,
        ).matched {
            1int
        } else {
            0int
        }),
        !closed ==> *final(pos) == *old(pos) + 1 + tag_step(
            syntax_views(pairs@),
            *old(pos) as nat,
            old(target)@,
        ).extra,
    decreases pairs.len() - *old(pos), 0int,
{
    let tag = &pairs[*pos];
    proof {
        assert(syntax_views(pairs@)[*pos as int] == tag@);
    }
    if tag.inner.len() == 0 {
        *pos = *pos + 1;
        return false;
    }
    let first = &tag.inner[0];
    proof {
        assert(tag@.inner[0] == first@);
    }
    match first.rule {
        Rule::WxsScriptTagBegin => {
            let elem = script_tag_element(tag);
            *pos = *pos + 1;
            target.append_element(elem);
            false
        },
        Rule::TagBegin => {
            let mut elem = open_element(first);
            *pos = *pos + 1;
            if tag.inner.len() == 1 {
                parse_segment(&mut elem, pairs, pos);
            }
            target.append_element(elem);
            false
        },
        Rule::TagEnd => {
            let tag_name_matched = if first.inner.len() > 0 {
                proof {
                    assert(first@.inner[0] == first.inner@[0]@);
                }
                target.tag_name_is(first.inner[0].text.as_str())
            } else {
                target.tag_name_is("")
            };
            proof {
                reveal_strlit("");
                assert(""@ =~= Seq::<char>::empty());
            }
            if tag_name_matched {
                *pos = *pos + 1;
            }
            true
        },
        _ => {
            *pos = *pos + 1;
            false
        },
    }
}

/// Reads the children of `target` from the pieces at position `*pos` and
/// after it, up to the closing tag that ends them or to the end of the
/// pieces, and moves `*pos` behind what was taken.
pub fn parse_segment(target: &mut TmplElement, pairs: &Vec<ParsedPair>, pos: &mut usize)
    requires
        *old(pos) <= pairs.len(),
    ensures
        final(target)@ == segment_from(syntax_views(pairs@), *old(pos) as nat, old(target)@).0,
        *final(pos) == *old(pos) + segment_from(
            syntax_views(pairs@),
            *old(pos) as nat,
            old(target)@,
        ).1,
        *final(pos) <= pairs.len(),
    decreases pairs.len() - *old(pos), 1int,
{
    let ghost views = syntax_views(pairs@);
    let ghost goal = segment_from(views, *pos as nat, target@);
    let ghost start = *pos;
    while *pos < pairs.len()
        invariant
            start <= *pos <= pairs.len(),
            start == *old(pos),
            views == syntax_views(pairs@),
            goal == segment_from(views, *old(pos) as nat, old(target)@),
            goal.0 == segment_from(views, *pos as nat, target@).0,
            goal.1 == (*pos - start) + segment_from(views, *pos as nat, target@).1,
        decreases pairs.len() - *pos,
    {
        let ghost here = *pos as nat;
        let ghost before = target@;
        proof {
            assert(views[*pos as int] == pairs@[*pos as int]@);
        }
        match pairs[*pos].rule {
            Rule::Tag => {
                let closed = parse_tag(target, pairs, pos);
                proof {
                    let o = tag_step(views, here, before);
                    assert(segment_from(views, here, before) == if o.closed {
                        (
                            o.target,
                            if o.matched {
                                1nat
                            } else {
                                0nat
                            },
                        )
                    } else {
                        (
                            segment_from(views, here + 1 + o.extra, o.target).0,
                            1 + o.extra + segment_from(views, here + 1 + o.extra, o.target).1,
                        )
                    });
                }
                if closed {
                    return ;
                }
            },
            Rule::TextNode => {
                parse_text_node(target, &pairs[*pos]);
                *pos = *pos + 1;
            },
            _ => {
                *pos = *pos + 1;
            },
        }
    }
}

/// Makes a template of the syntax tree of a whole template text: reads the
/// tree of elements from it, converts the directives and resolves the
/// expressions. Where a piece is left that no element takes, there is no
/// template but the error of an unexpected segment, with the place of that
/// piece.
pub fn parse_tmpl(main_pair: &ParsedPair) -> (r: Result<TmplTree, TmplParseError>)
    ensures
        match r {
            Ok(tree) => raw_root(main_pair@).1 >= main_segment(main_pair@).len() && tree@
                == compiled(raw_root(main_pair@).0),
            Err(e) => raw_root(main_pair@).1 < main_segment(main_pair@).len()
                && is_unexpected_segment(
                e,
                main_segment(main_pair@)[raw_root(main_pair@).1 as int],
            ),
        },
{
    let none: Vec<ParsedPair> = Vec::new();
    let segment = if main_pair.inner.len() > 0 {
        proof {
            assert(main_pair@.inner[0] == main_pair.inner@[0]@);
        }
        &main_pair.inner[0].inner
    } else {
        proof {
            assert(syntax_views(none@) =~= Seq::empty());
        }
        &none
    };
    let mut tree = TmplTree::new();
    let mut pos: usize = 0;
    proof {
        reveal_strlit("");
        assert(""@ =~= Seq::<char>::empty());
    }
    parse_segment(&mut tree.root, segment, &mut pos);
    convert_directives(&mut tree);
    prepare_expr_in_tree(&mut tree);
    if pos < segment.len() {
        proof {
            assert(syntax_views(segment@)[pos as int] == segment@[pos as int]@);
        }
        return Err(
            TmplParseError {
                message: "Unexpected segment".to_owned(),
                start_pos: segment[pos].start_pos,
                end_pos: segment[pos].end_pos,
            },
        );
    }
    Ok(tree)
}

} // verus!
