//! What the conversion of directives computes, stated over the mathematical
//! content of the tree.

use vstd::prelude::*;
use crate::element::{
    AttrKindView, AttrValueView, AttrView, ElementView, NodeView, ScriptView, VirtualTypeView,
};
use crate::expr::ExprView;
use crate::utils::without_suffix;

verus! {

/// The conditional directive of an element, if it has one.
pub enum IfTypeView {
    Absent,
    If(AttrValueView),
    Elif(AttrValueView),
    Else,
}

/// What the attributes of an element say beyond plain attributes.
pub struct DirectivesView {
    pub attr_if: IfTypeView,
    pub attr_for: Option<AttrValueView>,
    pub attr_for_item: Option<Seq<char>>,
    pub attr_for_index: Option<Seq<char>>,
    pub attr_key: Option<Seq<char>>,
    pub attr_slot: Option<AttrValueView>,
    pub slot_values: Seq<(Seq<char>, Seq<char>)>,
    pub generics: Option<Map<Seq<char>, Seq<char>>>,
    /// The attributes that stay on the element, in their order.
    pub rest: Seq<AttrView>,
}

/// What a conversion gathers beside the tree.
pub struct Collected {
    pub imports: Seq<Seq<char>>,
    pub includes: Seq<Seq<char>>,
    pub sub_templates: Map<Seq<char>, ElementView>,
    pub scripts: Seq<ScriptView>,
}

impl DirectivesView {
    /// No directive at all.
    pub open spec fn empty() -> DirectivesView {
        DirectivesView {
            attr_if: IfTypeView::Absent,
            attr_for: None,
            attr_for_item: None,
            attr_for_index: None,
            attr_key: None,
            attr_slot: None,
            slot_values: Seq::empty(),
            generics: None,
            rest: Seq::empty(),
        }
    }

    /// The directives after the `wx:` attribute called `name`. A later
    /// directive of a kind replaces an earlier one; an unknown name changes
    /// nothing.
    pub open spec fn with_wx(self, name: Seq<char>, value: AttrValueView) -> DirectivesView {
        if name == "if"@ {
            DirectivesView { attr_if: IfTypeView::If(value), ..self }
        } else if name == "elif"@ {
            DirectivesView { attr_if: IfTypeView::Elif(value), ..self }
        } else if name == "else"@ {
            DirectivesView { attr_if: IfTypeView::Else, ..self }
        } else if name == "for"@ || name == "for-items"@ {
            DirectivesView { attr_for: Some(value), ..self }
        } else if name == "for-item"@ {
            DirectivesView { attr_for_item: Some(value.static_value()), ..self }
        } else if name == "for-index"@ {
            DirectivesView { attr_for_index: Some(value.static_value()), ..self }
        } else if name == "key"@ {
            DirectivesView { attr_key: Some(value.static_value()), ..self }
        } else {
            self
        }
    }

    /// The directives after a `slot:` attribute. Without a value, or with a
    /// bare `true`, the slot value keeps its own name; a static text renames
    /// it; any other dynamic value declares nothing.
    pub open spec fn with_slot_property(self, name: Seq<char>, value: AttrValueView) -> DirectivesView {
        match value {
            AttrValueView::Static(s) => if s.len() == 0 {
                DirectivesView { slot_values: self.slot_values.push((name, name)), ..self }
            } else {
                DirectivesView { slot_values: self.slot_values.push((name, s)), ..self }
            },
            AttrValueView::Dynamic { expr, .. } => if expr == ExprView::LitBool(true) {
                DirectivesView { slot_values: self.slot_values.push((name, name)), ..self }
            } else {
                self
            },
        }
    }

    /// The directives after a `generic:` attribute.
    pub open spec fn with_generic(self, name: Seq<char>, value: AttrValueView) -> DirectivesView {
        DirectivesView {
            generics: Some(
                match self.generics {
                    Some(m) => m.insert(name, value.static_value()),
                    None => Map::empty().insert(name, value.static_value()),
                },
            ),
            ..self
        }
    }

    /// The directives after one more attribute.
    pub open spec fn with_attr(self, attr: AttrView) -> DirectivesView {
        match attr.kind {
            AttrKindView::WxDirective { name } => self.with_wx(name, attr.value),
            AttrKindView::Generic { name } => self.with_generic(name, attr.value),
            AttrKindView::SlotProperty { name } => self.with_slot_property(name, attr.value),
            AttrKindView::Slot => DirectivesView { attr_slot: Some(attr.value), ..self },
            _ => DirectivesView { rest: self.rest.push(attr), ..self },
        }
    }
}

/// The attributes of an element, sorted into directives and the rest.
pub open spec fn triage(attrs: Seq<AttrView>) -> DirectivesView
    decreases attrs.len(),
{
    if attrs.len() == 0 {
        DirectivesView::empty()
    } else {
        triage(attrs.drop_last()).with_attr(attrs.last())
    }
}

/// The value of the first attribute that is the plain property `n`.
pub open spec fn first_property(attrs: Seq<AttrView>, n: Seq<char>) -> Option<AttrValueView>
    decreases attrs.len(),
{
    if attrs.len() == 0 {
        None
    } else {
        match first_property(attrs.drop_last(), n) {
            Some(v) => Some(v),
            None => if attrs.last().is_property(n) {
                Some(attrs.last().value)
            } else {
                None
            },
        }
    }
}

/// The value of the last attribute that is the plain property `n`.
pub open spec fn last_property(attrs: Seq<AttrView>, n: Seq<char>) -> Option<AttrValueView>
    decreases attrs.len(),
{
    if attrs.len() == 0 {
        None
    } else if attrs.last().is_property(n) {
        Some(attrs.last().value)
    } else {
        last_property(attrs.drop_last(), n)
    }
}

/// The text of the last attribute that is the plain property `n` with a
/// static value.
pub open spec fn last_static_property(attrs: Seq<AttrView>, n: Seq<char>) -> Option<Seq<char>>
    decreases attrs.len(),
{
    if attrs.len() == 0 {
        None
    } else if attrs.last().is_property(n) && attrs.last().value is Static {
        Some(attrs.last().value->Static_0)
    } else {
        last_static_property(attrs.drop_last(), n)
    }
}

/// The plain properties other than `name`, in their order.
pub open spec fn slot_props(attrs: Seq<AttrView>) -> Seq<AttrView>
    decreases attrs.len(),
{
    if attrs.len() == 0 {
        Seq::empty()
    } else if !attrs.last().is_property("name"@) && attrs.last().is_any_property() {
        slot_props(attrs.drop_last()).push(attrs.last())
    } else {
        slot_props(attrs.drop_last())
    }
}

/// The template that an `import` or `include` names: its first `src`,
/// without the suffix of template files.
pub open spec fn source_path(attrs: Seq<AttrView>) -> Option<Seq<char>> {
    match first_property(attrs, "src"@) {
        Some(v) => Some(without_suffix(v.static_value(), ".wxml"@)),
        None => None,
    }
}

/// The name under which a `template` element defines a sub-template.
pub open spec fn template_name(attrs: Seq<AttrView>) -> Option<Seq<char>> {
    match first_property(attrs, "name"@) {
        Some(v) => Some(v.static_value()),
        None => None,
    }
}

/// An empty object literal, not yet resolved.
pub open spec fn empty_object() -> AttrValueView {
    AttrValueView::Dynamic { expr: ExprView::LitObj(Seq::empty()), binding_map_keys: None }
}

/// The data that a template reference passes on, always an object: an
/// object literal as it is, a single identifier as an object with that one
/// entry under its own name, and anything else as the empty object.
pub open spec fn normalize_data(data: Option<AttrValueView>) -> AttrValueView {
    match data {
        Some(AttrValueView::Dynamic { expr, binding_map_keys }) => AttrValueView::Dynamic {
            expr: match expr {
                ExprView::Ident(s) => ExprView::LitObj(seq![(Some(s), ExprView::Ident(s))]),
                ExprView::LitObj(x) => ExprView::LitObj(x),
                _ => ExprView::LitObj(Seq::empty()),
            },
            binding_map_keys,
        },
        _ => empty_object(),
    }
}

/// The role of a `slot` element: its last `name`, the empty name without
/// one, and its other plain properties if it has any.
pub open spec fn slot_type(attrs: Seq<AttrView>) -> VirtualTypeView {
    VirtualTypeView::Slot {
        name: match last_property(attrs, "name"@) {
            Some(v) => v,
            None => AttrValueView::Static(Seq::empty()),
        },
        props: if slot_props(attrs).len() > 0 {
            Some(slot_props(attrs))
        } else {
            None
        },
    }
}

/// The text of the first child, where that is a static text; else the empty
/// text.
pub open spec fn inline_content(children: Seq<NodeView>) -> Seq<char> {
    if children.len() > 0 && children[0] is TextNode && children[0]->TextNode_0 is Static {
        children[0]->TextNode_0->Static_0
    } else {
        Seq::empty()
    }
}

/// The text of an optional string; the empty text without one.
pub open spec fn text_or_empty(s: Option<Seq<char>>) -> Seq<char> {
    match s {
        Some(s) => s,
        None => Seq::empty(),
    }
}

/// The script module that a `wxs` element declares: a reference to a file
/// where it has a `src` that is not empty, and else the inline text.
pub open spec fn script_of(attrs: Seq<AttrView>, children: Seq<NodeView>) -> ScriptView {
    let module_name = text_or_empty(last_static_property(attrs, "module"@));
    let src = match last_static_property(attrs, "src"@) {
        Some(s) => without_suffix(s, ".wxs"@),
        None => Seq::empty(),
    };
    if src.len() == 0 {
        ScriptView::Inline { module_name, content: inline_content(children) }
    } else {
        ScriptView::GlobalRef { module_name, rel_path: src }
    }
}

/// The element in the role `virtual_type`: a transparent group takes the
/// role itself; any other element goes, as the only child, into a new
/// `block` that has the role.
pub open spec fn wrap(elem: ElementView, virtual_type: VirtualTypeView) -> ElementView {
    if elem.virtual_type is Pure {
        ElementView { virtual_type, ..elem }
    } else {
        ElementView::empty("block"@, virtual_type).with_child(NodeView::Element(elem))
    }
}

/// The role of one branch of a conditional chain.
pub open spec fn branch_type(attr_if: IfTypeView) -> VirtualTypeView {
    match attr_if {
        IfTypeView::If(cond) => VirtualTypeView::If { cond },
        IfTypeView::Elif(cond) => VirtualTypeView::Elif { cond },
        _ => VirtualTypeView::Else,
    }
}

/// The role of a loop with the given list and the names it was given;
/// `item` and `index` where it was given none.
pub open spec fn for_type(list: AttrValueView, d: DirectivesView) -> VirtualTypeView {
    VirtualTypeView::For {
        list,
        item_name: match d.attr_for_item {
            Some(s) => s,
            None => "item"@,
        },
        index_name: match d.attr_for_index {
            Some(s) => s,
            None => "index"@,
        },
        key: d.attr_key,
    }
}

/// The last of `out` is the group of a conditional chain.
pub open spec fn ends_with_if_group(out: Seq<NodeView>) -> bool {
    out.len() > 0 && out.last() is Element && out.last()->Element_0.virtual_type is IfGroup
}

/// An element with the directive `attr_if` joins the chain at the end of
/// `out`: it is an `elif` or an `else`, and a chain is there.
pub open spec fn attaches(attr_if: IfTypeView, out: Seq<NodeView>) -> bool {
    (attr_if is Elif || attr_if is Else) && ends_with_if_group(out)
}

/// `out` with `branch` as one more child of its last element.
pub open spec fn attach_branch(out: Seq<NodeView>, branch: ElementView) -> Seq<NodeView> {
    out.update(
        out.len() - 1,
        NodeView::Element(out.last()->Element_0.with_child(NodeView::Element(branch))),
    )
}

/// The nodes, each element among them with the slot values `slot_values`.
pub open spec fn provide_slots(nodes: Seq<NodeView>, slot_values: Seq<(Seq<char>, Seq<char>)>) -> Seq<
    NodeView,
> {
    Seq::new(
        nodes.len(),
        |i: int|
            match nodes[i] {
                NodeView::Element(e) => NodeView::Element(ElementView { slot_values, ..e }),
                NodeView::TextNode(t) => NodeView::TextNode(t),
            },
    )
}

/// The element as it stands before its directives place it: with the
/// attributes that stay, in the role that its tag gives it, and with its
/// generics and its slot target.
pub open spec fn prepare_element(raw: ElementView, d: DirectivesView) -> ElementView {
    let special = if raw.tag_name == "template"@ {
        match first_property(d.rest, "is"@) {
            Some(target) => ElementView {
                attrs: Seq::empty(),
                virtual_type: VirtualTypeView::TemplateRef {
                    target,
                    data: normalize_data(first_property(d.rest, "data"@)),
                },
                ..raw
            },
            None => ElementView { attrs: Seq::empty(), ..raw },
        }
    } else if raw.tag_name == "slot"@ {
        ElementView { attrs: Seq::empty(), virtual_type: slot_type(d.rest), ..raw }
    } else {
        ElementView { attrs: d.rest, ..raw }
    };
    ElementView { generics: d.generics, slot: d.attr_slot, ..special }
}

/// The element in the roles that its conditional and loop directives give
/// it, the conditional innermost.
pub open spec fn wrap_directives(elem: ElementView, d: DirectivesView) -> ElementView {
    let inner = match d.attr_if {
        IfTypeView::Absent => elem,
        _ => wrap(wrap(elem, branch_type(d.attr_if)), VirtualTypeView::IfGroup),
    };
    match d.attr_for {
        Some(list) => wrap(inner, for_type(list, d)),
        None => inner,
    }
}

/// The siblings `out` with the converted element `elem` placed after them.
/// An `elif` or `else` behind a conditional chain becomes one more branch
/// of it. Otherwise the element gets the roles of its directives; if it is
/// then still a transparent group without a slot target, its children take
/// its place, and else it follows as one element.
pub open spec fn place_element(elem: ElementView, d: DirectivesView, out: Seq<NodeView>) -> Seq<
    NodeView,
> {
    if attaches(d.attr_if, out) {
        attach_branch(out, wrap(elem, branch_type(d.attr_if)))
    } else {
        let placed = wrap_directives(elem, d);
        if placed.virtual_type is Pure && placed.slot is None {
            out + provide_slots(placed.children, d.slot_values)
        } else {
            out.push(NodeView::Element(ElementView { slot_values: d.slot_values, ..placed }))
        }
    }
}

/// The tag is one that the conversion takes out of the tree by itself.
pub open spec fn is_source_tag(tag_name: Seq<char>) -> bool {
    tag_name == "include"@ || tag_name == "import"@
}

/// What an `import` or `include` element leaves: an import its path among
/// the imports, an include its path among the includes and a placeholder
/// without children in the tree; without a `src`, nothing.
pub open spec fn convert_source(raw: ElementView, d: DirectivesView, out: Seq<NodeView>, st: Collected) -> (
    Seq<NodeView>,
    Collected,
) {
    match source_path(d.rest) {
        Some(path) => if raw.tag_name == "import"@ {
            (out, Collected { imports: st.imports.push(path), ..st })
        } else {
            (
                out.push(
                    NodeView::Element(
                        ElementView {
                            virtual_type: VirtualTypeView::Include { path },
                            attrs: Seq::empty(),
                            children: Seq::empty(),
                            ..raw
                        },
                    ),
                ),
                Collected { includes: st.includes.push(path), ..st },
            )
        },
        None => (out, st),
    }
}

/// The siblings and the gathered items after one more node, which is
/// converted with all that is below it.
pub open spec fn convert_node(node: NodeView, out: Seq<NodeView>, st: Collected) -> (
    Seq<NodeView>,
    Collected,
)
    decreases node,
{
    match node {
        NodeView::TextNode(_) => (out.push(node), st),
        NodeView::Element(raw) => {
            let d = triage(raw.attrs);
            if is_source_tag(raw.tag_name) {
                convert_source(raw, d, out, st)
            } else if raw.tag_name == "wxs"@ {
                (out, Collected { scripts: st.scripts.push(script_of(d.rest, raw.children)), ..st })
            } else {
                let (children, st1) = convert_seq(raw.children, Seq::empty(), st);
                if raw.tag_name == "template"@ && template_name(d.rest) is Some {
                    (
                        out,
                        Collected {
                            sub_templates: st1.sub_templates.insert(
                                template_name(d.rest)->0,
                                ElementView { attrs: Seq::empty(), children, ..raw },
                            ),
                            ..st1
                        },
                    )
                } else {
                    (place_element(ElementView { children, ..prepare_element(raw, d) }, d, out), st1)
                }
            }
        },
    }
}

/// The siblings `out` and the gathered items `st` after the nodes `nodes`,
/// taken in their order.
pub open spec fn convert_seq(nodes: Seq<NodeView>, out: Seq<NodeView>, st: Collected) -> (
    Seq<NodeView>,
    Collected,
)
    decreases nodes,
{
    if nodes.len() == 0 {
        (out, st)
    } else {
        let (out1, st1) = convert_seq(nodes.drop_last(), out, st);
        convert_node(nodes.last(), out1, st1)
    }
}

/// The children of an element in structural form, with what their
/// conversion adds to `st`.
pub open spec fn convert_children(children: Seq<NodeView>, st: Collected) -> (Seq<NodeView>, Collected) {
    convert_seq(children, Seq::empty(), st)
}

/// Converting a list of siblings is converting its front part and then,
/// from what that left, its back part.
pub proof fn lemma_convert_seq_concat(
    a: Seq<NodeView>,
    b: Seq<NodeView>,
    out: Seq<NodeView>,
    st: Collected,
)
    ensures
        convert_seq(a + b, out, st) == convert_seq(
            b,
            convert_seq(a, out, st).0,
            convert_seq(a, out, st).1,
        ),
    decreases b.len(),
{
    if b.len() == 0 {
        assert(a + b =~= a);
    } else {
        lemma_convert_seq_concat(a, b.drop_last(), out, st);
        assert((a + b).drop_last() =~= a + b.drop_last());
        assert((a + b).last() == b.last());
    }
}

/// Converting a single node is one step.
pub proof fn lemma_convert_seq_one(node: NodeView, out: Seq<NodeView>, st: Collected)
    ensures
        convert_seq(seq![node], out, st) == convert_node(node, out, st),
{
    let s = seq![node];
    assert(s.drop_last() =~= Seq::<NodeView>::empty());
    assert(s.last() == node);
    assert(convert_seq(s.drop_last(), out, st) == (out, st));
}

/// The tag is one of those that the conversion gives a meaning of their own.
pub open spec fn is_special_tag(tag_name: Seq<char>) -> bool {
    is_source_tag(tag_name) || tag_name == "wxs"@ || tag_name == "template"@ || tag_name
        == "slot"@
}

/// The element stays in the tree: it is no import, include or script, and
/// it defines no sub-template.
pub open spec fn stays_in_tree(e: ElementView) -> bool {
    !is_source_tag(e.tag_name) && e.tag_name != "wxs"@ && !(e.tag_name == "template"@
        && template_name(triage(e.attrs).rest) is Some)
}

/// The element with its children converted, before its directives place it.
pub open spec fn converted(e: ElementView, st: Collected) -> ElementView {
    ElementView {
        children: convert_children(e.children, st).0,
        ..prepare_element(e, triage(e.attrs))
    }
}

/// A transparent group without a conditional, a loop or a slot target, and
/// with a tag that has no meaning of its own.
pub open spec fn is_plain_group(e: ElementView) -> bool {
    &&& e.virtual_type is Pure
    &&& !is_special_tag(e.tag_name)
    &&& triage(e.attrs).attr_if is Absent
    &&& triage(e.attrs).attr_for is None
    &&& triage(e.attrs).attr_slot is None
}

/// A transparent group without directives leaves no element of its own: its
/// converted children stand in its place, in their order, after the
/// siblings before it and before the siblings after it.
pub proof fn law_plain_group_is_spliced(
    pre: Seq<NodeView>,
    group: ElementView,
    post: Seq<NodeView>,
    st: Collected,
)
    requires
        is_plain_group(group),
    ensures
        ({
            let (before, st1) = convert_children(pre, st);
            let (inside, st2) = convert_children(group.children, st1);
            let spliced = provide_slots(inside, triage(group.attrs).slot_values);
            &&& spliced.len() == inside.len()
            &&& convert_children(pre + seq![NodeView::Element(group)] + post, st) == convert_seq(
                post,
                before + spliced,
                st2,
            )
            &&& convert_children(pre + seq![NodeView::Element(group)], st).0 == before + spliced
        }),
{
    let node = NodeView::Element(group);
    let empty = Seq::<NodeView>::empty();
    lemma_convert_seq_concat(pre + seq![node], post, empty, st);
    lemma_convert_seq_concat(pre, seq![node], empty, st);
    let (before, st1) = convert_children(pre, st);
    lemma_convert_seq_one(node, before, st1);
    let d = triage(group.attrs);
    let placed = wrap_directives(converted(group, st1), d);
    assert(placed == converted(group, st1));
    assert(placed.virtual_type is Pure);
    assert(placed.slot is None);
}

/// The node is the group of a conditional chain.
pub open spec fn is_if_group(node: NodeView) -> bool {
    node is Element && node->Element_0.virtual_type is IfGroup
}

/// A sibling that brings no group of a conditional chain among its
/// siblings: a text, or an element without a conditional directive that
/// leaves the tree, or is a loop, or has its children stand in its place and
/// they bring no group either, or stays as an element that was no group of
/// a chain when it was read.
pub open spec fn is_unconditional(node: NodeView) -> bool
    decreases node,
{
    match node {
        NodeView::TextNode(_) => true,
        NodeView::Element(e) => {
            let d = triage(e.attrs);
            let role = prepare_element(e, d).virtual_type;
            d.attr_if is Absent && (!stays_in_tree(e) || d.attr_for is Some || (if role is Pure
                && d.attr_slot is None {
                all_unconditional(e.children)
            } else {
                !(role is IfGroup)
            }))
        },
    }
}

/// None of the siblings brings a group of a conditional chain.
pub open spec fn all_unconditional(nodes: Seq<NodeView>) -> bool
    decreases nodes,
{
    forall|i: int| 0 <= i < nodes.len() ==> is_unconditional(#[trigger] nodes[i])
}

/// An element that opens a conditional chain: it has an `if`, no loop, and
/// stays in the tree.
pub open spec fn opens_chain(e: ElementView) -> bool {
    triage(e.attrs).attr_if is If && triage(e.attrs).attr_for is None && stays_in_tree(e)
}

/// An unconditional sibling leaves the siblings before it as they are and
/// adds no group of a chain.
pub proof fn lemma_unconditional_step(node: NodeView, out: Seq<NodeView>, st: Collected)
    requires
        is_unconditional(node),
    ensures
        ({
            let o = convert_node(node, out, st).0;
            &&& o.len() >= out.len()
            &&& o.take(out.len() as int) == out
            &&& forall|k: int| out.len() <= k < o.len() ==> !is_if_group(#[trigger] o[k])
        }),
    decreases node,
{
    let o = convert_node(node, out, st).0;
    match node {
        NodeView::TextNode(_) => {
            assert(o.take(out.len() as int) =~= out);
        },
        NodeView::Element(e) => {
            let d = triage(e.attrs);
            if stays_in_tree(e) {
                let c = converted(e, st);
                let placed = wrap_directives(c, d);
                if placed.virtual_type is Pure && placed.slot is None {
                    lemma_unconditional_siblings(e.children, Seq::empty(), st);
                    let inside = convert_children(e.children, st).0;
                    assert(o == out + provide_slots(inside, d.slot_values));
                    assert forall|k: int| out.len() <= k < o.len() implies !is_if_group(
                        #[trigger] o[k],
                    ) by {
                        assert(!is_if_group(inside[k - out.len()]));
                    }
                } else {
                    assert(!(placed.virtual_type is IfGroup));
                }
            }
            assert(o.take(out.len() as int) =~= out);
        },
    }
}

/// Unconditional siblings leave the siblings before them as they are, and
/// add no group of a chain.
pub proof fn lemma_unconditional_siblings(nodes: Seq<NodeView>, out: Seq<NodeView>, st: Collected)
    requires
        all_unconditional(nodes),
    ensures
        ({
            let o = convert_seq(nodes, out, st).0;
            &&& o.len() >= out.len()
            &&& o.take(out.len() as int) == out
            &&& forall|k: int| out.len() <= k < o.len() ==> !is_if_group(#[trigger] o[k])
        }),
    decreases nodes,
{
    if nodes.len() == 0 {
        assert(out.take(out.len() as int) =~= out);
    } else {
        let front = nodes.drop_last();
        assert forall|i: int| 0 <= i < front.len() implies is_unconditional(#[trigger] front[i]) by {
            assert(front[i] == nodes[i]);
        }
        lemma_unconditional_siblings(front, out, st);
        let (o1, s1) = convert_seq(front, out, st);
        lemma_unconditional_step(nodes.last(), o1, s1);
        let o = convert_node(nodes.last(), o1, s1).0;
        assert(o.take(out.len() as int) =~= out) by {
            assert forall|j: int| 0 <= j < out.len() implies o[j] == out[j] by {
                assert(o.take(o1.len() as int)[j] == o[j]);
                assert(o1.take(out.len() as int)[j] == o1[j]);
            }
        }
        assert forall|k: int| out.len() <= k < o.len() implies !is_if_group(#[trigger] o[k]) by {
            if k < o1.len() {
                assert(o.take(o1.len() as int)[k] == o[k]);
            }
        }
    }
}

/// An `if`, an `elif` and an `else` in a row become one group with three
/// branches.
pub proof fn lemma_chain_of_three(
    e1: ElementView,
    e2: ElementView,
    e3: ElementView,
    out: Seq<NodeView>,
    st: Collected,
)
    requires
        opens_chain(e1),
        triage(e2.attrs).attr_if is Elif,
        stays_in_tree(e2),
        triage(e3.attrs).attr_if is Else,
        stays_in_tree(e3),
    ensures
        ({
            let chain = seq![NodeView::Element(e1), NodeView::Element(e2), NodeView::Element(e3)];
            let o = convert_seq(chain, out, st).0;
            &&& o.len() == out.len() + 1
            &&& o.drop_last() == out
            &&& is_if_group(o.last())
            &&& ({
                let branches = o.last()->Element_0.children;
                &&& branches.len() == 3
                &&& branches[0] is Element
                &&& branches[0]->Element_0.virtual_type == branch_type(triage(e1.attrs).attr_if)
                &&& branches[1] is Element
                &&& branches[1]->Element_0.virtual_type == branch_type(triage(e2.attrs).attr_if)
                &&& branches[2] is Element
                &&& branches[2]->Element_0.virtual_type == VirtualTypeView::Else
            })
        }),
{
    let n1 = NodeView::Element(e1);
    let n2 = NodeView::Element(e2);
    let n3 = NodeView::Element(e3);
    let chain = seq![n1, n2, n3];
    assert(chain =~= seq![n1] + seq![n2] + seq![n3]);
    lemma_convert_seq_concat(seq![n1] + seq![n2], seq![n3], out, st);
    lemma_convert_seq_concat(seq![n1], seq![n2], out, st);
    lemma_convert_seq_one(n1, out, st);
    let (o1, s1) = convert_node(n1, out, st);
    lemma_convert_seq_one(n2, o1, s1);
    let (o2, s2) = convert_node(n2, o1, s1);
    lemma_convert_seq_one(n3, o2, s2);
    let (o3, s3) = convert_node(n3, o2, s2);
    let d1 = triage(e1.attrs);
    let d2 = triage(e2.attrs);
    let d3 = triage(e3.attrs);
    let b1 = wrap(converted(e1, st), branch_type(d1.attr_if));
    assert(b1.virtual_type == branch_type(d1.attr_if));
    let g1 = wrap(b1, VirtualTypeView::IfGroup);
    assert(g1 == ElementView::empty("block"@, VirtualTypeView::IfGroup).with_child(
        NodeView::Element(b1),
    ));
    assert(wrap_directives(converted(e1, st), d1) == g1);
    assert(o1 == out.push(NodeView::Element(ElementView { slot_values: d1.slot_values, ..g1 })));
    assert(o1.drop_last() =~= out);
    assert(ends_with_if_group(o1));
    let b2 = wrap(converted(e2, s1), branch_type(d2.attr_if));
    assert(b2.virtual_type == branch_type(d2.attr_if));
    assert(o2 == attach_branch(o1, b2));
    assert(ends_with_if_group(o2));
    let b3 = wrap(converted(e3, s2), branch_type(d3.attr_if));
    assert(b3.virtual_type == VirtualTypeView::Else);
    assert(o3 == attach_branch(o2, b3));
    assert(o3.drop_last() =~= out);
    assert(g1.children =~= seq![NodeView::Element(b1)]);
}

/// A chain of `if`, `elif` and `else` among unconditional siblings becomes
/// exactly one group: it stands behind what the siblings before the chain
/// left, it holds the three branches in the order of the chain, and no
/// other sibling is a group, however many siblings stand before or after
/// the chain.
pub proof fn law_conditional_chain_is_one_group(
    pre: Seq<NodeView>,
    e1: ElementView,
    e2: ElementView,
    e3: ElementView,
    post: Seq<NodeView>,
    st: Collected,
)
    requires
        all_unconditional(pre),
        all_unconditional(post),
        opens_chain(e1),
        triage(e2.attrs).attr_if is Elif,
        stays_in_tree(e2),
        triage(e3.attrs).attr_if is Else,
        stays_in_tree(e3),
    ensures
        ({
            let chain = seq![NodeView::Element(e1), NodeView::Element(e2), NodeView::Element(e3)];
            let o = convert_children(pre + chain + post, st).0;
            let at = convert_children(pre, st).0.len() as int;
            &&& at < o.len()
            &&& is_if_group(o[at])
            &&& forall|k: int| 0 <= k < o.len() && k != at ==> !is_if_group(#[trigger] o[k])
            &&& ({
                let branches = o[at]->Element_0.children;
                &&& branches.len() == 3
                &&& branches[0] is Element
                &&& branches[0]->Element_0.virtual_type == branch_type(triage(e1.attrs).attr_if)
                &&& branches[1] is Element
                &&& branches[1]->Element_0.virtual_type == branch_type(triage(e2.attrs).attr_if)
                &&& branches[2] is Element
                &&& branches[2]->Element_0.virtual_type == VirtualTypeView::Else
            })
        }),
{
    let chain = seq![NodeView::Element(e1), NodeView::Element(e2), NodeView::Element(e3)];
    let empty = Seq::<NodeView>::empty();
    lemma_convert_seq_concat(pre + chain, post, empty, st);
    lemma_convert_seq_concat(pre, chain, empty, st);
    let (o1, s1) = convert_seq(pre, empty, st);
    lemma_unconditional_siblings(pre, empty, st);
    lemma_chain_of_three(e1, e2, e3, o1, s1);
    let (o2, s2) = convert_seq(chain, o1, s1);
    lemma_unconditional_siblings(post, o2, s2);
    let o = convert_seq(post, o2, s2).0;
    let at = o1.len() as int;
    assert(o.take(o2.len() as int)[at] == o[at]);
    assert(o2.last() == o2[at]);
    assert forall|k: int| 0 <= k < o.len() && k != at implies !is_if_group(#[trigger] o[k]) by {
        if k < at {
            assert(o.take(o2.len() as int)[k] == o[k]);
            assert(o2.drop_last()[k] == o2[k]);
        }
    }
}

/// Neither the node nor anything below it is a transparent group without
/// a slot target.
pub open spec fn is_settled(node: NodeView) -> bool
    decreases node,
{
    match node {
        NodeView::TextNode(_) => true,
        NodeView::Element(e) => !(e.virtual_type is Pure && e.slot is None) && all_settled(
            e.children,
        ),
    }
}

/// No transparent group without a slot target is among the nodes or below
/// them.
pub open spec fn all_settled(nodes: Seq<NodeView>) -> bool
    decreases nodes,
{
    forall|i: int| 0 <= i < nodes.len() ==> is_settled(#[trigger] nodes[i])
}

/// An element in a role other than that of a transparent group is settled
/// if what it was before is settled below itself.
proof fn lemma_wrap_settled(elem: ElementView, virtual_type: VirtualTypeView)
    requires
        all_settled(elem.children),
        !(virtual_type is Pure),
    ensures
        is_settled(NodeView::Element(wrap(elem, virtual_type))),
        !(wrap(elem, virtual_type).virtual_type is Pure),
        all_settled(wrap(elem, virtual_type).children),
{
    let w = wrap(elem, virtual_type);
    if !(elem.virtual_type is Pure) {
        assert(w.children =~= seq![NodeView::Element(elem)]);
        assert(is_settled(NodeView::Element(elem)));
    }
}

/// The conversion of one node leaves no transparent group without a slot
/// target among the siblings, at any depth, if none was there before.
pub proof fn lemma_convert_node_settled(node: NodeView, out: Seq<NodeView>, st: Collected)
    requires
        all_settled(out),
    ensures
        all_settled(convert_node(node, out, st).0),
    decreases node,
{
    let o = convert_node(node, out, st).0;
    match node {
        NodeView::TextNode(_) => {
            assert forall|i: int| 0 <= i < o.len() implies is_settled(#[trigger] o[i]) by {
                if i < out.len() {
                    assert(o[i] == out[i]);
                }
            }
        },
        NodeView::Element(e) => {
            let d = triage(e.attrs);
            if is_source_tag(e.tag_name) {
                assert forall|i: int| 0 <= i < o.len() implies is_settled(#[trigger] o[i]) by {
                    if i < out.len() {
                        assert(o[i] == out[i]);
                    } else {
                        assert(o[i]->Element_0.children =~= Seq::<NodeView>::empty());
                    }
                }
            } else if stays_in_tree(e) {
                law_conversion_settles(e.children, Seq::empty(), st);
                let c = converted(e, st);
                assert(all_settled(c.children));
                if attaches(d.attr_if, out) {
                    let branch = wrap(c, branch_type(d.attr_if));
                    lemma_wrap_settled(c, branch_type(d.attr_if));
                    let group = out.last()->Element_0;
                    let grown = group.with_child(NodeView::Element(branch));
                    assert(is_settled(out.last()));
                    assert forall|i: int| 0 <= i < grown.children.len() implies is_settled(
                        #[trigger] grown.children[i],
                    ) by {
                        if i < group.children.len() {
                            assert(grown.children[i] == group.children[i]);
                        }
                    }
                    assert forall|i: int| 0 <= i < o.len() implies is_settled(#[trigger] o[i]) by {
                        if i < out.len() - 1 {
                            assert(o[i] == out[i]);
                        }
                    }
                } else {
                    let inner = match d.attr_if {
                        IfTypeView::Absent => c,
                        _ => wrap(wrap(c, branch_type(d.attr_if)), VirtualTypeView::IfGroup),
                    };
                    if !(d.attr_if is Absent) {
                        lemma_wrap_settled(c, branch_type(d.attr_if));
                        lemma_wrap_settled(
                            wrap(c, branch_type(d.attr_if)),
                            VirtualTypeView::IfGroup,
                        );
                    }
                    assert(all_settled(inner.children));
                    let placed = wrap_directives(c, d);
                    if d.attr_for is Some {
                        lemma_wrap_settled(inner, for_type(d.attr_for->0, d));
                    }
                    assert(all_settled(placed.children));
                    if placed.virtual_type is Pure && placed.slot is None {
                        let spliced = provide_slots(placed.children, d.slot_values);
                        assert forall|i: int| 0 <= i < o.len() implies is_settled(
                            #[trigger] o[i],
                        ) by {
                            if i < out.len() {
                                assert(o[i] == out[i]);
                            } else {
                                assert(is_settled(placed.children[i - out.len()]));
                            }
                        }
                    } else {
                        assert forall|i: int| 0 <= i < o.len() implies is_settled(
                            #[trigger] o[i],
                        ) by {
                            if i < out.len() {
                                assert(o[i] == out[i]);
                            }
                        }
                    }
                }
            }
        },
    }
}

/// After the conversion no transparent group without a slot target is left
/// among the siblings, at any depth, if none was there before.
pub proof fn law_conversion_settles(nodes: Seq<NodeView>, out: Seq<NodeView>, st: Collected)
    requires
        all_settled(out),
    ensures
        all_settled(convert_seq(nodes, out, st).0),
    decreases nodes,
{
    if nodes.len() > 0 {
        law_conversion_settles(nodes.drop_last(), out, st);
        let (o1, s1) = convert_seq(nodes.drop_last(), out, st);
        lemma_convert_node_settled(nodes.last(), o1, s1);
    }
}

} // verus!
