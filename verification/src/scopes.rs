//! What the resolution of a tree computes: which names each part of the
//! tree can see, and what becomes of the expressions in it.

use vstd::prelude::*;
use crate::binding_map::BindingMapView;
use crate::element::{
    AttrValueView, AttrView, ElementView, NodeView, ScriptView, TextView, VirtualTypeView,
};
use crate::expr::{resolve_expr, ExprView, ResolveCtx, ResolveState};
use crate::utils::{decimal, last_position, lemma_last_position};

verus! {

/// The name that stands for the scope at position `n`: a dollar sign and
/// the position.
pub open spec fn placeholder(n: nat) -> Seq<char> {
    seq!['$'] + decimal(n)
}

/// A dynamic value after resolution, with the binding map that it leaves.
/// The value carries the fields that got an index, or nothing where fields
/// are disabled.
pub open spec fn resolve_value(v: AttrValueView, cx: ResolveCtx, bmc: BindingMapView) -> (
    AttrValueView,
    BindingMapView,
) {
    match v {
        AttrValueView::Static(_) => (v, bmc),
        AttrValueView::Dynamic { expr, .. } => {
            let (e1, st) = resolve_expr(expr, cx, ResolveState { bmc, keys: Seq::empty() });
            (
                AttrValueView::Dynamic {
                    expr: e1,
                    binding_map_keys: if cx.disable {
                        None
                    } else {
                        Some(st.keys)
                    },
                },
                st.bmc,
            )
        },
    }
}

/// A text node after resolution, with the binding map that it leaves.
pub open spec fn resolve_text(t: TextView, cx: ResolveCtx, bmc: BindingMapView) -> (
    TextView,
    BindingMapView,
) {
    match t {
        TextView::Static(_) => (t, bmc),
        TextView::Dynamic { expr, .. } => {
            let (e1, st) = resolve_expr(expr, cx, ResolveState { bmc, keys: Seq::empty() });
            (
                TextView::Dynamic {
                    expr: e1,
                    binding_map_keys: if cx.disable {
                        None
                    } else {
                        Some(st.keys)
                    },
                },
                st.bmc,
            )
        },
    }
}

/// An optional value after resolution.
pub open spec fn resolve_opt_value(v: Option<AttrValueView>, cx: ResolveCtx, bmc: BindingMapView) -> (
    Option<AttrValueView>,
    BindingMapView,
) {
    match v {
        Some(v) => (Some(resolve_value(v, cx, bmc).0), resolve_value(v, cx, bmc).1),
        None => (None, bmc),
    }
}

/// The attributes after the resolution of their values, the first of them
/// first.
pub open spec fn resolve_attrs(attrs: Seq<AttrView>, cx: ResolveCtx, bmc: BindingMapView) -> (
    Seq<AttrView>,
    BindingMapView,
)
    decreases attrs.len(),
{
    if attrs.len() == 0 {
        (Seq::empty(), bmc)
    } else {
        let (front, b1) = resolve_attrs(attrs.drop_last(), cx, bmc);
        let (value, b2) = resolve_value(attrs.last().value, cx, b1);
        (front.push(AttrView { kind: attrs.last().kind, value }), b2)
    }
}

/// The context in which the expressions of a role are resolved: the scopes
/// around the element, with fields disabled.
pub open spec fn role_ctx(cx: ResolveCtx) -> ResolveCtx {
    ResolveCtx { disable: true, ..cx }
}

/// The role of an element after resolution, with the binding map that it
/// leaves. The expressions of a role see the scopes around the element, and
/// their fields are disabled. A loop gets, in place of the names of its item
/// and its index, the placeholders of the two scopes that it opens.
pub open spec fn resolve_virtual_type(vt: VirtualTypeView, cx: ResolveCtx, bmc: BindingMapView) -> (
    VirtualTypeView,
    BindingMapView,
) {
    let rc = role_ctx(cx);
    match vt {
        VirtualTypeView::If { cond } => (
            VirtualTypeView::If { cond: resolve_value(cond, rc, bmc).0 },
            resolve_value(cond, rc, bmc).1,
        ),
        VirtualTypeView::Elif { cond } => (
            VirtualTypeView::Elif { cond: resolve_value(cond, rc, bmc).0 },
            resolve_value(cond, rc, bmc).1,
        ),
        VirtualTypeView::For { list, item_name, index_name, key } => (
            VirtualTypeView::For {
                list: resolve_value(list, rc, bmc).0,
                item_name: placeholder(cx.scopes.len()),
                index_name: placeholder(cx.scopes.len() + 1),
                key,
            },
            resolve_value(list, rc, bmc).1,
        ),
        VirtualTypeView::TemplateRef { target, data } => {
            let (target1, b1) = resolve_value(target, rc, bmc);
            let (data1, b2) = resolve_value(data, rc, b1);
            (VirtualTypeView::TemplateRef { target: target1, data: data1 }, b2)
        },
        VirtualTypeView::Slot { name, props } => {
            let (name1, b1) = resolve_value(name, rc, bmc);
            match props {
                Some(props) => (
                    VirtualTypeView::Slot {
                        name: name1,
                        props: Some(resolve_attrs(props, rc, b1).0),
                    },
                    resolve_attrs(props, rc, b1).1,
                ),
                None => (VirtualTypeView::Slot { name: name1, props: None }, b1),
            }
        },
        _ => (vt, bmc),
    }
}

/// The scopes inside an element with the role `vt`: a loop opens one scope
/// for its item and one for its index, in this order.
pub open spec fn loop_scopes(vt: VirtualTypeView, scopes: Seq<Seq<char>>) -> Seq<Seq<char>> {
    match vt {
        VirtualTypeView::For { item_name, index_name, .. } => scopes.push(item_name).push(
            index_name,
        ),
        _ => scopes,
    }
}

/// The names by which the subtree reads the slot values, in their order.
pub open spec fn provided_names(slot_values: Seq<(Seq<char>, Seq<char>)>) -> Seq<Seq<char>> {
    Seq::new(slot_values.len(), |i: int| slot_values[i].1)
}

/// The slot values with, in place of each name by which the subtree reads
/// one, the placeholder of the scope that it opens; the first of these
/// scopes has the position `base`.
pub open spec fn bound_slot_values(slot_values: Seq<(Seq<char>, Seq<char>)>, base: nat) -> Seq<
    (Seq<char>, Seq<char>),
> {
    Seq::new(slot_values.len(), |i: int| (slot_values[i].0, placeholder((base + i) as nat)))
}

/// The scopes that the attributes and the subtree of an element see: those
/// around it, then those of its loop, then one for each slot value.
pub open spec fn inner_scopes(e: ElementView, scopes: Seq<Seq<char>>) -> Seq<Seq<char>> {
    loop_scopes(e.virtual_type, scopes) + provided_names(e.slot_values)
}

/// Whether fields are disabled in the attributes and the subtree of an
/// element: they are below every element that is not an ordinary tag, and
/// stay so further down.
pub open spec fn inner_disable(e: ElementView, disable: bool) -> bool {
    disable || !(e.virtual_type is Plain)
}

/// The context of the attributes and the subtree of an element that stands
/// in the context `cx`.
pub open spec fn inner_ctx(e: ElementView, cx: ResolveCtx) -> ResolveCtx {
    ResolveCtx {
        scopes: inner_scopes(e, cx.scopes),
        modules: cx.modules,
        disable: inner_disable(e, cx.disable),
    }
}

/// An element after resolution, with the binding map that it leaves: first
/// its role, then its attributes, its slot target and its children.
pub open spec fn resolve_element(e: ElementView, cx: ResolveCtx, bmc: BindingMapView) -> (
    ElementView,
    BindingMapView,
)
    decreases e,
{
    let (virtual_type, b1) = resolve_virtual_type(e.virtual_type, cx, bmc);
    let inner = inner_ctx(e, cx);
    let (attrs, b2) = resolve_attrs(e.attrs, inner, b1);
    let (slot, b3) = resolve_opt_value(e.slot, inner, b2);
    let (children, b4) = resolve_nodes(e.children, inner, b3);
    (
        ElementView {
            virtual_type,
            attrs,
            slot,
            children,
            slot_values: bound_slot_values(
                e.slot_values,
                loop_scopes(e.virtual_type, cx.scopes).len(),
            ),
            ..e
        },
        b4,
    )
}

/// One node after resolution.
pub open spec fn resolve_node(node: NodeView, cx: ResolveCtx, bmc: BindingMapView) -> (
    NodeView,
    BindingMapView,
)
    decreases node,
{
    match node {
        NodeView::TextNode(t) => (
            NodeView::TextNode(resolve_text(t, cx, bmc).0),
            resolve_text(t, cx, bmc).1,
        ),
        NodeView::Element(e) => (
            NodeView::Element(resolve_element(e, cx, bmc).0),
            resolve_element(e, cx, bmc).1,
        ),
    }
}

/// A list of sibling nodes after resolution, the first of them first.
pub open spec fn resolve_nodes(nodes: Seq<NodeView>, cx: ResolveCtx, bmc: BindingMapView) -> (
    Seq<NodeView>,
    BindingMapView,
)
    decreases nodes,
{
    if nodes.len() == 0 {
        (Seq::empty(), bmc)
    } else {
        let (front, b1) = resolve_nodes(nodes.drop_last(), cx, bmc);
        let (last, b2) = resolve_node(nodes.last(), cx, b1);
        (front.push(last), b2)
    }
}

/// The context at the root of a template: no scope is open.
pub open spec fn root_ctx(modules: Seq<Seq<char>>, disable: bool) -> ResolveCtx {
    ResolveCtx { scopes: Seq::empty(), modules, disable }
}

/// The root of a sub-template after resolution. It has a binding map of its
/// own, and all its fields are disabled.
pub open spec fn resolve_sub_template(e: ElementView, modules: Seq<Seq<char>>) -> ElementView {
    ElementView {
        children: resolve_nodes(e.children, root_ctx(modules, true), BindingMapView::empty()).0,
        ..e
    }
}

/// The name of the module that a script declares.
pub open spec fn module_name(script: ScriptView) -> Seq<char> {
    match script {
        ScriptView::Inline { module_name, .. } => module_name,
        ScriptView::GlobalRef { module_name, .. } => module_name,
    }
}

/// The names of the modules that the scripts declare, in their order.
pub open spec fn module_names(scripts: Seq<ScriptView>) -> Seq<Seq<char>> {
    Seq::new(scripts.len(), |i: int| module_name(scripts[i]))
}

/// An identifier that several open scopes bind becomes the position of the
/// innermost of them: the one that was opened last.
pub proof fn law_innermost_scope_wins(name: Seq<char>, cx: ResolveCtx, st: ResolveState, at: int)
    requires
        0 <= at < cx.scopes.len(),
        cx.scopes[at] == name,
        forall|j: int| at < j < cx.scopes.len() ==> cx.scopes[j] != name,
    ensures
        resolve_expr(ExprView::Ident(name), cx, st) == (ExprView::ScopeIndex(at as nat), st),
{
    lemma_last_position(cx.scopes, name);
    assert(cx.scopes.contains(name));
}

/// Inside a loop, the name of its item is one of the scopes that the
/// element opens, whatever the name means outside, and the binding map
/// does not hear of it. It is the scope of the item itself, unless the
/// index or a slot value of the element has the same name.
pub proof fn law_loop_item_is_scope(e: ElementView, cx: ResolveCtx, st: ResolveState)
    requires
        e.virtual_type is For,
    ensures
        ({
            let r = resolve_expr(ExprView::Ident(e.virtual_type->item_name), inner_ctx(e, cx), st);
            &&& r.1 == st
            &&& r.0 is ScopeIndex
            &&& cx.scopes.len() <= r.0->ScopeIndex_0 < inner_ctx(e, cx).scopes.len()
            &&& (e.virtual_type->index_name != e.virtual_type->item_name && !provided_names(
                e.slot_values,
            ).contains(e.virtual_type->item_name)) ==> r.0->ScopeIndex_0 == cx.scopes.len()
        }),
{
    let name = e.virtual_type->item_name;
    let inner = inner_ctx(e, cx);
    let at = cx.scopes.len() as int;
    assert(inner.scopes[at] == name);
    lemma_last_position(inner.scopes, name);
    assert(inner.scopes.contains(name));
    let found = last_position(inner.scopes, name)->0 as int;
    assert(found >= at);
    if e.virtual_type->index_name != name && !provided_names(e.slot_values).contains(name) {
        if found > at + 1 {
            let k = found - (at + 2);
            assert(inner.scopes[found] == provided_names(e.slot_values)[k]);
            assert(provided_names(e.slot_values).contains(inner.scopes[found]));
        }
    }
}

/// Where no open scope binds a name, and it names no script module, it is a
/// data field: it keeps its form, and where fields are not disabled the
/// binding map is asked an index for it.
pub proof fn law_unbound_name_is_field(name: Seq<char>, cx: ResolveCtx, st: ResolveState)
    requires
        !cx.scopes.contains(name),
        !cx.modules.contains(name),
        !cx.disable,
    ensures
        resolve_expr(ExprView::Ident(name), cx, st).0 == ExprView::Ident(name),
        resolve_expr(ExprView::Ident(name), cx, st).1.bmc == st.bmc.add_field(name),
        st.bmc.index_for(name) is Some ==> resolve_expr(ExprView::Ident(name), cx, st).1.keys
            == st.keys.push((name, st.bmc.index_for(name)->0)),
{
    lemma_last_position(cx.scopes, name);
}

} // verus!
