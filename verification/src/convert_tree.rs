//! The two passes over a template tree: the conversion of directives into
//! structure, and the resolution of the identifiers in its expressions.

use vstd::prelude::*;
use crate::binding_map::BindingMapCollector;
use crate::directives::{
    attach_branch, convert_node, convert_seq, first_property, for_type, last_property,
    last_static_property, normalize_data, place_element, provide_slots, script_of, slot_props,
    slot_type, source_path, template_name, text_or_empty, triage, wrap, wrap_directives,
    DirectivesView,
};
use crate::element::{
    attr_views, node_views, opt_map_view, opt_str_view, opt_value_view, pair_views, AttrValueView,
    ElementView, TmplAttr, TmplAttrKind, TmplAttrValue, TmplElement, TmplNode, TmplScript,
    TmplTextNode, TmplVirtualType,
};
use crate::expr::{ctx_of, entry_views, ExprView, TmplExpr};
use crate::parser::IfType;
use crate::scopes::{
    bound_slot_values, inner_ctx, loop_scopes, module_names, placeholder, provided_names,
    resolve_attrs, resolve_element, resolve_nodes, resolve_sub_template, resolve_text,
    resolve_value, resolve_virtual_type,
};
use crate::str_map::{lemma_string_map_insert, StrMap};
use crate::tree::{collected_of, element_map_view, script_views, TmplTree};
use crate::utils::{push_decimal, strings_view, strip_suffix};

verus! {

/// What the attributes of an element say beyond plain attributes.
pub struct Directives {
    pub attr_if: IfType,
    pub attr_for: Option<TmplAttrValue>,
    pub attr_for_item: Option<String>,
    pub attr_for_index: Option<String>,
    pub attr_key: Option<String>,
    pub attr_slot: Option<TmplAttrValue>,
    pub slot_values: Vec<(String, String)>,
    pub generics: Option<StrMap<String>>,
    pub rest: Vec<TmplAttr>,
}

impl View for Directives {
    type V = DirectivesView;

    open spec fn view(&self) -> DirectivesView {
        DirectivesView {
            attr_if: self.attr_if@,
            attr_for: opt_value_view(self.attr_for),
            attr_for_item: opt_str_view(self.attr_for_item),
            attr_for_index: opt_str_view(self.attr_for_index),
            attr_key: opt_str_view(self.attr_key),
            attr_slot: opt_value_view(self.attr_slot),
            slot_values: pair_views(self.slot_values@),
            generics: opt_map_view(self.generics),
            rest: attr_views(self.rest@),
        }
    }
}

impl Directives {
    /// No directive at all.
    pub fn new() -> (r: Self)
        ensures
            r@ == DirectivesView::empty(),
    {
        let r = Directives {
            attr_if: IfType::Absent,
            attr_for: None,
            attr_for_item: None,
            attr_for_index: None,
            attr_key: None,
            attr_slot: None,
            slot_values: Vec::new(),
            generics: None,
            rest: Vec::new(),
        };
        proof {
            assert(pair_views(r.slot_values@) =~= Seq::empty());
            assert(attr_views(r.rest@) =~= Seq::empty());
        }
        r
    }

    /// Takes in one more attribute.
    pub fn add(&mut self, attr: TmplAttr)
        ensures
            final(self)@ == old(self)@.with_attr(attr@),
    {
        let TmplAttr { kind, value } = attr;
        match kind {
            TmplAttrKind::WxDirective { name } => {
                let name = name.as_str();
                if name.eq("if") {
                    self.attr_if = IfType::If(value);
                } else if name.eq("elif") {
                    self.attr_if = IfType::Elif(value);
                } else if name.eq("else") {
                    self.attr_if = IfType::Else;
                } else if name.eq("for") || name.eq("for-items") {
                    self.attr_for = Some(value);
                } else if name.eq("for-item") {
                    self.attr_for_item = Some(value.static_value());
                } else if name.eq("for-index") {
                    self.attr_for_index = Some(value.static_value());
                } else if name.eq("key") {
                    self.attr_key = Some(value.static_value());
                }
            },
            TmplAttrKind::Generic { name } => {
                let mut map = match self.generics.take() {
                    Some(map) => map,
                    None => StrMap::new(),
                };
                let text = value.static_value();
                proof {
                    lemma_string_map_insert(map@, name@, text);
                    assert(Map::<Seq<char>, String>::empty().map_values(|s: String| s@)
                        =~= Map::<Seq<char>, Seq<char>>::empty());
                }
                map.insert(name, text);
                self.generics = Some(map);
            },
            TmplAttrKind::SlotProperty { name } => {
                let ghost before = pair_views(self.slot_values@);
                match value {
                    TmplAttrValue::Static(s) => {
                        if s.as_str().eq("") {
                            let provide = name.clone();
                            self.slot_values.push((name, provide));
                            proof {
                                reveal_strlit("");
                                assert(pair_views(self.slot_values@) =~= before.push((name@, name@)));
                            }
                        } else {
                            proof {
                                reveal_strlit("");
                                if s@.len() == 0 {
                                    assert(s@ =~= ""@);
                                }
                            }
                            self.slot_values.push((name, s));
                            proof {
                                assert(pair_views(self.slot_values@) =~= before.push((name@, s@)));
                            }
                        }
                    },
                    TmplAttrValue::Dynamic { expr, binding_map_keys } => {
                        let bare = match &*expr {
                            TmplExpr::LitBool(true) => true,
                            _ => false,
                        };
                        if bare {
                            let provide = name.clone();
                            self.slot_values.push((name, provide));
                            proof {
                                assert(pair_views(self.slot_values@) =~= before.push((name@, name@)));
                            }
                        }
                    },
                }
            },
            TmplAttrKind::Slot => {
                self.attr_slot = Some(value);
            },
            other => {
                let ghost before = attr_views(self.rest@);
                self.rest.push(TmplAttr { kind: other, value });
                proof {
                    assert(attr_views(self.rest@) =~= before.push(attr@));
                }
            },
        }
    }

    /// Sorts the attributes of an element into directives and the rest.
    pub fn triage_attrs(attrs: Vec<TmplAttr>) -> (r: Self)
        ensures
            r@ == triage(attr_views(attrs@)),
    {
        let mut d = Directives::new();
        let ghost views = attr_views(attrs@);
        for attr in it: attrs
            invariant
                it.seq() == attrs@,
                views == attr_views(attrs@),
                d@ == triage(views.take(it.index() as int)),
        {
            proof {
                assert(views.take(it.index() + 1).drop_last() =~= views.take(it.index() as int));
            }
            d.add(attr);
        }
        proof {
            assert(views.take(attrs@.len() as int) =~= views);
        }
        d
    }
}

/// The attribute names that the special tags read are different names.
proof fn lemma_attr_names_differ()
    ensures
        "name"@ != "is"@,
        "name"@ != "data"@,
        "is"@ != "data"@,
        "module"@ != "src"@,
{
    reveal_strlit("name");
    reveal_strlit("is");
    reveal_strlit("data");
    reveal_strlit("module");
    reveal_strlit("src");
    assert("name"@.len() == 4);
    assert("is"@.len() == 2);
    assert("name"@[0] == 'n');
    assert("data"@[0] == 'd');
    assert("module"@.len() == 6);
    assert("src"@.len() == 3);
}

/// The template that an `import` or `include` names.
fn take_source_path(attrs: Vec<TmplAttr>) -> (r: Option<String>)
    ensures
        opt_str_view(r) == source_path(attr_views(attrs@)),
{
    let mut path: Option<String> = None;
    let ghost views = attr_views(attrs@);
    for attr in it: attrs
        invariant
            it.seq() == attrs@,
            views == attr_views(attrs@),
            opt_str_view(path) == source_path(views.take(it.index() as int)),
    {
        proof {
            assert(views.take(it.index() + 1).drop_last() =~= views.take(it.index() as int));
        }
        if attr.is_property("src") && path.is_none() {
            let p = attr.value.static_value();
            path = Some(strip_suffix(p.as_str(), ".wxml"));
        }
    }
    proof {
        assert(views.take(attrs@.len() as int) =~= views);
    }
    path
}

/// The name, the target and the data of a `template` element: of each, the
/// first that the attributes give.
fn take_template_attrs(attrs: Vec<TmplAttr>) -> (r: (
    Option<String>,
    Option<TmplAttrValue>,
    Option<TmplAttrValue>,
))
    ensures
        opt_str_view(r.0) == template_name(attr_views(attrs@)),
        opt_value_view(r.1) == first_property(attr_views(attrs@), "is"@),
        opt_value_view(r.2) == first_property(attr_views(attrs@), "data"@),
{
    let mut name: Option<String> = None;
    let mut target: Option<TmplAttrValue> = None;
    let mut data: Option<TmplAttrValue> = None;
    let ghost views = attr_views(attrs@);
    for attr in it: attrs
        invariant
            it.seq() == attrs@,
            views == attr_views(attrs@),
            opt_str_view(name) == template_name(views.take(it.index() as int)),
            opt_value_view(target) == first_property(views.take(it.index() as int), "is"@),
            opt_value_view(data) == first_property(views.take(it.index() as int), "data"@),
    {
        proof {
            assert(views.take(it.index() + 1).drop_last() =~= views.take(it.index() as int));
            lemma_attr_names_differ();
        }
        if attr.is_property("name") {
            if name.is_none() {
                name = Some(attr.value.static_value());
            }
        } else if attr.is_property("is") {
            if target.is_none() {
                target = Some(attr.value);
            }
        } else if attr.is_property("data") {
            if data.is_none() {
                data = Some(attr.value);
            }
        }
    }
    proof {
        assert(views.take(attrs@.len() as int) =~= views);
    }
    (name, target, data)
}

/// The data of a template reference as an object.
fn normalize_template_data(data: Option<TmplAttrValue>) -> (r: TmplAttrValue)
    ensures
        r@ == normalize_data(opt_value_view(data)),
{
    match data {
        Some(TmplAttrValue::Dynamic { expr, binding_map_keys }) => {
            let expr = match *expr {
                TmplExpr::Ident(s) => {
                    let key = s.clone();
                    let mut items: Vec<(Option<String>, TmplExpr)> = Vec::new();
                    items.push((Some(key), TmplExpr::Ident(s)));
                    proof {
                        assert(entry_views(items@) =~= seq![(Some(s@), ExprView::Ident(s@))]);
                    }
                    TmplExpr::LitObj(items)
                },
                TmplExpr::LitObj(x) => TmplExpr::LitObj(x),
                _ => {
                    let items: Vec<(Option<String>, TmplExpr)> = Vec::new();
                    proof {
                        assert(entry_views(items@) =~= Seq::empty());
                    }
                    TmplExpr::LitObj(items)
                },
            };
            TmplAttrValue::Dynamic { expr: Box::new(expr), binding_map_keys }
        },
        _ => {
            let items: Vec<(Option<String>, TmplExpr)> = Vec::new();
            proof {
                assert(entry_views(items@) =~= Seq::empty());
            }
            TmplAttrValue::Dynamic { expr: Box::new(TmplExpr::LitObj(items)), binding_map_keys: None }
        },
    }
}

/// The role of a `slot` element with the given attributes.
fn take_slot_type(attrs: Vec<TmplAttr>) -> (r: TmplVirtualType)
    ensures
        r@ == slot_type(attr_views(attrs@)),
{
    let mut name = TmplAttrValue::Static(String::new());
    let mut props: Option<Vec<TmplAttr>> = None;
    let ghost views = attr_views(attrs@);
    for attr in it: attrs
        invariant
            it.seq() == attrs@,
            views == attr_views(attrs@),
            name@ == match last_property(views.take(it.index() as int), "name"@) {
                Some(v) => v,
                None => AttrValueView::Static(Seq::empty()),
            },
            match props {
                Some(p) => p@.len() > 0 && attr_views(p@) == slot_props(
                    views.take(it.index() as int),
                ),
                None => slot_props(views.take(it.index() as int)).len() == 0,
            },
    {
        proof {
            assert(views.take(it.index() + 1).drop_last() =~= views.take(it.index() as int));
        }
        if attr.is_property("name") {
            name = attr.value;
        } else if attr.is_any_property() {
            let mut arr = match props {
                Some(arr) => arr,
                None => Vec::new(),
            };
            let ghost before = attr_views(arr@);
            proof {
                assert(before =~= slot_props(views.take(it.index() as int)));
            }
            arr.push(attr);
            proof {
                assert(attr_views(arr@) =~= before.push(attr@));
            }
            props = Some(arr);
        }
    }
    proof {
        assert(views.take(attrs@.len() as int) =~= views);
    }
    TmplVirtualType::Slot { name, props }
}

/// The script module that a `wxs` element with the given attributes and
/// children declares.
fn take_script(attrs: Vec<TmplAttr>, children: &Vec<TmplNode>) -> (r: TmplScript)
    ensures
        r@ == script_of(attr_views(attrs@), node_views(children@)),
{
    let mut module_name = String::new();
    let mut src = String::new();
    let ghost views = attr_views(attrs@);
    for attr in it: attrs
        invariant
            it.seq() == attrs@,
            views == attr_views(attrs@),
            module_name@ == text_or_empty(
                last_static_property(views.take(it.index() as int), "module"@),
            ),
            src@ == match last_static_property(views.take(it.index() as int), "src"@) {
                Some(s) => crate::utils::without_suffix(s, ".wxs"@),
                None => Seq::empty(),
            },
    {
        proof {
            assert(views.take(it.index() + 1).drop_last() =~= views.take(it.index() as int));
            lemma_attr_names_differ();
        }
        if attr.is_property("module") {
            match attr.value {
                TmplAttrValue::Dynamic { .. } => {},
                TmplAttrValue::Static(s) => {
                    module_name = s;
                },
            }
        } else if attr.is_property("src") {
            match attr.value {
                TmplAttrValue::Dynamic { .. } => {},
                TmplAttrValue::Static(s) => {
                    src = strip_suffix(s.as_str(), ".wxs");
                },
            }
        }
    }
    proof {
        assert(views.take(attrs@.len() as int) =~= views);
    }
    if src.as_str().is_empty() {
        let content = if children.len() > 0 {
            match &children[0] {
                TmplNode::TextNode(TmplTextNode::Static(x)) => x.clone(),
                _ => String::new(),
            }
        } else {
            String::new()
        };
        TmplScript::Inline { module_name, content }
    } else {
        TmplScript::GlobalRef { module_name, rel_path: src }
    }
}

/// Puts the element into the role `virtual_type`.
fn wrap_virtual_elem(elem: TmplElement, virtual_type: TmplVirtualType) -> (r: TmplElement)
    ensures
        r@ == wrap(elem@, virtual_type@),
{
    let mut elem = elem;
    match elem.virtual_type {
        TmplVirtualType::Pure => {
            elem.virtual_type = virtual_type;
            elem
        },
        _ => {
            let mut p = TmplElement::new("block", virtual_type);
            p.append_element(elem);
            p
        },
    }
}

/// A copy of a list of slot values.
fn clone_pairs(v: &Vec<(String, String)>) -> (r: Vec<(String, String)>)
    ensures
        pair_views(r@) == pair_views(v@),
{
    let mut out: Vec<(String, String)> = Vec::new();
    let mut i: usize = 0;
    while i < v.len()
        invariant
            i <= v.len(),
            pair_views(out@) == pair_views(v@).take(i as int),
        decreases v.len() - i,
    {
        let ghost before = pair_views(out@);
        out.push((v[i].0.clone(), v[i].1.clone()));
        proof {
            assert(pair_views(out@) =~= before.push((v@[i as int].0@, v@[i as int].1@)));
            assert(pair_views(v@).take(i + 1) =~= pair_views(v@).take(i as int).push(
                pair_views(v@)[i as int],
            ));
        }
        i = i + 1;
    }
    proof {
        assert(pair_views(v@).take(v@.len() as int) =~= pair_views(v@));
    }
    out
}

/// Gives every element among the nodes the slot values `slot_values`.
fn provide_slot_values(children: &mut Vec<TmplNode>, slot_values: &Vec<(String, String)>)
    ensures
        node_views(final(children)@) == provide_slots(
            node_views(old(children)@),
            pair_views(slot_values@),
        ),
{
    let ghost olds = node_views(children@);
    let ghost target = provide_slots(olds, pair_views(slot_values@));
    let mut i: usize = 0;
    while i < children.len()
        invariant
            i <= children.len(),
            children.len() == olds.len(),
            target == provide_slots(olds, pair_views(slot_values@)),
            forall|j: int| 0 <= j < i ==> #[trigger] node_views(children@)[j] == target[j],
            forall|j: int| i <= j < children.len() ==> #[trigger] node_views(children@)[j] == olds[j],
        decreases children.len() - i,
    {
        let ghost before = node_views(children@);
        let ghost old_node = children@[i as int];
        match &mut children[i] {
            TmplNode::TextNode(..) => {},
            TmplNode::Element(x) => {
                x.slot_values = clone_pairs(slot_values);
            },
        }
        proof {
            assert(before[i as int] == old_node.model());
            assert(before[i as int] == olds[i as int]);
            let new_node = children@[i as int];
            match old_node {
                TmplNode::TextNode(t) => {
                    assert(new_node == old_node);
                },
                TmplNode::Element(e) => {
                    assert(new_node is Element);
                    assert(new_node->Element_0.model() == (ElementView {
                        slot_values: pair_views(slot_values@),
                        ..e.model()
                    }));
                },
            }
            assert(node_views(children@)[i as int] == new_node.model());
            assert(node_views(children@)[i as int] == target[i as int]);
            assert forall|j: int| 0 <= j < i + 1 implies #[trigger] node_views(children@)[j]
                == target[j] by {
                if j < i {
                    assert(node_views(children@)[j] == before[j]);
                }
            }
            assert forall|j: int| i + 1 <= j < children.len() implies #[trigger] node_views(
                children@,
            )[j] == olds[j] by {
                assert(node_views(children@)[j] == before[j]);
            }
        }
        i = i + 1;
    }
    proof {
        assert(node_views(children@) =~= target);
    }
}

/// The views of two lists of nodes, one after the other, are the views of
/// the joined list.
proof fn lemma_node_views_concat(a: Seq<TmplNode>, b: Seq<TmplNode>)
    ensures
        node_views(a + b) == node_views(a) + node_views(b),
{
    assert(node_views(a + b) =~= node_views(a) + node_views(b));
}

/// The views of a list of nodes with one more node at its end.
proof fn lemma_node_views_push(a: Seq<TmplNode>, n: TmplNode)
    ensures
        node_views(a.push(n)) == node_views(a).push(n@),
{
    assert(node_views(a.push(n)) =~= node_views(a).push(n@));
}

/// Whether the last of `out` is the group of a conditional chain.
fn last_is_if_group(out: &Vec<TmplNode>) -> (r: bool)
    ensures
        r == crate::directives::ends_with_if_group(node_views(out@)),
{
    let n = out.len();
    if n == 0 {
        return false;
    }
    assert(node_views(out@).last() == out@[n - 1].model());
    match &out[n - 1] {
        TmplNode::Element(last) => match last.virtual_type {
            TmplVirtualType::IfGroup => true,
            _ => false,
        },
        TmplNode::TextNode(_) => false,
    }
}

/// Places a converted element after the siblings `out`, as its directives
/// say.
fn place_converted(
    elem: TmplElement,
    attr_if: IfType,
    attr_for: Option<TmplAttrValue>,
    attr_for_item: Option<String>,
    attr_for_index: Option<String>,
    attr_key: Option<String>,
    slot_values: Vec<(String, String)>,
    out: &mut Vec<TmplNode>,
    Ghost(d): Ghost<DirectivesView>,
)
    requires
        d.attr_if == attr_if@,
        d.attr_for == opt_value_view(attr_for),
        d.attr_for_item == opt_str_view(attr_for_item),
        d.attr_for_index == opt_str_view(attr_for_index),
        d.attr_key == opt_str_view(attr_key),
        d.slot_values == pair_views(slot_values@),
    ensures
        node_views(final(out)@) == place_element(elem@, d, node_views(old(out)@)),
{
    let ghost olds = node_views(out@);
    let mut elem = elem;
    let chained = match &attr_if {
        IfType::Elif(_) => last_is_if_group(out),
        IfType::Else => last_is_if_group(out),
        _ => false,
    };
    if chained {
        let virtual_type = match attr_if {
            IfType::Elif(cond) => TmplVirtualType::Elif { cond },
            _ => TmplVirtualType::Else,
        };
        let branch = wrap_virtual_elem(elem, virtual_type);
        let n = out.len();
        let ghost old_last = out@[n - 1];
        assert(olds.last() == old_last.model());
        match &mut out[n - 1] {
            TmplNode::Element(last) => {
                last.append_element(branch);
            },
            TmplNode::TextNode(_) => {},
        }
        proof {
            let target = attach_branch(olds, branch@);
            assert(out@[n - 1].model() == target[n - 1]);
            assert forall|j: int| 0 <= j < n implies node_views(out@)[j] == target[j] by {
                if j < n - 1 {
                    assert(node_views(out@)[j] == old(out)@[j].model());
                }
            }
            assert(node_views(out@) =~= target);
        }
        return ;
    }
    let ghost e0 = elem@;
    match attr_if {
        IfType::Absent => {},
        IfType::If(cond) => {
            elem = wrap_virtual_elem(elem, TmplVirtualType::If { cond });
            elem = wrap_virtual_elem(elem, TmplVirtualType::IfGroup);
        },
        IfType::Elif(cond) => {
            elem = wrap_virtual_elem(elem, TmplVirtualType::Elif { cond });
            elem = wrap_virtual_elem(elem, TmplVirtualType::IfGroup);
        },
        IfType::Else => {
            elem = wrap_virtual_elem(elem, TmplVirtualType::Else);
            elem = wrap_virtual_elem(elem, TmplVirtualType::IfGroup);
        },
    }
    if let Some(list) = attr_for {
        let item_name = match attr_for_item {
            Some(s) => s,
            None => "item".to_owned(),
        };
        let index_name = match attr_for_index {
            Some(s) => s,
            None => "index".to_owned(),
        };
        let virtual_type = TmplVirtualType::For { list, item_name, index_name, key: attr_key };
        assert(virtual_type@ == for_type(list@, d));
        elem = wrap_virtual_elem(elem, virtual_type);
    }
    assert(elem@ == wrap_directives(e0, d));
    let is_pure_virtual = match elem.virtual_type {
        TmplVirtualType::Pure => true,
        _ => false,
    };
    if is_pure_virtual && elem.slot.is_none() {
        let mut children = elem.children;
        provide_slot_values(&mut children, &slot_values);
        proof {
            lemma_node_views_concat(out@, children@);
        }
        out.append(&mut children);
    } else {
        elem.slot_values = slot_values;
        proof {
            lemma_node_views_push(out@, TmplNode::Element(elem));
        }
        out.push(TmplNode::Element(elem));
    }
}

/// Converts one node, with all that is below it, and places what comes of
/// it after the siblings `out`.
fn convert_node_into(
    node: TmplNode,
    out: &mut Vec<TmplNode>,
    imports: &mut Vec<String>,
    includes: &mut Vec<String>,
    sub_templates: &mut StrMap<TmplElement>,
    scripts: &mut Vec<TmplScript>,
)
    ensures
        node_views(final(out)@) == convert_node(
            node@,
            node_views(old(out)@),
            collected_of(old(imports), old(includes), old(sub_templates), old(scripts)),
        ).0,
        collected_of(final(imports), final(includes), final(sub_templates), final(scripts))
            == convert_node(
            node@,
            node_views(old(out)@),
            collected_of(old(imports), old(includes), old(sub_templates), old(scripts)),
        ).1,
    decreases node,
{
    let ghost olds = node_views(out@);
    let ghost st0 = collected_of(imports, includes, sub_templates, scripts);
    match node {
        TmplNode::TextNode(text_node) => {
            proof {
                lemma_node_views_push(out@, node);
            }
            out.push(TmplNode::TextNode(text_node));
        },
        TmplNode::Element(elem) => {
            let ghost raw = elem@;
            proof {
                assert(decreases_to!(node => elem));
                assert(decreases_to!(elem => elem.children));
            }
            let TmplElement {
                virtual_type,
                tag_name,
                attrs,
                children,
                generics,
                extra_attr,
                slot,
                slot_values,
            } = elem;
            let d = Directives::triage_attrs(attrs);
            let ghost dv = d@;
            let Directives {
                attr_if,
                attr_for,
                attr_for_item,
                attr_for_index,
                attr_key,
                attr_slot,
                slot_values: provided,
                generics: new_generics,
                rest,
            } = d;
            let is_import = tag_name.as_str().eq("import");
            if tag_name.as_str().eq("include") || is_import {
                match take_source_path(rest) {
                    Some(path) => {
                        if is_import {
                            proof {
                                assert(strings_view(imports@.push(path)) =~= strings_view(
                                    imports@,
                                ).push(path@));
                            }
                            imports.push(path);
                        } else {
                            let kept = path.clone();
                            proof {
                                assert(strings_view(includes@.push(kept)) =~= strings_view(
                                    includes@,
                                ).push(path@));
                            }
                            includes.push(kept);
                            let placeholder = TmplElement {
                                virtual_type: TmplVirtualType::Include { path },
                                tag_name,
                                attrs: Vec::new(),
                                children: Vec::new(),
                                generics,
                                extra_attr,
                                slot,
                                slot_values,
                            };
                            proof {
                                assert(attr_views(placeholder.attrs@) =~= Seq::empty());
                                assert(node_views(placeholder.children@) =~= Seq::empty());
                                lemma_node_views_push(out@, TmplNode::Element(placeholder));
                            }
                            out.push(TmplNode::Element(placeholder));
                        }
                    },
                    None => {},
                }
            } else if tag_name.as_str().eq("wxs") {
                let script = take_script(rest, &children);
                proof {
                    assert(script_views(scripts@.push(script)) =~= script_views(scripts@).push(
                        script@,
                    ));
                }
                scripts.push(script);
            } else if tag_name.as_str().eq("template") {
                let (name, target, data) = take_template_attrs(rest);
                let converted = convert_nodes(children, imports, includes, sub_templates, scripts);
                match name {
                    Some(name) => {
                        let defined = TmplElement {
                            virtual_type,
                            tag_name,
                            attrs: Vec::new(),
                            children: converted,
                            generics,
                            extra_attr,
                            slot,
                            slot_values,
                        };
                        proof {
                            assert(attr_views(defined.attrs@) =~= Seq::empty());
                            assert(element_map_view(sub_templates@.insert(name@, defined))
                                =~= element_map_view(sub_templates@).insert(name@, defined@));
                        }
                        sub_templates.insert(name, defined);
                    },
                    None => {
                        let virtual_type = match target {
                            Some(target) => TmplVirtualType::TemplateRef {
                                target,
                                data: normalize_template_data(data),
                            },
                            None => virtual_type,
                        };
                        let prepared = TmplElement {
                            virtual_type,
                            tag_name,
                            attrs: Vec::new(),
                            children: converted,
                            generics: new_generics,
                            extra_attr,
                            slot: attr_slot,
                            slot_values,
                        };
                        proof {
                            assert(attr_views(prepared.attrs@) =~= Seq::empty());
                        }
                        place_converted(
                            prepared,
                            attr_if,
                            attr_for,
                            attr_for_item,
                            attr_for_index,
                            attr_key,
                            provided,
                            out,
                            Ghost(dv),
                        );
                    },
                }
            } else {
                let is_slot = tag_name.as_str().eq("slot");
                let (virtual_type, attrs) = if is_slot {
                    let attrs: Vec<TmplAttr> = Vec::new();
                    proof {
                        assert(attr_views(attrs@) =~= Seq::empty());
                    }
                    (take_slot_type(rest), attrs)
                } else {
                    (virtual_type, rest)
                };
                let converted = convert_nodes(children, imports, includes, sub_templates, scripts);
                let prepared = TmplElement {
                    virtual_type,
                    tag_name,
                    attrs,
                    children: converted,
                    generics: new_generics,
                    extra_attr,
                    slot: attr_slot,
                    slot_values,
                };
                place_converted(
                    prepared,
                    attr_if,
                    attr_for,
                    attr_for_item,
                    attr_for_index,
                    attr_key,
                    provided,
                    out,
                    Ghost(dv),
                );
            }
        },
    }
}

/// Converts a list of sibling nodes, in their order, and returns the
/// siblings that take their place.
fn convert_nodes(
    children: Vec<TmplNode>,
    imports: &mut Vec<String>,
    includes: &mut Vec<String>,
    sub_templates: &mut StrMap<TmplElement>,
    scripts: &mut Vec<TmplScript>,
) -> (out: Vec<TmplNode>)
    ensures
        node_views(out@) == convert_seq(
            node_views(children@),
            Seq::empty(),
            collected_of(old(imports), old(includes), old(sub_templates), old(scripts)),
        ).0,
        collected_of(final(imports), final(includes), final(sub_templates), final(scripts))
            == convert_seq(
            node_views(children@),
            Seq::empty(),
            collected_of(old(imports), old(includes), old(sub_templates), old(scripts)),
        ).1,
    decreases children,
{
    let ghost views = node_views(children@);
    let ghost st0 = collected_of(imports, includes, sub_templates, scripts);
    let mut out: Vec<TmplNode> = Vec::new();
    proof {
        assert(node_views(out@) =~= Seq::empty());
    }
    for node in it: children
        invariant
            it.seq() == children@,
            views == node_views(children@),
            node_views(out@) == convert_seq(views.take(it.index() as int), Seq::empty(), st0).0,
            collected_of(imports, includes, sub_templates, scripts) == convert_seq(
                views.take(it.index() as int),
                Seq::empty(),
                st0,
            ).1,
    {
        proof {
            assert(views.take(it.index() + 1).drop_last() =~= views.take(it.index() as int));
            assert(views.take(it.index() + 1).last() == node@);
            assert(decreases_to!(children => children@));
            assert(decreases_to!(children@ => children@[it.index() as int]));
        }
        convert_node_into(node, &mut out, imports, includes, sub_templates, scripts);
    }
    proof {
        assert(views.take(children@.len() as int) =~= views);
    }
    out
}

/// Converts the children of `parent` from the form in which they were read
/// into structural form, and adds to the four collections what their
/// conversion gathers.
pub fn convert_nodes_directives(
    parent: &mut TmplElement,
    imports: &mut Vec<String>,
    includes: &mut Vec<String>,
    sub_templates: &mut StrMap<TmplElement>,
    scripts: &mut Vec<TmplScript>,
)
    ensures
        final(parent)@ == (ElementView {
            children: crate::directives::convert_children(
                old(parent)@.children,
                collected_of(old(imports), old(includes), old(sub_templates), old(scripts)),
            ).0,
            ..old(parent)@
        }),
        collected_of(final(imports), final(includes), final(sub_templates), final(scripts))
            == crate::directives::convert_children(
            old(parent)@.children,
            collected_of(old(imports), old(includes), old(sub_templates), old(scripts)),
        ).1,
{
    let mut old_children: Vec<TmplNode> = Vec::new();
    std::mem::swap(&mut parent.children, &mut old_children);
    let converted = convert_nodes(old_children, imports, includes, sub_templates, scripts);
    parent.children = converted;
}

/// Converts the directives of a whole template.
pub fn convert_directives(tree: &mut TmplTree)
    ensures
        final(tree)@ == old(tree)@.convert_directives(),
{
    convert_nodes_directives(
        &mut tree.root,
        &mut tree.imports,
        &mut tree.includes,
        &mut tree.sub_templates,
        &mut tree.scripts,
    );
}

/// The name that stands for the scope at position `n`.
pub fn scope_placeholder(n: usize) -> (r: String)
    ensures
        r@ == placeholder(n as nat),
{
    let mut s = String::new();
    s.push('$');
    push_decimal(&mut s, n);
    proof {
        assert(Seq::<char>::empty().push('$') =~= seq!['$']);
    }
    s
}

/// A copy of a list of strings.
fn clone_strings(v: &Vec<String>) -> (r: Vec<String>)
    ensures
        strings_view(r@) == strings_view(v@),
{
    let mut out: Vec<String> = Vec::new();
    let mut i: usize = 0;
    while i < v.len()
        invariant
            i <= v.len(),
            strings_view(out@) == strings_view(v@).take(i as int),
        decreases v.len() - i,
    {
        let ghost before = strings_view(out@);
        out.push(v[i].clone());
        proof {
            assert(strings_view(out@) =~= before.push(v@[i as int]@));
            assert(strings_view(v@).take(i + 1) =~= strings_view(v@).take(i as int).push(
                strings_view(v@)[i as int],
            ));
        }
        i = i + 1;
    }
    proof {
        assert(strings_view(v@).take(v@.len() as int) =~= strings_view(v@));
    }
    out
}

/// Resolves the expression of a dynamic value and records on the value the
/// fields that got an index; where fields are disabled it records nothing.
pub fn prepare_attr_value(
    v: &mut TmplAttrValue,
    bmc: &mut BindingMapCollector,
    scope_names: &Vec<String>,
    modules: &Vec<String>,
    should_disable: bool,
)
    ensures
        final(v)@ == resolve_value(
            old(v)@,
            ctx_of(scope_names, modules, should_disable),
            old(bmc)@,
        ).0,
        final(bmc)@ == resolve_value(
            old(v)@,
            ctx_of(scope_names, modules, should_disable),
            old(bmc)@,
        ).1,
{
    match v {
        TmplAttrValue::Static(_) => {},
        TmplAttrValue::Dynamic { expr, binding_map_keys } => {
            *binding_map_keys = expr.get_binding_map_keys(bmc, scope_names, modules, should_disable);
        },
    }
}

/// Resolves the expression of a text node.
fn prepare_text_node(
    t: &mut TmplTextNode,
    bmc: &mut BindingMapCollector,
    scope_names: &Vec<String>,
    modules: &Vec<String>,
    should_disable: bool,
)
    ensures
        final(t)@ == resolve_text(old(t)@, ctx_of(scope_names, modules, should_disable), old(bmc)@).0,
        final(bmc)@ == resolve_text(
            old(t)@,
            ctx_of(scope_names, modules, should_disable),
            old(bmc)@,
        ).1,
{
    match t {
        TmplTextNode::Static(_) => {},
        TmplTextNode::Dynamic { expr, binding_map_keys } => {
            *binding_map_keys = expr.get_binding_map_keys(bmc, scope_names, modules, should_disable);
        },
    }
}

/// Resolves the values of a list of attributes, the first of them first.
fn prepare_attrs(
    attrs: &mut Vec<TmplAttr>,
    bmc: &mut BindingMapCollector,
    scope_names: &Vec<String>,
    modules: &Vec<String>,
    should_disable: bool,
)
    ensures
        attr_views(final(attrs)@) == resolve_attrs(
            attr_views(old(attrs)@),
            ctx_of(scope_names, modules, should_disable),
            old(bmc)@,
        ).0,
        final(bmc)@ == resolve_attrs(
            attr_views(old(attrs)@),
            ctx_of(scope_names, modules, should_disable),
            old(bmc)@,
        ).1,
{
    let ghost cx = ctx_of(scope_names, modules, should_disable);
    let ghost olds = attr_views(attrs@);
    let ghost b0 = bmc@;
    let mut i: usize = 0;
    proof {
        assert(attr_views(attrs@).take(0) =~= Seq::empty());
    }
    while i < attrs.len()
        invariant
            i <= attrs.len(),
            attrs.len() == olds.len(),
            cx == ctx_of(scope_names, modules, should_disable),
            forall|j: int| i <= j < attrs.len() ==> #[trigger] attr_views(attrs@)[j] == olds[j],
            attr_views(attrs@).take(i as int) == resolve_attrs(olds.take(i as int), cx, b0).0,
            bmc@ == resolve_attrs(olds.take(i as int), cx, b0).1,
        decreases attrs.len() - i,
    {
        let ghost before = attr_views(attrs@);
        assert(before[i as int] == olds[i as int]);
        prepare_attr_value(&mut attrs[i].value, bmc, scope_names, modules, should_disable);
        proof {
            assert(olds.take(i + 1).drop_last() =~= olds.take(i as int));
            assert(attr_views(attrs@).take(i + 1) =~= before.take(i as int).push(
                attr_views(attrs@)[i as int],
            ));
            assert forall|j: int| i + 1 <= j < attrs.len() implies #[trigger] attr_views(attrs@)[j]
                == olds[j] by {
                assert(attr_views(attrs@)[j] == before[j]);
            }
        }
        i = i + 1;
    }
    proof {
        assert(attr_views(attrs@).take(i as int) =~= attr_views(attrs@));
        assert(olds.take(i as int) =~= olds);
    }
}

/// Resolves the expressions of a role. For a loop it gives the item and the
/// index their placeholders and returns the scopes inside the loop.
fn prepare_virtual_type(
    vt: &mut TmplVirtualType,
    bmc: &mut BindingMapCollector,
    scope_names: &Vec<String>,
    modules: &Vec<String>,
) -> (r: Option<Vec<String>>)
    ensures
        final(vt)@ == resolve_virtual_type(old(vt)@, ctx_of(scope_names, modules, true), old(bmc)@).0,
        final(bmc)@ == resolve_virtual_type(
            old(vt)@,
            ctx_of(scope_names, modules, true),
            old(bmc)@,
        ).1,
        match r {
            Some(s) => strings_view(s@) == loop_scopes(old(vt)@, strings_view(scope_names@)),
            None => strings_view(scope_names@) == loop_scopes(old(vt)@, strings_view(scope_names@)),
        },
{
    match vt {
        TmplVirtualType::Plain => None,
        TmplVirtualType::Pure => None,
        TmplVirtualType::IfGroup => None,
        TmplVirtualType::If { cond } => {
            prepare_attr_value(cond, bmc, scope_names, modules, true);
            None
        },
        TmplVirtualType::Elif { cond } => {
            prepare_attr_value(cond, bmc, scope_names, modules, true);
            None
        },
        TmplVirtualType::Else => None,
        TmplVirtualType::For { list, item_name, index_name, key: _ } => {
            prepare_attr_value(list, bmc, scope_names, modules, true);
            let mut s = clone_strings(scope_names);
            let ghost s0 = strings_view(s@);
            let mut new_item_name = scope_placeholder(s.len());
            std::mem::swap(item_name, &mut new_item_name);
            s.push(new_item_name);
            let mut new_index_name = scope_placeholder(s.len());
            std::mem::swap(index_name, &mut new_index_name);
            s.push(new_index_name);
            proof {
                assert(strings_view(s@) =~= s0.push(new_item_name@).push(new_index_name@));
            }
            Some(s)
        },
        TmplVirtualType::TemplateRef { target, data } => {
            prepare_attr_value(target, bmc, scope_names, modules, true);
            prepare_attr_value(data, bmc, scope_names, modules, true);
            None
        },
        TmplVirtualType::Include { path: _ } => None,
        TmplVirtualType::Slot { name, props } => {
            prepare_attr_value(name, bmc, scope_names, modules, true);
            match props {
                Some(props) => {
                    prepare_attrs(props, bmc, scope_names, modules, true);
                },
                None => {},
            }
            None
        },
    }
}

/// Opens one scope for each slot value: moves the name by which the subtree
/// reads it to the end of `scopes` and leaves the placeholder of that scope
/// in its place.
fn bind_slot_values(slot_values: &mut Vec<(String, String)>, scopes: &mut Vec<String>)
    ensures
        pair_views(final(slot_values)@) == bound_slot_values(
            pair_views(old(slot_values)@),
            old(scopes)@.len(),
        ),
        strings_view(final(scopes)@) == strings_view(old(scopes)@) + provided_names(
            pair_views(old(slot_values)@),
        ),
{
    let ghost olds = pair_views(slot_values@);
    let ghost base = scopes@.len();
    let ghost s0 = strings_view(scopes@);
    let mut i: usize = 0;
    proof {
        assert(strings_view(scopes@) =~= s0 + provided_names(olds).take(0));
    }
    while i < slot_values.len()
        invariant
            i <= slot_values.len(),
            slot_values.len() == olds.len(),
            scopes@.len() == base + i,
            strings_view(scopes@) == s0 + provided_names(olds).take(i as int),
            forall|j: int| i <= j < slot_values.len() ==> #[trigger] pair_views(slot_values@)[j] == olds[j],
            forall|j: int|
                0 <= j < i ==> #[trigger] pair_views(slot_values@)[j] == bound_slot_values(
                    olds,
                    base,
                )[j],
        decreases slot_values.len() - i,
    {
        let ghost before = pair_views(slot_values@);
        let ghost before_scopes = strings_view(scopes@);
        assert(before[i as int] == olds[i as int]);
        let mut name = scope_placeholder(scopes.len());
        std::mem::swap(&mut slot_values[i].1, &mut name);
        scopes.push(name);
        proof {
            assert(strings_view(scopes@) =~= before_scopes.push(name@));
            assert(provided_names(olds).take(i + 1) =~= provided_names(olds).take(i as int).push(
                olds[i as int].1,
            ));
            assert(strings_view(scopes@) =~= s0 + provided_names(olds).take(i + 1));
            assert forall|j: int| i + 1 <= j < slot_values.len() implies #[trigger] pair_views(
                slot_values@,
            )[j] == olds[j] by {
                assert(pair_views(slot_values@)[j] == before[j]);
            }
            assert forall|j: int| 0 <= j < i + 1 implies #[trigger] pair_views(slot_values@)[j]
                == bound_slot_values(olds, base)[j] by {
                if j < i {
                    assert(pair_views(slot_values@)[j] == before[j]);
                }
            }
        }
        i = i + 1;
    }
    proof {
        assert(pair_views(slot_values@) =~= bound_slot_values(olds, base));
        assert(provided_names(olds).take(i as int) =~= provided_names(olds));
    }
}

/// Resolves one element: its role, then its attributes, its slot target and
/// its children, these three with the scopes that the element opens.
fn resolve_one_element(
    elem: &mut TmplElement,
    bmc: &mut BindingMapCollector,
    scope_names: &Vec<String>,
    modules: &Vec<String>,
    should_disable: bool,
)
    ensures
        final(elem)@ == resolve_element(
            old(elem)@,
            ctx_of(scope_names, modules, should_disable),
            old(bmc)@,
        ).0,
        final(bmc)@ == resolve_element(
            old(elem)@,
            ctx_of(scope_names, modules, should_disable),
            old(bmc)@,
        ).1,
    decreases old(elem).children, 1int,
{
    let ghost e0 = elem@;
    let ghost cx = ctx_of(scope_names, modules, should_disable);
    let should_disable = match &elem.virtual_type {
        TmplVirtualType::Plain => should_disable,
        _ => true,
    };
    let mut new_scope_names = prepare_virtual_type(
        &mut elem.virtual_type,
        bmc,
        scope_names,
        modules,
    );
    if elem.slot_values.len() > 0 {
        let mut s = match new_scope_names {
            Some(s) => s,
            None => clone_strings(scope_names),
        };
        bind_slot_values(&mut elem.slot_values, &mut s);
        new_scope_names = Some(s);
    } else {
        proof {
            assert(pair_views(elem.slot_values@) =~= bound_slot_values(
                e0.slot_values,
                loop_scopes(e0.virtual_type, cx.scopes).len(),
            ));
            assert(loop_scopes(e0.virtual_type, cx.scopes) + provided_names(e0.slot_values)
                =~= loop_scopes(e0.virtual_type, cx.scopes));
        }
    }
    let scope_names_ref = match &new_scope_names {
        Some(s) => s,
        None => scope_names,
    };
    assert(ctx_of(scope_names_ref, modules, should_disable) == inner_ctx(e0, cx));
    prepare_attrs(&mut elem.attrs, bmc, scope_names_ref, modules, should_disable);
    match &mut elem.slot {
        Some(slot) => {
            prepare_attr_value(slot, bmc, scope_names_ref, modules, should_disable);
        },
        None => {},
    }
    prepare_node_expr_in_tree(elem, bmc, scope_names_ref, modules, should_disable);
}

/// Resolves the expressions in the children of `parent` and in all that is
/// below them. `scope_names` holds the names that are bound around the
/// children, the outermost first, and `modules` the names of the script
/// modules; with `should_disable` the fields met are disabled.
pub fn prepare_node_expr_in_tree(
    parent: &mut TmplElement,
    bmc: &mut BindingMapCollector,
    scope_names: &Vec<String>,
    modules: &Vec<String>,
    should_disable: bool,
)
    ensures
        final(parent)@ == (ElementView {
            children: resolve_nodes(
                old(parent)@.children,
                ctx_of(scope_names, modules, should_disable),
                old(bmc)@,
            ).0,
            ..old(parent)@
        }),
        final(bmc)@ == resolve_nodes(
            old(parent)@.children,
            ctx_of(scope_names, modules, should_disable),
            old(bmc)@,
        ).1,
    decreases old(parent).children, 0int,
{
    let ghost cx = ctx_of(scope_names, modules, should_disable);
    let ghost old_children = parent.children;
    let ghost olds = node_views(parent.children@);
    let ghost b0 = bmc@;
    let mut i: usize = 0;
    proof {
        assert(node_views(parent.children@).take(0) =~= Seq::empty());
    }
    while i < parent.children.len()
        invariant
            i <= parent.children.len(),
            parent.children.len() == olds.len(),
            old_children == old(parent).children,
            olds == node_views(old_children@),
            cx == ctx_of(scope_names, modules, should_disable),
            *parent == (TmplElement { children: parent.children, ..*old(parent) }),
            forall|j: int| i <= j < parent.children.len() ==> #[trigger] parent.children@[j] == old_children@[j],
            node_views(parent.children@).take(i as int) == resolve_nodes(
                olds.take(i as int),
                cx,
                b0,
            ).0,
            bmc@ == resolve_nodes(olds.take(i as int), cx, b0).1,
        decreases parent.children.len() - i,
    {
        let ghost before = node_views(parent.children@);
        let ghost before_nodes = parent.children@;
        let ghost b1 = bmc@;
        match &mut parent.children[i] {
            TmplNode::TextNode(text_node) => {
                prepare_text_node(text_node, bmc, scope_names, modules, should_disable);
            },
            TmplNode::Element(elem) => {
                proof {
                    assert(decreases_to!(old_children => old_children@));
                    assert(decreases_to!(old_children@ => old_children@[i as int]));
                    assert(decreases_to!(old_children@[i as int] => old_children@[i as int]->Element_0));
                    assert(decreases_to!(old_children@[i as int]->Element_0 => old_children@[i as int]->Element_0.children));
                }
                resolve_one_element(elem, bmc, scope_names, modules, should_disable);
            },
        }
        proof {
            let old_node = before_nodes[i as int];
            let new_node = parent.children@[i as int];
            assert(old_node == old_children@[i as int]);
            match old_node {
                TmplNode::TextNode(t) => {
                    assert(new_node is TextNode);
                    assert(new_node->TextNode_0@ == resolve_text(t@, cx, b1).0);
                },
                TmplNode::Element(e) => {
                    assert(new_node is Element);
                    assert(new_node->Element_0@ == resolve_element(e@, cx, b1).0);
                },
            }
            assert(new_node.model() == crate::scopes::resolve_node(old_node.model(), cx, b1).0);
            assert(bmc@ == crate::scopes::resolve_node(old_node.model(), cx, b1).1);
            assert(olds[i as int] == old_node.model());
            assert(olds.take(i + 1).drop_last() =~= olds.take(i as int));
            assert(olds.take(i + 1).last() == old_node.model());
            assert(node_views(parent.children@)[i as int] == new_node.model());
            assert forall|j: int| 0 <= j < i implies node_views(parent.children@)[j] == before[j] by {
                assert(parent.children@[j] == before_nodes[j]);
            }
            assert(node_views(parent.children@).take(i + 1) =~= before.take(i as int).push(
                node_views(parent.children@)[i as int],
            ));
        }
        i = i + 1;
    }
    proof {
        assert(node_views(parent.children@).take(i as int) =~= node_views(parent.children@));
        assert(olds.take(i as int) =~= olds);
    }
}

/// The names of the script modules of a template, in the order of their
/// declaration.
fn script_module_names(scripts: &Vec<TmplScript>) -> (r: Vec<String>)
    ensures
        strings_view(r@) == module_names(script_views(scripts@)),
{
    let mut out: Vec<String> = Vec::new();
    let ghost target = module_names(script_views(scripts@));
    let mut i: usize = 0;
    while i < scripts.len()
        invariant
            i <= scripts.len(),
            target == module_names(script_views(scripts@)),
            strings_view(out@) == target.take(i as int),
        decreases scripts.len() - i,
    {
        let ghost before = strings_view(out@);
        let name = match &scripts[i] {
            TmplScript::Inline { module_name, .. } => module_name.clone(),
            TmplScript::GlobalRef { module_name, .. } => module_name.clone(),
        };
        out.push(name);
        proof {
            assert(strings_view(out@) =~= before.push(name@));
            assert(target.take(i + 1) =~= target.take(i as int).push(target[i as int]));
        }
        i = i + 1;
    }
    proof {
        assert(target.take(scripts@.len() as int) =~= target);
    }
    out
}

/// Resolves the expressions of a whole template. The tree of the template
/// fills the template's binding map. Every sub-template is resolved by
/// itself, against a binding map of its own and with all its fields
/// disabled. The names of the script modules are left as they are.
pub fn prepare_expr_in_tree(tree: &mut TmplTree)
    ensures
        final(tree)@ == old(tree)@.prepare_expr(),
{
    let modules = script_module_names(&tree.scripts);
    let scope_names: Vec<String> = Vec::new();
    let ghost names = module_names(old(tree)@.scripts);
    proof {
        assert(strings_view(scope_names@) =~= Seq::empty());
    }
    prepare_node_expr_in_tree(
        &mut tree.root,
        &mut tree.binding_map_collector,
        &scope_names,
        &modules,
        false,
    );
    let ghost olds = old(tree).sub_templates@;
    let ghost mid = *tree;
    let n = tree.sub_templates.len();
    let ghost keys = tree.sub_templates.keys();
    let mut i: usize = 0;
    while i < n
        invariant
            i <= n,
            n == keys.len(),
            keys == tree.sub_templates.keys(),
            tree.sub_templates.keys_match(),
            names == module_names(old(tree)@.scripts),
            strings_view(modules@) == names,
            strings_view(scope_names@) == Seq::<Seq<char>>::empty(),
            tree.sub_templates@.dom() == olds.dom(),
            forall|j: int|
                0 <= j < i ==> (#[trigger] tree.sub_templates@[keys[j]])@ == resolve_sub_template(
                    olds[keys[j]]@,
                    names,
                ),
            forall|j: int| i <= j < n ==> #[trigger] tree.sub_templates@[keys[j]] == olds[keys[j]],
            *tree == (TmplTree { sub_templates: tree.sub_templates, ..mid }),
        decreases n - i,
    {
        let ghost before = tree.sub_templates@;
        let mut tmpl = tree.sub_templates.replace_value_at(i, TmplElement::new("", TmplVirtualType::Plain));
        let mut own = BindingMapCollector::new();
        prepare_node_expr_in_tree(&mut tmpl, &mut own, &scope_names, &modules, true);
        let ghost resolved = tmpl;
        let _ = tree.sub_templates.replace_value_at(i, tmpl);
        let len = tree.sub_templates.len();
        proof {
            assert(tree.sub_templates@ =~= before.insert(keys[i as int], resolved));
            assert(tree.sub_templates@.dom() =~= olds.dom());
            assert forall|j: int| 0 <= j < i + 1 implies (#[trigger] tree.sub_templates@[keys[j]])@
                == resolve_sub_template(olds[keys[j]]@, names) by {
                if j < i {
                    assert(keys[j] != keys[i as int]);
                    assert(tree.sub_templates@[keys[j]] == before[keys[j]]);
                }
            }
            assert forall|j: int| i + 1 <= j < n implies #[trigger] tree.sub_templates@[keys[j]]
                == olds[keys[j]] by {
                assert(keys[i as int] != keys[j]);
                assert(tree.sub_templates@[keys[j]] == before[keys[j]]);
            }
        }
        i = i + 1;
    }
    proof {
        let target = old(tree)@.sub_templates.map_values(
            |e: ElementView| resolve_sub_template(e, names),
        );
        assert forall|k: Seq<char>| tree@.sub_templates.contains_key(k) implies #[trigger] tree@.sub_templates[k]
            == target[k] by {
            assert(tree.sub_templates.keys().contains(k));
            let j = choose|j: int| 0 <= j < keys.len() && keys[j] == k;
            assert(tree.sub_templates@[keys[j]]@ == resolve_sub_template(olds[keys[j]]@, names));
        }
        assert(tree@.sub_templates =~= target);
    }
}

} // verus!
