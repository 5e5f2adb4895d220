//! The element tree of a template: elements, attributes and text.

use vstd::prelude::*;
use crate::binding_map::BindingMapKeys;
use crate::expr::{ExprView, TmplExpr};
use crate::str_map::StrMap;
use crate::utils::{
    ascii_lowercase, camel_from, chars_of, dash_to_camel, find_char, first_position, matches_at,
    starts_with, string_of, to_ascii_lowercase,
};

verus! {

/// One element of a template, with what it holds.
#[derive(Debug, PartialEq)]
pub struct TmplElement {
    pub virtual_type: TmplVirtualType,
    pub tag_name: String,
    pub attrs: Vec<TmplAttr>,
    pub children: Vec<TmplNode>,
    pub generics: Option<StrMap<String>>,
    pub extra_attr: Option<StrMap<String>>,
    pub slot: Option<TmplAttrValue>,
    /// The slot values that the element captures: the name under which the
    /// slot offers each, and the name by which the element's subtree reads it.
    pub slot_values: Vec<(String, String)>,
}

/// The structural role of an element.
#[derive(Debug, PartialEq)]
pub enum TmplVirtualType {
    /// An ordinary tag.
    Plain,
    /// A transparent group.
    Pure,
    For { list: TmplAttrValue, item_name: String, index_name: String, key: Option<String> },
    /// Holds the branches of one conditional chain.
    IfGroup,
    If { cond: TmplAttrValue },
    Elif { cond: TmplAttrValue },
    Else,
    TemplateRef { target: TmplAttrValue, data: TmplAttrValue },
    Include { path: String },
    Slot { name: TmplAttrValue, props: Option<Vec<TmplAttr>> },
}

/// One attribute of an element.
#[derive(Debug, PartialEq)]
pub struct TmplAttr {
    pub kind: TmplAttrKind,
    pub value: TmplAttrValue,
}

/// What an attribute is, by its name.
#[derive(Debug, PartialEq)]
pub enum TmplAttrKind {
    WxDirective { name: String },
    Generic { name: String },
    Slot,
    SlotProperty { name: String },
    Id,
    Class,
    Style,
    PropertyOrExternalClass { name: String },
    ModelProperty { name: String },
    ChangeProperty { name: String },
    WorkletProperty { name: String },
    Data { name: String },
    Mark { name: String },
    Event { capture: bool, catch: bool, mut_bind: bool, name: String },
}

/// The value of an attribute: plain characters, or an expression with the
/// fields that it was found to depend on.
#[derive(Debug, PartialEq)]
pub enum TmplAttrValue {
    Static(String),
    Dynamic { expr: Box<TmplExpr>, binding_map_keys: Option<BindingMapKeys> },
}

/// A script module that a template declares.
#[derive(Debug, PartialEq)]
pub enum TmplScript {
    Inline { module_name: String, content: String },
    GlobalRef { module_name: String, rel_path: String },
}

/// A child of an element.
#[derive(Debug, PartialEq)]
pub enum TmplNode {
    TextNode(TmplTextNode),
    Element(TmplElement),
}

/// A text between tags: plain characters, or an expression with the fields
/// that it was found to depend on.
#[derive(Debug, PartialEq)]
pub enum TmplTextNode {
    Static(String),
    Dynamic { expr: Box<TmplExpr>, binding_map_keys: Option<BindingMapKeys> },
}

/// The mathematical content of a [`TmplAttrKind`].
pub enum AttrKindView {
    WxDirective { name: Seq<char> },
    Generic { name: Seq<char> },
    Slot,
    SlotProperty { name: Seq<char> },
    Id,
    Class,
    Style,
    PropertyOrExternalClass { name: Seq<char> },
    ModelProperty { name: Seq<char> },
    ChangeProperty { name: Seq<char> },
    WorkletProperty { name: Seq<char> },
    Data { name: Seq<char> },
    Mark { name: Seq<char> },
    Event { capture: bool, catch: bool, mut_bind: bool, name: Seq<char> },
}

/// The mathematical content of a [`TmplAttrValue`].
pub enum AttrValueView {
    Static(Seq<char>),
    Dynamic { expr: ExprView, binding_map_keys: Option<Seq<(Seq<char>, usize)>> },
}

/// The mathematical content of a [`TmplAttr`].
pub struct AttrView {
    pub kind: AttrKindView,
    pub value: AttrValueView,
}

/// The mathematical content of a [`TmplVirtualType`].
pub enum VirtualTypeView {
    Plain,
    Pure,
    For { list: AttrValueView, item_name: Seq<char>, index_name: Seq<char>, key: Option<Seq<char>> },
    IfGroup,
    If { cond: AttrValueView },
    Elif { cond: AttrValueView },
    Else,
    TemplateRef { target: AttrValueView, data: AttrValueView },
    Include { path: Seq<char> },
    Slot { name: AttrValueView, props: Option<Seq<AttrView>> },
}

/// The mathematical content of a [`TmplTextNode`].
pub enum TextView {
    Static(Seq<char>),
    Dynamic { expr: ExprView, binding_map_keys: Option<Seq<(Seq<char>, usize)>> },
}

/// The mathematical content of a [`TmplNode`].
pub enum NodeView {
    TextNode(TextView),
    Element(ElementView),
}

/// The mathematical content of a [`TmplElement`].
pub struct ElementView {
    pub virtual_type: VirtualTypeView,
    pub tag_name: Seq<char>,
    pub attrs: Seq<AttrView>,
    pub children: Seq<NodeView>,
    pub generics: Option<Map<Seq<char>, Seq<char>>>,
    pub extra_attr: Option<Map<Seq<char>, Seq<char>>>,
    pub slot: Option<AttrValueView>,
    pub slot_values: Seq<(Seq<char>, Seq<char>)>,
}

/// The mathematical content of a [`TmplScript`].
pub enum ScriptView {
    Inline { module_name: Seq<char>, content: Seq<char> },
    GlobalRef { module_name: Seq<char>, rel_path: Seq<char> },
}

/// The view of an optional list of keys.
pub open spec fn opt_keys_view(k: Option<BindingMapKeys>) -> Option<Seq<(Seq<char>, usize)>> {
    match k {
        Some(k) => Some(k@),
        None => None,
    }
}

/// The views of a list of pairs of strings.
pub open spec fn pair_views(v: Seq<(String, String)>) -> Seq<(Seq<char>, Seq<char>)> {
    Seq::new(v.len(), |i: int| (v[i].0@, v[i].1@))
}

/// The view of an optional map from strings to strings.
pub open spec fn opt_map_view(m: Option<StrMap<String>>) -> Option<Map<Seq<char>, Seq<char>>> {
    match m {
        Some(m) => Some(m@.map_values(|s: String| s@)),
        None => None,
    }
}

impl View for TmplAttrKind {
    type V = AttrKindView;

    open spec fn view(&self) -> AttrKindView {
        match self {
            TmplAttrKind::WxDirective { name } => AttrKindView::WxDirective { name: name@ },
            TmplAttrKind::Generic { name } => AttrKindView::Generic { name: name@ },
            TmplAttrKind::Slot => AttrKindView::Slot,
            TmplAttrKind::SlotProperty { name } => AttrKindView::SlotProperty { name: name@ },
            TmplAttrKind::Id => AttrKindView::Id,
            TmplAttrKind::Class => AttrKindView::Class,
            TmplAttrKind::Style => AttrKindView::Style,
            TmplAttrKind::PropertyOrExternalClass { name } => AttrKindView::PropertyOrExternalClass {
                name: name@,
            },
            TmplAttrKind::ModelProperty { name } => AttrKindView::ModelProperty { name: name@ },
            TmplAttrKind::ChangeProperty { name } => AttrKindView::ChangeProperty { name: name@ },
            TmplAttrKind::WorkletProperty { name } => AttrKindView::WorkletProperty { name: name@ },
            TmplAttrKind::Data { name } => AttrKindView::Data { name: name@ },
            TmplAttrKind::Mark { name } => AttrKindView::Mark { name: name@ },
            TmplAttrKind::Event { capture, catch, mut_bind, name } => AttrKindView::Event {
                capture: *capture,
                catch: *catch,
                mut_bind: *mut_bind,
                name: name@,
            },
        }
    }
}

impl View for TmplAttrValue {
    type V = AttrValueView;

    open spec fn view(&self) -> AttrValueView {
        match self {
            TmplAttrValue::Static(s) => AttrValueView::Static(s@),
            TmplAttrValue::Dynamic { expr, binding_map_keys } => AttrValueView::Dynamic {
                expr: expr@,
                binding_map_keys: opt_keys_view(*binding_map_keys),
            },
        }
    }
}

impl View for TmplAttr {
    type V = AttrView;

    open spec fn view(&self) -> AttrView {
        AttrView { kind: self.kind@, value: self.value@ }
    }
}

/// The views of a list of attributes.
pub open spec fn attr_views(v: Seq<TmplAttr>) -> Seq<AttrView> {
    Seq::new(v.len(), |i: int| v[i]@)
}

/// The view of an optional attribute value.
pub open spec fn opt_value_view(v: Option<TmplAttrValue>) -> Option<AttrValueView> {
    match v {
        Some(v) => Some(v@),
        None => None,
    }
}

/// The view of an optional string.
pub open spec fn opt_str_view(s: Option<String>) -> Option<Seq<char>> {
    match s {
        Some(s) => Some(s@),
        None => None,
    }
}

impl View for TmplVirtualType {
    type V = VirtualTypeView;

    open spec fn view(&self) -> VirtualTypeView {
        match self {
            TmplVirtualType::Plain => VirtualTypeView::Plain,
            TmplVirtualType::Pure => VirtualTypeView::Pure,
            TmplVirtualType::For { list, item_name, index_name, key } => VirtualTypeView::For {
                list: list@,
                item_name: item_name@,
                index_name: index_name@,
                key: opt_str_view(*key),
            },
            TmplVirtualType::IfGroup => VirtualTypeView::IfGroup,
            TmplVirtualType::If { cond } => VirtualTypeView::If { cond: cond@ },
            TmplVirtualType::Elif { cond } => VirtualTypeView::Elif { cond: cond@ },
            TmplVirtualType::Else => VirtualTypeView::Else,
            TmplVirtualType::TemplateRef { target, data } => VirtualTypeView::TemplateRef {
                target: target@,
                data: data@,
            },
            TmplVirtualType::Include { path } => VirtualTypeView::Include { path: path@ },
            TmplVirtualType::Slot { name, props } => VirtualTypeView::Slot {
                name: name@,
                props: match props {
                    Some(props) => Some(attr_views(props@)),
                    None => None,
                },
            },
        }
    }
}

impl View for TmplTextNode {
    type V = TextView;

    open spec fn view(&self) -> TextView {
        match self {
            TmplTextNode::Static(s) => TextView::Static(s@),
            TmplTextNode::Dynamic { expr, binding_map_keys } => TextView::Dynamic {
                expr: expr@,
                binding_map_keys: opt_keys_view(*binding_map_keys),
            },
        }
    }
}

impl View for TmplScript {
    type V = ScriptView;

    open spec fn view(&self) -> ScriptView {
        match self {
            TmplScript::Inline { module_name, content } => ScriptView::Inline {
                module_name: module_name@,
                content: content@,
            },
            TmplScript::GlobalRef { module_name, rel_path } => ScriptView::GlobalRef {
                module_name: module_name@,
                rel_path: rel_path@,
            },
        }
    }
}

/// The views of a list of nodes.
pub open spec fn node_views(v: Seq<TmplNode>) -> Seq<NodeView>
    decreases v,
{
    Seq::new(
        v.len(),
        |i: int|
            if 0 <= i < v.len() {
                v[i].model()
            } else {
                arbitrary()
            },
    )
}

impl TmplNode {
    /// The node as a mathematical value.
    pub open spec fn model(self) -> NodeView
        decreases self,
    {
        match self {
            TmplNode::TextNode(t) => NodeView::TextNode(t@),
            TmplNode::Element(e) => NodeView::Element(e.model()),
        }
    }
}

impl TmplElement {
    /// The element as a mathematical value.
    pub open spec fn model(self) -> ElementView
        decreases self,
    {
        ElementView {
            virtual_type: self.virtual_type@,
            tag_name: self.tag_name@,
            attrs: attr_views(self.attrs@),
            children: node_views(self.children@),
            generics: opt_map_view(self.generics),
            extra_attr: opt_map_view(self.extra_attr),
            slot: opt_value_view(self.slot),
            slot_values: pair_views(self.slot_values@),
        }
    }
}

impl View for TmplNode {
    type V = NodeView;

    open spec fn view(&self) -> NodeView {
        self.model()
    }
}

impl View for TmplElement {
    type V = ElementView;

    open spec fn view(&self) -> ElementView {
        self.model()
    }
}

/// The kind of an attribute whose name has `prefix` before its first colon
/// and `rest` after it; none where the prefix is not a known one.
pub open spec fn classify_prefixed(prefix: Seq<char>, rest: Seq<char>) -> Option<AttrKindView> {
    if prefix == "wx"@ {
        Some(AttrKindView::WxDirective { name: rest })
    } else if prefix == "generic"@ {
        Some(AttrKindView::Generic { name: ascii_lowercase(rest) })
    } else if prefix == "slot"@ {
        Some(AttrKindView::SlotProperty { name: camel_from(ascii_lowercase(rest), false) })
    } else if prefix == "model"@ {
        Some(AttrKindView::ModelProperty { name: camel_from(rest, false) })
    } else if prefix == "change"@ {
        Some(AttrKindView::ChangeProperty { name: camel_from(rest, false) })
    } else if prefix == "worklet"@ {
        Some(AttrKindView::WorkletProperty { name: camel_from(rest, false) })
    } else if prefix == "data"@ {
        Some(AttrKindView::Data { name: camel_from(rest, false) })
    } else if prefix == "bind"@ {
        Some(AttrKindView::Event { capture: false, catch: false, mut_bind: false, name: rest })
    } else if prefix == "mut-bind"@ {
        Some(AttrKindView::Event { capture: false, catch: false, mut_bind: true, name: rest })
    } else if prefix == "catch"@ {
        Some(AttrKindView::Event { capture: false, catch: true, mut_bind: false, name: rest })
    } else if prefix == "capture-bind"@ {
        Some(AttrKindView::Event { capture: true, catch: false, mut_bind: false, name: rest })
    } else if prefix == "capture-mut-bind"@ {
        Some(AttrKindView::Event { capture: true, catch: false, mut_bind: true, name: rest })
    } else if prefix == "capture-catch"@ {
        Some(AttrKindView::Event { capture: true, catch: true, mut_bind: false, name: rest })
    } else if prefix == "mark"@ {
        Some(AttrKindView::Mark { name: rest })
    } else {
        None
    }
}

/// The kind of an attribute whose name holds no colon.
pub open spec fn classify_plain(name: Seq<char>) -> AttrKindView {
    if name == "slot"@ {
        AttrKindView::Slot
    } else if name == "id"@ {
        AttrKindView::Id
    } else if name == "class"@ {
        AttrKindView::Class
    } else if name == "style"@ {
        AttrKindView::Style
    } else if starts_with(name, "data-"@) {
        AttrKindView::Data {
            name: camel_from(ascii_lowercase(name.skip("data-"@.len() as int)), false),
        }
    } else {
        AttrKindView::PropertyOrExternalClass { name }
    }
}

/// The kind of the attribute called `name`; none where the attribute is to
/// be left out.
pub open spec fn classify_attr(name: Seq<char>) -> Option<AttrKindView> {
    match first_position(name, ':') {
        Some(p) => classify_prefixed(name.take(p), name.skip(p + 1)),
        None => Some(classify_plain(name)),
    }
}

/// The view of an optional attribute kind.
pub open spec fn opt_kind_view(k: Option<TmplAttrKind>) -> Option<AttrKindView> {
    match k {
        Some(k) => Some(k@),
        None => None,
    }
}

impl ElementView {
    /// A new element with nothing in it.
    pub open spec fn empty(tag_name: Seq<char>, virtual_type: VirtualTypeView) -> ElementView {
        ElementView {
            virtual_type,
            tag_name,
            attrs: Seq::empty(),
            children: Seq::empty(),
            generics: None,
            extra_attr: None,
            slot: None,
            slot_values: Seq::empty(),
        }
    }

    /// The element with one more attribute, as far as its name is a known one.
    pub open spec fn with_attr(self, name: Seq<char>, value: AttrValueView) -> ElementView {
        match classify_attr(name) {
            Some(kind) => ElementView { attrs: self.attrs.push(AttrView { kind, value }), ..self },
            None => self,
        }
    }

    /// The element with one more child at the end.
    pub open spec fn with_child(self, child: NodeView) -> ElementView {
        ElementView { children: self.children.push(child), ..self }
    }
}

impl TmplAttrKind {
    /// The kind of the attribute called `name`, by its prefix or, without
    /// one, by the name itself.
    pub fn classify(name: &str) -> (r: Option<TmplAttrKind>)
        ensures
            opt_kind_view(r) == classify_attr(name@),
    {
        let chars = chars_of(name);
        match find_char(&chars, ':') {
            Some(p) => {
                let prefix = string_of(&chars, 0, p);
                let name = string_of(&chars, p + 1, chars.len());
                proof {
                    assert(chars@.subrange(0, p as int) =~= chars@.take(p as int));
                    assert(chars@.subrange(p + 1, chars.len() as int) =~= chars@.skip(p + 1));
                }
                let prefix = prefix.as_str();
                if prefix.eq("wx") {
                    Some(TmplAttrKind::WxDirective { name })
                } else if prefix.eq("generic") {
                    Some(TmplAttrKind::Generic { name: to_ascii_lowercase(name.as_str()) })
                } else if prefix.eq("slot") {
                    let lower = to_ascii_lowercase(name.as_str());
                    Some(TmplAttrKind::SlotProperty { name: dash_to_camel(lower.as_str()) })
                } else if prefix.eq("model") {
                    Some(TmplAttrKind::ModelProperty { name: dash_to_camel(name.as_str()) })
                } else if prefix.eq("change") {
                    Some(TmplAttrKind::ChangeProperty { name: dash_to_camel(name.as_str()) })
                } else if prefix.eq("worklet") {
                    Some(TmplAttrKind::WorkletProperty { name: dash_to_camel(name.as_str()) })
                } else if prefix.eq("data") {
                    Some(TmplAttrKind::Data { name: dash_to_camel(name.as_str()) })
                } else if prefix.eq("bind") {
                    Some(TmplAttrKind::Event { capture: false, catch: false, mut_bind: false, name })
                } else if prefix.eq("mut-bind") {
                    Some(TmplAttrKind::Event { capture: false, catch: false, mut_bind: true, name })
                } else if prefix.eq("catch") {
                    Some(TmplAttrKind::Event { capture: false, catch: true, mut_bind: false, name })
                } else if prefix.eq("capture-bind") {
                    Some(TmplAttrKind::Event { capture: true, catch: false, mut_bind: false, name })
                } else if prefix.eq("capture-mut-bind") {
                    Some(TmplAttrKind::Event { capture: true, catch: false, mut_bind: true, name })
                } else if prefix.eq("capture-catch") {
                    Some(TmplAttrKind::Event { capture: true, catch: true, mut_bind: false, name })
                } else if prefix.eq("mark") {
                    Some(TmplAttrKind::Mark { name })
                } else {
                    None
                }
            },
            None => {
                if name.eq("slot") {
                    Some(TmplAttrKind::Slot)
                } else if name.eq("id") {
                    Some(TmplAttrKind::Id)
                } else if name.eq("class") {
                    Some(TmplAttrKind::Class)
                } else if name.eq("style") {
                    Some(TmplAttrKind::Style)
                } else {
                    let word = chars_of("data-");
                    proof {
                        assert(chars@.skip(0) =~= chars@);
                    }
                    if matches_at(&chars, 0, &word) {
                        let rest = string_of(&chars, word.len(), chars.len());
                        proof {
                            assert(chars@.subrange(word.len() as int, chars.len() as int)
                                =~= chars@.skip(word.len() as int));
                        }
                        let lower = to_ascii_lowercase(rest.as_str());
                        Some(TmplAttrKind::Data { name: dash_to_camel(lower.as_str()) })
                    } else {
                        Some(TmplAttrKind::PropertyOrExternalClass { name: name.to_owned() })
                    }
                }
            },
        }
    }
}

impl TmplElement {
    /// A new element with the given tag name and role, and nothing in it.
    pub fn new(tag_name: &str, virtual_type: TmplVirtualType) -> (r: Self)
        ensures
            r@ == ElementView::empty(tag_name@, virtual_type@),
    {
        let r = TmplElement {
            virtual_type,
            tag_name: tag_name.to_owned(),
            attrs: Vec::new(),
            children: Vec::new(),
            generics: None,
            extra_attr: None,
            slot: None,
            slot_values: Vec::new(),
        };
        proof {
            assert(attr_views(r.attrs@) =~= Seq::empty());
            assert(node_views(r.children@) =~= Seq::empty());
            assert(pair_views(r.slot_values@) =~= Seq::empty());
        }
        r
    }

    /// Whether the element has the tag name `tag_name`.
    pub fn tag_name_is(&self, tag_name: &str) -> (r: bool)
        ensures
            r == (self@.tag_name == tag_name@),
    {
        self.tag_name.as_str().eq(tag_name)
    }

    /// Adds the attribute called `name` with its kind, which the name
    /// decides. A name with an unknown prefix adds nothing.
    pub fn add_attr(&mut self, name: &str, value: TmplAttrValue)
        ensures
            final(self)@ == old(self)@.with_attr(name@, value@),
    {
        match TmplAttrKind::classify(name) {
            Some(kind) => {
                let ghost before = attr_views(self.attrs@);
                self.attrs.push(TmplAttr { kind, value });
                proof {
                    assert(attr_views(self.attrs@) =~= before.push(AttrView { kind: kind@, value: value@ }));
                }
            },
            None => {},
        }
    }

    /// Adds a text as the last child.
    pub fn append_text_node(&mut self, child: TmplTextNode)
        ensures
            final(self)@ == old(self)@.with_child(NodeView::TextNode(child@)),
    {
        let ghost before = node_views(self.children@);
        self.children.push(TmplNode::TextNode(child));
        proof {
            assert(node_views(self.children@) =~= before.push(NodeView::TextNode(child@)));
        }
    }

    /// Adds an element as the last child.
    pub fn append_element(&mut self, child: TmplElement)
        ensures
            final(self)@ == old(self)@.with_child(NodeView::Element(child@)),
    {
        let ghost before = node_views(self.children@);
        self.children.push(TmplNode::Element(child));
        proof {
            assert(node_views(self.children@) =~= before.push(NodeView::Element(child@)));
        }
    }
}

impl AttrView {
    /// The attribute is the plain property called `n`.
    pub open spec fn is_property(self, n: Seq<char>) -> bool {
        self.kind == (AttrKindView::PropertyOrExternalClass { name: n })
    }

    /// The attribute is a plain property.
    pub open spec fn is_any_property(self) -> bool {
        self.kind is PropertyOrExternalClass
    }
}

impl TmplAttr {
    /// Whether the attribute is the plain property called `n`.
    pub fn is_property(&self, n: &str) -> (r: bool)
        ensures
            r == self@.is_property(n@),
    {
        match &self.kind {
            TmplAttrKind::PropertyOrExternalClass { name } => name.as_str().eq(n),
            _ => false,
        }
    }

    /// Whether the attribute is a plain property.
    pub fn is_any_property(&self) -> (r: bool)
        ensures
            r == self@.is_any_property(),
    {
        match &self.kind {
            TmplAttrKind::PropertyOrExternalClass { .. } => true,
            _ => false,
        }
    }
}

impl AttrValueView {
    /// The text of a static value; the empty text for a dynamic one.
    pub open spec fn static_value(self) -> Seq<char> {
        match self {
            AttrValueView::Static(s) => s,
            AttrValueView::Dynamic { .. } => Seq::empty(),
        }
    }
}

impl TmplAttrValue {
    /// The text of a static value; the empty text for a dynamic one.
    pub fn static_value(self) -> (r: String)
        ensures
            r@ == self@.static_value(),
    {
        match self {
            TmplAttrValue::Static(s) => s,
            TmplAttrValue::Dynamic { .. } => String::new(),
        }
    }
}

impl TmplTextNode {
    /// A text node of plain characters.
    pub fn new_static(content: String) -> (r: Self)
        ensures
            r@ == TextView::Static(content@),
    {
        TmplTextNode::Static(content)
    }

    /// A text node that shows the value of `expr`, not yet resolved.
    pub fn new_dynamic(expr: Box<TmplExpr>) -> (r: Self)
        ensures
            r@ == (TextView::Dynamic { expr: expr@, binding_map_keys: None }),
    {
        TmplTextNode::Dynamic { expr, binding_map_keys: None }
    }
}

} // verus!
