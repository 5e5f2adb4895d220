//! One template: its tree and what was gathered from it.

use vstd::prelude::*;
use crate::binding_map::{BindingMapCollector, BindingMapView};
use crate::directives::{convert_children, Collected};
use crate::element::{ElementView, ScriptView, TmplElement, TmplScript, TmplVirtualType, VirtualTypeView};
use crate::scopes::{module_names, resolve_nodes, resolve_sub_template, root_ctx};
use crate::str_map::StrMap;
use crate::utils::strings_view;

verus! {

/// A template with the templates and scripts that it names.
#[derive(Debug)]
pub struct TmplTree {
    pub path: String,
    pub root: TmplElement,
    pub imports: Vec<String>,
    pub includes: Vec<String>,
    pub sub_templates: StrMap<TmplElement>,
    pub scripts: Vec<TmplScript>,
    pub binding_map_collector: BindingMapCollector,
}

/// The mathematical content of a [`TmplTree`].
pub struct TreeView {
    pub path: Seq<char>,
    pub root: ElementView,
    pub imports: Seq<Seq<char>>,
    pub includes: Seq<Seq<char>>,
    pub sub_templates: Map<Seq<char>, ElementView>,
    pub scripts: Seq<ScriptView>,
    pub binding_map: BindingMapView,
}

/// The views of a list of scripts.
pub open spec fn script_views(v: Seq<TmplScript>) -> Seq<ScriptView> {
    Seq::new(v.len(), |i: int| v[i]@)
}

/// The views of the elements of a map.
pub open spec fn element_map_view(m: Map<Seq<char>, TmplElement>) -> Map<Seq<char>, ElementView> {
    m.map_values(|e: TmplElement| e@)
}

/// What the four collections of a tree hold.
pub open spec fn collected_of(
    imports: &Vec<String>,
    includes: &Vec<String>,
    sub_templates: &StrMap<TmplElement>,
    scripts: &Vec<TmplScript>,
) -> Collected {
    Collected {
        imports: strings_view(imports@),
        includes: strings_view(includes@),
        sub_templates: element_map_view(sub_templates@),
        scripts: script_views(scripts@),
    }
}

impl View for TmplTree {
    type V = TreeView;

    open spec fn view(&self) -> TreeView {
        TreeView {
            path: self.path@,
            root: self.root@,
            imports: strings_view(self.imports@),
            includes: strings_view(self.includes@),
            sub_templates: element_map_view(self.sub_templates@),
            scripts: script_views(self.scripts@),
            binding_map: self.binding_map_collector@,
        }
    }
}

/// The paths of the scripts that are references to files, in their order.
pub open spec fn script_paths(scripts: Seq<TmplScript>) -> Seq<String>
    decreases scripts.len(),
{
    if scripts.len() == 0 {
        Seq::empty()
    } else {
        match scripts.last() {
            TmplScript::GlobalRef { rel_path, .. } => script_paths(scripts.drop_last()).push(rel_path),
            _ => script_paths(scripts.drop_last()),
        }
    }
}

/// The names of the modules whose text the scripts hold, in their order.
pub open spec fn inline_module_names(scripts: Seq<ScriptView>) -> Seq<Seq<char>>
    decreases scripts.len(),
{
    if scripts.len() == 0 {
        Seq::empty()
    } else {
        match scripts.last() {
            ScriptView::Inline { module_name, .. } => inline_module_names(scripts.drop_last()).push(
                module_name,
            ),
            _ => inline_module_names(scripts.drop_last()),
        }
    }
}

/// The script holds the text of the module `name`.
pub open spec fn is_inline_script(script: ScriptView, name: Seq<char>) -> bool {
    script is Inline && script->Inline_module_name == name
}

/// The position of the first script that holds the text of the module
/// `name`.
pub open spec fn inline_script_position(scripts: Seq<ScriptView>, name: Seq<char>) -> Option<int>
    decreases scripts.len(),
{
    if scripts.len() == 0 {
        None
    } else {
        match inline_script_position(scripts.drop_last(), name) {
            Some(i) => Some(i),
            None => if is_inline_script(scripts.last(), name) {
                Some(scripts.len() - 1)
            } else {
                None
            },
        }
    }
}

/// Where [`inline_script_position`] points: at a script of that module,
/// before which there is none.
pub proof fn lemma_inline_script_position(scripts: Seq<ScriptView>, name: Seq<char>)
    ensures
        match inline_script_position(scripts, name) {
            Some(i) => 0 <= i < scripts.len() && is_inline_script(scripts[i], name) && forall|j: int|
                0 <= j < i ==> !is_inline_script(#[trigger] scripts[j], name),
            None => forall|j: int|
                0 <= j < scripts.len() ==> !is_inline_script(#[trigger] scripts[j], name),
        },
    decreases scripts.len(),
{
    if scripts.len() > 0 {
        let front = scripts.drop_last();
        lemma_inline_script_position(front, name);
        match inline_script_position(front, name) {
            Some(i) => {
                assert(front[i] == scripts[i]);
                assert forall|j: int| 0 <= j < i implies !is_inline_script(
                    #[trigger] scripts[j],
                    name,
                ) by {
                    assert(front[j] == scripts[j]);
                }
            },
            None => {
                assert forall|j: int| 0 <= j < scripts.len() - 1 implies !is_inline_script(
                    #[trigger] scripts[j],
                    name,
                ) by {
                    assert(front[j] == scripts[j]);
                }
            },
        }
    }
}

impl TreeView {
    /// The template after the conversion of its directives.
    pub open spec fn convert_directives(self) -> TreeView {
        let (children, gathered) = convert_children(self.root.children, self.collected());
        TreeView {
            root: ElementView { children, ..self.root },
            imports: gathered.imports,
            includes: gathered.includes,
            sub_templates: gathered.sub_templates,
            scripts: gathered.scripts,
            ..self
        }
    }

    /// The template after the resolution of its expressions. The tree fills
    /// the template's binding map; every sub-template is resolved by itself.
    pub open spec fn prepare_expr(self) -> TreeView {
        let modules = module_names(self.scripts);
        let (children, binding_map) = resolve_nodes(
            self.root.children,
            root_ctx(modules, false),
            self.binding_map,
        );
        TreeView {
            root: ElementView { children, ..self.root },
            sub_templates: self.sub_templates.map_values(
                |e: ElementView| resolve_sub_template(e, modules),
            ),
            binding_map,
            ..self
        }
    }

    /// The template that holds `root` as it was read, with nothing gathered
    /// yet.
    pub open spec fn with_root(root: ElementView) -> TreeView {
        TreeView {
            path: Seq::empty(),
            root,
            imports: Seq::empty(),
            includes: Seq::empty(),
            sub_templates: Map::empty(),
            scripts: Seq::empty(),
            binding_map: BindingMapView::empty(),
        }
    }

    /// The text of the module `name`, if the template holds it.
    pub open spec fn inline_script(self, name: Seq<char>) -> Option<Seq<char>> {
        match inline_script_position(self.scripts, name) {
            Some(i) => Some(self.scripts[i]->content),
            None => None,
        }
    }

    /// The template with `content` as the text of the module `name`: in place
    /// of the text that it held for the module, or as one more script.
    pub open spec fn with_inline_script(self, name: Seq<char>, content: Seq<char>) -> TreeView {
        let script = ScriptView::Inline { module_name: name, content };
        match inline_script_position(self.scripts, name) {
            Some(i) => TreeView { scripts: self.scripts.update(i, script), ..self },
            None => TreeView { scripts: self.scripts.push(script), ..self },
        }
    }

    /// What the tree has gathered.
    pub open spec fn collected(self) -> Collected {
        Collected {
            imports: self.imports,
            includes: self.includes,
            sub_templates: self.sub_templates,
            scripts: self.scripts,
        }
    }
}

impl TmplTree {
    /// An empty template without a path.
    pub fn new() -> (r: Self)
        ensures
            r@ == (TreeView {
                path: Seq::empty(),
                root: ElementView::empty(Seq::empty(), VirtualTypeView::Plain),
                imports: Seq::empty(),
                includes: Seq::empty(),
                sub_templates: Map::empty(),
                scripts: Seq::empty(),
                binding_map: BindingMapView::empty(),
            }),
    {
        let r = TmplTree {
            path: String::new(),
            root: TmplElement::new("", TmplVirtualType::Plain),
            imports: Vec::new(),
            includes: Vec::new(),
            sub_templates: StrMap::new(),
            scripts: Vec::new(),
            binding_map_collector: BindingMapCollector::new(),
        };
        proof {
            reveal_strlit("");
            assert(""@ =~= Seq::<char>::empty());
            assert(strings_view(r.imports@) =~= Seq::empty());
            assert(strings_view(r.includes@) =~= Seq::empty());
            assert(script_views(r.scripts@) =~= Seq::empty());
            assert(element_map_view(r.sub_templates@) =~= Map::empty());
        }
        r
    }

    /// The root element.
    pub fn root(&self) -> (r: &TmplElement)
        ensures
            r == &self.root,
    {
        &self.root
    }

    /// The root element, to be changed in place.
    pub fn root_mut(&mut self) -> (r: &mut TmplElement)
        ensures
            *r == old(self).root,
            *final(self) == (TmplTree { root: *final(r), ..*old(self) }),
    {
        &mut self.root
    }

    /// The names of the modules whose text the template holds, in the order
    /// of their declaration.
    pub fn get_inline_script_module_name(&self) -> (r: Vec<String>)
        ensures
            strings_view(r@) == inline_module_names(self@.scripts),
    {
        let mut ret: Vec<String> = Vec::new();
        let ghost views = script_views(self.scripts@);
        let mut i: usize = 0;
        proof {
            assert(strings_view(ret@) =~= inline_module_names(views.take(0)));
        }
        while i < self.scripts.len()
            invariant
                i <= self.scripts.len(),
                views == script_views(self.scripts@),
                strings_view(ret@) == inline_module_names(views.take(i as int)),
            decreases self.scripts.len() - i,
        {
            proof {
                assert(views.take(i + 1).drop_last() =~= views.take(i as int));
                assert(views.take(i + 1).last() == self.scripts@[i as int]@);
            }
            match &self.scripts[i] {
                TmplScript::Inline { module_name, .. } => {
                    let ghost before = strings_view(ret@);
                    ret.push(module_name.clone());
                    proof {
                        assert(strings_view(ret@) =~= before.push(module_name@));
                    }
                },
                _ => {},
            }
            i = i + 1;
        }
        proof {
            assert(views.take(self.scripts@.len() as int) =~= views);
        }
        ret
    }

    /// The position of the first script that holds the text of the module
    /// `module_name`.
    fn find_inline_script(&self, module_name: &str) -> (r: Option<usize>)
        ensures
            match r {
                Some(i) => i < self.scripts.len() && inline_script_position(
                    self@.scripts,
                    module_name@,
                ) == Some(i as int),
                None => inline_script_position(self@.scripts, module_name@) is None,
            },
    {
        let ghost views = script_views(self.scripts@);
        let mut i: usize = 0;
        while i < self.scripts.len()
            invariant
                i <= self.scripts.len(),
                views == script_views(self.scripts@),
                inline_script_position(views.take(i as int), module_name@) is None,
            decreases self.scripts.len() - i,
        {
            proof {
                assert(views.take(i + 1).drop_last() =~= views.take(i as int));
                assert(views.take(i + 1).last() == self.scripts@[i as int]@);
            }
            let found = match &self.scripts[i] {
                TmplScript::Inline { module_name: m, .. } => m.as_str().eq(module_name),
                _ => false,
            };
            if found {
                proof {
                    lemma_inline_script_position(views, module_name@);
                    lemma_inline_script_position(views.take(i + 1), module_name@);
                    let p = inline_script_position(views, module_name@);
                    assert(views.take(i + 1)[i as int] == views[i as int]);
                    assert(p is Some);
                    if p->0 < i {
                        assert(views.take(i + 1)[p->0] == views[p->0]);
                    }
                }
                return Some(i);
            }
            i = i + 1;
        }
        proof {
            assert(views.take(self.scripts@.len() as int) =~= views);
        }
        None
    }

    /// The text of the module `module_name`, if the template holds it.
    pub fn get_inline_script(&self, module_name: &str) -> (r: Option<&str>)
        ensures
            match r {
                Some(content) => self@.inline_script(module_name@) == Some(content@),
                None => self@.inline_script(module_name@) is None,
            },
    {
        match self.find_inline_script(module_name) {
            Some(i) => {
                proof {
                    lemma_inline_script_position(self@.scripts, module_name@);
                    assert(self@.scripts[i as int] == self.scripts@[i as int]@);
                }
                match &self.scripts[i] {
                    TmplScript::Inline { content, .. } => Some(content.as_str()),
                    _ => None,
                }
            },
            None => None,
        }
    }

    /// Makes `new_content` the text of the module `module_name`.
    pub fn set_inline_script(&mut self, module_name: &str, new_content: &str)
        ensures
            final(self)@ == old(self)@.with_inline_script(module_name@, new_content@),
    {
        let ghost views = script_views(self.scripts@);
        match self.find_inline_script(module_name) {
            Some(i) => {
                self.scripts[i] = TmplScript::Inline {
                    module_name: module_name.to_owned(),
                    content: new_content.to_owned(),
                };
                proof {
                    assert(script_views(self.scripts@) =~= views.update(
                        i as int,
                        ScriptView::Inline { module_name: module_name@, content: new_content@ },
                    ));
                }
            },
            None => {
                self.scripts.push(
                    TmplScript::Inline {
                        module_name: module_name.to_owned(),
                        content: new_content.to_owned(),
                    },
                );
                proof {
                    assert(script_views(self.scripts@) =~= views.push(
                        ScriptView::Inline { module_name: module_name@, content: new_content@ },
                    ));
                }
            },
        }
    }

    /// The templates that this one imports or includes: for each import and
    /// then for each include, what `resolve` makes of the path of this
    /// template and the path that is named.
    pub fn get_direct_dependencies<F: Fn(&String, &String) -> String>(&self, resolve: F) -> (r: Vec<String>)
        requires
            forall|base: &String, rel: &String| resolve.requires((base, rel)),
        ensures
            r.len() == self.imports.len() + self.includes.len(),
            forall|i: int|
                0 <= i < self.imports.len() ==> resolve.ensures(
                    (&self.path, &self.imports[i]),
                    #[trigger] r[i],
                ),
            forall|i: int|
                0 <= i < self.includes.len() ==> resolve.ensures(
                    (&self.path, &self.includes[i]),
                    #[trigger] r[self.imports.len() + i],
                ),
    {
        let mut ret: Vec<String> = Vec::new();
        let mut i: usize = 0;
        while i < self.imports.len()
            invariant
                i <= self.imports.len(),
                ret.len() == i,
                forall|base: &String, rel: &String| resolve.requires((base, rel)),
                forall|j: int|
                    0 <= j < i ==> resolve.ensures(
                        (&self.path, &self.imports[j]),
                        #[trigger] ret[j],
                    ),
            decreases self.imports.len() - i,
        {
            ret.push(resolve(&self.path, &self.imports[i]));
            i = i + 1;
        }
        let mut k: usize = 0;
        while k < self.includes.len()
            invariant
                k <= self.includes.len(),
                ret.len() == self.imports.len() + k,
                forall|base: &String, rel: &String| resolve.requires((base, rel)),
                forall|j: int|
                    0 <= j < self.imports.len() ==> resolve.ensures(
                        (&self.path, &self.imports[j]),
                        #[trigger] ret[j],
                    ),
                forall|j: int|
                    0 <= j < k ==> resolve.ensures(
                        (&self.path, &self.includes[j]),
                        #[trigger] ret[self.imports.len() + j],
                    ),
            decreases self.includes.len() - k,
        {
            ret.push(resolve(&self.path, &self.includes[k]));
            k = k + 1;
        }
        ret
    }

    /// The script files that this template refers to: for each such script,
    /// what `resolve` makes of the path of this template and the path of
    /// the script.
    pub fn get_script_dependencies<F: Fn(&String, &String) -> String>(&self, resolve: F) -> (r: Vec<String>)
        requires
            forall|base: &String, rel: &String| resolve.requires((base, rel)),
        ensures
            r.len() == script_paths(self.scripts@).len(),
            forall|i: int|
                0 <= i < r.len() ==> resolve.ensures(
                    (&self.path, &script_paths(self.scripts@)[i]),
                    #[trigger] r[i],
                ),
    {
        let mut ret: Vec<String> = Vec::new();
        let mut i: usize = 0;
        proof {
            assert(self.scripts@.take(0) =~= Seq::<TmplScript>::empty());
        }
        while i < self.scripts.len()
            invariant
                i <= self.scripts.len(),
                ret.len() == script_paths(self.scripts@.take(i as int)).len(),
                forall|base: &String, rel: &String| resolve.requires((base, rel)),
                forall|j: int|
                    0 <= j < ret.len() ==> resolve.ensures(
                        (&self.path, &script_paths(self.scripts@.take(i as int))[j]),
                        #[trigger] ret[j],
                    ),
            decreases self.scripts.len() - i,
        {
            proof {
                assert(self.scripts@.take(i + 1).drop_last() =~= self.scripts@.take(i as int));
                assert(self.scripts@.take(i + 1).last() == self.scripts@[i as int]);
            }
            match &self.scripts[i] {
                TmplScript::GlobalRef { rel_path, .. } => {
                    let abs_path = resolve(&self.path, rel_path);
                    ret.push(abs_path);
                },
                _ => {},
            }
            i = i + 1;
        }
        proof {
            assert(self.scripts@.take(i as int) =~= self.scripts@);
        }
        ret
    }
}

} // verus!
