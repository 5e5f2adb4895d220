//! A set of templates and scripts, each under its path.

use vstd::prelude::*;
use crate::parser::TmplParseError;
use crate::str_map::{lemma_string_map_insert, StrMap};
use crate::tree::{inline_module_names, TmplTree, TreeView};

verus! {

/// The templates of one project, with the scripts that they share.
#[derive(Debug)]
pub struct TmplGroup {
    pub trees: StrMap<TmplTree>,
    pub scripts: StrMap<String>,
    pub has_scripts: bool,
    pub extra_runtime_string: String,
}

/// The mathematical content of a [`TmplGroup`].
pub struct GroupView {
    pub trees: Map<Seq<char>, TreeView>,
    pub scripts: Map<Seq<char>, Seq<char>>,
    pub has_scripts: bool,
    pub extra_runtime_string: Seq<char>,
}

impl View for TmplGroup {
    type V = GroupView;

    open spec fn view(&self) -> GroupView {
        GroupView {
            trees: self.trees@.map_values(|t: TmplTree| t@),
            scripts: self.scripts@.map_values(|s: String| s@),
            has_scripts: self.has_scripts,
            extra_runtime_string: self.extra_runtime_string@,
        }
    }
}

impl GroupView {
    /// The group with one more template under `path`, in place of the one
    /// that it held there. A template that holds the text of a script makes
    /// the group one with scripts.
    pub open spec fn with_tmpl(self, path: Seq<char>, tree: TreeView) -> GroupView {
        GroupView {
            trees: self.trees.insert(path, TreeView { path, ..tree }),
            has_scripts: self.has_scripts || inline_module_names(tree.scripts).len() > 0,
            ..self
        }
    }

    /// The group with one more script under `path`.
    pub open spec fn with_script(self, path: Seq<char>, content: Seq<char>) -> GroupView {
        GroupView { scripts: self.scripts.insert(path, content), has_scripts: true, ..self }
    }
}

impl TmplGroup {
    /// A group without templates and scripts.
    pub fn new() -> (r: Self)
        ensures
            r@ == (GroupView {
                trees: Map::empty(),
                scripts: Map::empty(),
                has_scripts: false,
                extra_runtime_string: Seq::empty(),
            }),
    {
        let r = TmplGroup {
            trees: StrMap::new(),
            scripts: StrMap::new(),
            has_scripts: false,
            extra_runtime_string: String::new(),
        };
        proof {
            assert(r@.trees =~= Map::empty());
            assert(r@.scripts =~= Map::empty());
        }
        r
    }

    /// Takes in the template that was read for `path`, or hands on the
    /// error of its reading and changes nothing.
    pub fn add_tmpl(&mut self, path: &str, parsed: Result<TmplTree, TmplParseError>) -> (r: Result<
        (),
        TmplParseError,
    >)
        ensures
            match parsed {
                Ok(tree) => r is Ok && final(self)@ == old(self)@.with_tmpl(path@, tree@),
                Err(e) => r == Err::<(), TmplParseError>(e) && final(self)@ == old(self)@,
            },
    {
        let mut tmpl = match parsed {
            Ok(tmpl) => tmpl,
            Err(e) => {
                return Err(e);
            },
        };
        tmpl.path = path.to_owned();
        if tmpl.get_inline_script_module_name().len() > 0 {
            self.has_scripts = true;
        }
        proof {
            assert(self.trees@.insert(path@, tmpl).map_values(|t: TmplTree| t@)
                =~= self.trees@.map_values(|t: TmplTree| t@).insert(path@, tmpl@));
        }
        self.trees.insert(tmpl.path.clone(), tmpl);
        Ok(())
    }

    /// Adds a script to the group. The text must be the text of a script
    /// file; it can use `require` and `exports`.
    pub fn add_script(&mut self, path: &str, content: &str) -> (r: Result<(), TmplParseError>)
        ensures
            r is Ok,
            final(self)@ == old(self)@.with_script(path@, content@),
    {
        let text = content.to_owned();
        proof {
            lemma_string_map_insert(self.scripts@, path@, text);
        }
        self.scripts.insert(path.to_owned(), text);
        self.has_scripts = true;
        Ok(())
    }

    /// The number of templates.
    pub fn len(&self) -> (r: usize)
        ensures
            r == self@.trees.len(),
    {
        let n = self.trees.len();
        proof {
            let m = self.trees@;
            assert(m.map_values(|t: TmplTree| t@).dom() =~= m.dom());
        }
        n
    }

    /// Whether the group holds a template under `path`.
    pub fn contains_template(&self, path: &str) -> (r: bool)
        ensures
            r == self@.trees.contains_key(path@),
    {
        self.trees.contains_key(path)
    }
}

} // verus!
