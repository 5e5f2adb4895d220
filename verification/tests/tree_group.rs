use wxml_compiler::element::{TmplElement, TmplScript, TmplVirtualType};
use wxml_compiler::group::TmplGroup;
use wxml_compiler::parser::TmplParseError;
use wxml_compiler::str_map::StrMap;
use wxml_compiler::tree::TmplTree;

fn inline(module_name: &str, content: &str) -> TmplScript {
    TmplScript::Inline { module_name: module_name.to_string(), content: content.to_string() }
}

fn global(module_name: &str, rel_path: &str) -> TmplScript {
    TmplScript::GlobalRef { module_name: module_name.to_string(), rel_path: rel_path.to_string() }
}

fn error(message: &str) -> TmplParseError {
    TmplParseError { message: message.to_string(), start_pos: (1, 2), end_pos: (3, 40) }
}

#[test]
fn new_tree_is_empty() {
    let tree = TmplTree::new();
    assert_eq!(tree.path, "");
    assert_eq!(tree.root(), &TmplElement::new("", TmplVirtualType::Plain));
    assert!(tree.imports.is_empty());
    assert!(tree.includes.is_empty());
    assert_eq!(tree.sub_templates.len(), 0);
    assert!(tree.scripts.is_empty());
    assert!(tree.binding_map_collector.list_fields().is_empty());
}

#[test]
fn root_mut_reaches_the_root() {
    let mut tree = TmplTree::new();
    tree.root_mut().append_element(TmplElement::new("view", TmplVirtualType::Plain));
    assert_eq!(tree.root().children.len(), 1);
}

#[test]
fn inline_scripts_are_found_by_module() {
    let mut tree = TmplTree::new();
    tree.scripts = vec![global("a", "./a"), inline("m", "1"), inline("a", "2"), inline("m", "3")];
    assert_eq!(tree.get_inline_script_module_name(), vec!["m", "a", "m"]);
    assert_eq!(tree.get_inline_script("m"), Some("1"));
    assert_eq!(tree.get_inline_script("a"), Some("2"));
    assert_eq!(tree.get_inline_script("z"), None);
}

#[test]
fn dependencies_are_resolved_against_the_path() {
    let mut tree = TmplTree::new();
    tree.path = "a/b".to_string();
    tree.imports = vec!["i1".to_string(), "i2".to_string()];
    tree.includes = vec!["j".to_string()];
    tree.scripts = vec![inline("m", "x"), global("g", "./g"), global("h", "../h")];
    let join = |base: &String, rel: &String| format!("{}|{}", base, rel);
    assert_eq!(tree.get_direct_dependencies(join), vec!["a/b|i1", "a/b|i2", "a/b|j"]);
    assert_eq!(tree.get_script_dependencies(join), vec!["a/b|./g", "a/b|../h"]);
    assert!(TmplTree::new().get_direct_dependencies(join).is_empty());
}

#[test]
fn set_inline_script_replaces_or_adds() {
    let mut tree = TmplTree::new();
    tree.scripts = vec![global("m", "./m"), inline("m", "1"), inline("m", "2")];
    tree.set_inline_script("m", "new");
    assert_eq!(tree.scripts, vec![global("m", "./m"), inline("m", "new"), inline("m", "2")]);
    tree.set_inline_script("n", "added");
    assert_eq!(
        tree.scripts,
        vec![global("m", "./m"), inline("m", "new"), inline("m", "2"), inline("n", "added")]
    );
    assert_eq!(tree.get_inline_script("n"), Some("added"));
}

#[test]
fn group_takes_templates_by_path() {
    let mut group = TmplGroup::new();
    assert_eq!(group.len(), 0);
    assert!(!group.has_scripts);
    assert_eq!(group.add_tmpl("a/b", Ok(TmplTree::new())), Ok(()));
    assert_eq!(group.len(), 1);
    assert!(group.contains_template("a/b"));
    assert!(!group.contains_template("a"));
    assert_eq!(group.trees.get("a/b").unwrap().path, "a/b");
    assert!(!group.has_scripts);
    let mut with_script = TmplTree::new();
    with_script.scripts = vec![inline("m", "x")];
    assert_eq!(group.add_tmpl("c", Ok(with_script)), Ok(()));
    assert!(group.has_scripts);
    assert_eq!(group.add_tmpl("a/b", Ok(TmplTree::new())), Ok(()));
    assert_eq!(group.len(), 2);
}

#[test]
fn group_with_a_referenced_script_only_has_no_scripts() {
    let mut group = TmplGroup::new();
    let mut tree = TmplTree::new();
    tree.scripts = vec![global("m", "./m")];
    assert_eq!(group.add_tmpl("a", Ok(tree)), Ok(()));
    assert!(!group.has_scripts);
}

#[test]
fn group_hands_on_the_error_of_a_reading() {
    let mut group = TmplGroup::new();
    assert_eq!(group.add_tmpl("a", Err(error("Unexpected character"))), Err(error("Unexpected character")));
    assert_eq!(group.len(), 0);
    assert!(!group.contains_template("a"));
}

#[test]
fn group_takes_scripts() {
    let mut group = TmplGroup::new();
    assert_eq!(group.add_script("s", "exports.a = 1"), Ok(()));
    assert!(group.has_scripts);
    assert_eq!(group.scripts.get("s"), Some(&"exports.a = 1".to_string()));
    assert_eq!(group.len(), 0);
}

#[test]
fn parse_error_tells_its_place() {
    assert_eq!(
        error("Unexpected character").to_string(),
        "Template parsing error (from line 1 column 2 to line 3 column 40) : Unexpected character"
    );
}

#[test]
fn str_map_keeps_the_order_of_insertion() {
    let mut m: StrMap<u32> = StrMap::new();
    m.insert("b".to_string(), 1);
    m.insert("a".to_string(), 2);
    m.insert("b".to_string(), 3);
    assert_eq!(m.len(), 2);
    assert_eq!(m.key_at(0), "b");
    assert_eq!(m.value_at(0), &3);
    assert_eq!(m.key_at(1), "a");
    assert_eq!(m.index_of("a"), Some(1));
    assert_eq!(m.index_of("c"), None);
    assert_eq!(m.get("a"), Some(&2));
    assert_eq!(m.get("c"), None);
    assert!(m.contains_key("b"));
    assert_eq!(m.replace_value_at(1, 9), 2);
    assert_eq!(m.get("a"), Some(&9));
}
