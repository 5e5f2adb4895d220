use wxml_compiler::binding_map::{BindingMapCollector, BindingMapKeys};
use wxml_compiler::expr::{TmplExpr, TmplExprLevel};
use wxml_compiler::utils::scope_position;

fn ident(name: &str) -> TmplExpr {
    TmplExpr::Ident(name.to_string())
}

fn names(list: &[&str]) -> Vec<String> {
    list.iter().map(|s| s.to_string()).collect()
}

fn keys(list: &[(&str, usize)]) -> BindingMapKeys {
    let mut k = BindingMapKeys::new();
    for (name, index) in list {
        k.add(name, *index);
    }
    k
}

#[test]
fn innermost_scope_shadows_outer_ones() {
    let scopes = names(&["item", "index", "item", "other"]);
    assert_eq!(scope_position(&scopes, "item"), Some(2));
    assert_eq!(scope_position(&scopes, "index"), Some(1));
    assert_eq!(scope_position(&scopes, "other"), Some(3));
    assert_eq!(scope_position(&scopes, "none"), None);
    assert_eq!(scope_position(&names(&[]), "item"), None);

    let mut bmc = BindingMapCollector::new();
    let mut e = ident("item");
    let got = e.get_binding_map_keys(&mut bmc, &scopes, &names(&[]), false);
    assert_eq!(e, TmplExpr::ScopeIndex(2));
    assert_eq!(got, Some(BindingMapKeys::new()));
    assert!(bmc.list_fields().is_empty());
}

#[test]
fn free_identifier_is_mapped_and_recorded() {
    let mut bmc = BindingMapCollector::new();
    let mut e = TmplExpr::Plus(Box::new(ident("a")), Box::new(ident("b")));
    let got = e.get_binding_map_keys(&mut bmc, &names(&["x"]), &names(&[]), false);
    assert_eq!(e, TmplExpr::Plus(Box::new(ident("a")), Box::new(ident("b"))));
    assert_eq!(got, Some(keys(&[("a", 0), ("b", 1)])));
    assert_eq!(bmc.list_fields(), vec![("a".to_string(), 0), ("b".to_string(), 1)]);
}

#[test]
fn each_use_of_a_field_records_the_shared_index() {
    let mut bmc = BindingMapCollector::new();
    let mut first = TmplExpr::Multiply(Box::new(ident("a")), Box::new(ident("a")));
    let got = first.get_binding_map_keys(&mut bmc, &names(&[]), &names(&[]), false);
    assert_eq!(got, Some(keys(&[("a", 0), ("a", 0)])));
    let mut second = TmplExpr::Cond(Box::new(ident("b")), Box::new(ident("a")), Box::new(ident("c")));
    let got = second.get_binding_map_keys(&mut bmc, &names(&[]), &names(&[]), false);
    assert_eq!(got, Some(keys(&[("b", 1), ("a", 0), ("c", 2)])));
}

#[test]
fn disabled_mode_disables_fields_and_returns_nothing() {
    let mut bmc = BindingMapCollector::new();
    assert_eq!(bmc.add_field("a"), Some(0));
    let mut e = TmplExpr::LogicAnd(Box::new(ident("a")), Box::new(ident("i")));
    let got = e.get_binding_map_keys(&mut bmc, &names(&["i"]), &names(&[]), true);
    assert_eq!(got, None);
    assert_eq!(e, TmplExpr::LogicAnd(Box::new(ident("a")), Box::new(TmplExpr::ScopeIndex(0))));
    assert!(bmc.is_disabled("a"));
    assert_eq!(bmc.add_field("a"), None);
    assert!(!bmc.is_disabled("i"));
}

#[test]
fn disabled_field_is_not_recorded() {
    let mut bmc = BindingMapCollector::new();
    bmc.disable_field("a");
    let mut e = TmplExpr::Minus(Box::new(ident("a")), Box::new(ident("b")));
    let got = e.get_binding_map_keys(&mut bmc, &names(&[]), &names(&[]), false);
    assert_eq!(got, Some(keys(&[("b", 0)])));
}

#[test]
fn script_module_names_are_left_alone() {
    let mut bmc = BindingMapCollector::new();
    let mut e = TmplExpr::FuncCall(
        Box::new(TmplExpr::StaticMember(Box::new(ident("tools")), "max".to_string())),
        vec![ident("a"), ident("tools")],
    );
    let got = e.get_binding_map_keys(&mut bmc, &names(&[]), &names(&["tools"]), false);
    assert_eq!(
        e,
        TmplExpr::FuncCall(
            Box::new(TmplExpr::StaticMember(Box::new(ident("tools")), "max".to_string())),
            vec![ident("a"), ident("tools")],
        )
    );
    assert_eq!(got, Some(keys(&[("a", 0)])));
    assert_eq!(bmc.get_field("tools"), None);
    assert!(!bmc.is_disabled("tools"));

    let mut d = ident("tools");
    d.get_binding_map_keys(&mut bmc, &names(&[]), &names(&["tools"]), true);
    assert!(!bmc.is_disabled("tools"));
}

#[test]
fn a_scope_shadows_a_script_module() {
    let mut bmc = BindingMapCollector::new();
    let mut e = ident("tools");
    e.get_binding_map_keys(&mut bmc, &names(&["tools"]), &names(&["tools"]), false);
    assert_eq!(e, TmplExpr::ScopeIndex(0));
}

#[test]
fn identifiers_are_taken_from_left_to_right() {
    let mut bmc = BindingMapCollector::new();
    let mut e = TmplExpr::LitObj(vec![
        (Some("k".to_string()), ident("c")),
        (None, TmplExpr::LitArr(vec![ident("b"), TmplExpr::LitInt(3), ident("a")])),
        (
            Some("m".to_string()),
            TmplExpr::DynamicMember(
                Box::new(TmplExpr::Reverse(Box::new(ident("d")))),
                Box::new(TmplExpr::ToStringWithoutUndefined(Box::new(ident("c")))),
            ),
        ),
    ]);
    let got = e.get_binding_map_keys(&mut bmc, &names(&[]), &names(&[]), false);
    assert_eq!(got, Some(keys(&[("c", 0), ("b", 1), ("a", 2), ("d", 3), ("c", 0)])));
    assert_eq!(
        bmc.list_fields(),
        vec![
            ("c".to_string(), 0),
            ("b".to_string(), 1),
            ("a".to_string(), 2),
            ("d".to_string(), 3)
        ]
    );
}

#[test]
fn literals_and_scope_indices_stay() {
    let mut bmc = BindingMapCollector::new();
    let mut e = TmplExpr::LitArr(vec![
        TmplExpr::ScopeIndex(7),
        TmplExpr::LitUndefined,
        TmplExpr::LitNull,
        TmplExpr::LitStr("a".to_string()),
        TmplExpr::LitInt(-4),
        TmplExpr::LitFloat("1.5".to_string()),
        TmplExpr::LitBool(false),
    ]);
    let got = e.get_binding_map_keys(&mut bmc, &names(&["a"]), &names(&[]), false);
    assert_eq!(got, Some(BindingMapKeys::new()));
    assert_eq!(
        e,
        TmplExpr::LitArr(vec![
            TmplExpr::ScopeIndex(7),
            TmplExpr::LitUndefined,
            TmplExpr::LitNull,
            TmplExpr::LitStr("a".to_string()),
            TmplExpr::LitInt(-4),
            TmplExpr::LitFloat("1.5".to_string()),
            TmplExpr::LitBool(false),
        ])
    );
}

#[test]
fn rec_adds_to_the_given_keys() {
    let mut bmc = BindingMapCollector::new();
    let mut bmk = keys(&[("z", 9)]);
    let mut e = TmplExpr::Negative(Box::new(ident("a")));
    e.get_binding_map_keys_rec(&mut bmc, &names(&[]), &names(&[]), false, &mut bmk);
    assert_eq!(bmk, keys(&[("z", 9), ("a", 0)]));
}

#[test]
fn levels_follow_the_top_operator() {
    let a = || Box::new(ident("a"));
    assert_eq!(TmplExpr::ScopeIndex(0).level(), TmplExprLevel::Member);
    assert_eq!(ident("a").level(), TmplExprLevel::Lit);
    assert_eq!(TmplExpr::ToStringWithoutUndefined(a()).level(), TmplExprLevel::Member);
    assert_eq!(TmplExpr::LitObj(vec![]).level(), TmplExprLevel::Lit);
    assert_eq!(TmplExpr::StaticMember(a(), "b".to_string()).level(), TmplExprLevel::Member);
    assert_eq!(TmplExpr::FuncCall(a(), vec![]).level(), TmplExprLevel::Member);
    assert_eq!(TmplExpr::BitReverse(a()).level(), TmplExprLevel::Unary);
    assert_eq!(TmplExpr::Mod(a(), a()).level(), TmplExprLevel::Multiply);
    assert_eq!(TmplExpr::Minus(a(), a()).level(), TmplExprLevel::Plus);
    assert_eq!(TmplExpr::Gte(a(), a()).level(), TmplExprLevel::Comparison);
    assert_eq!(TmplExpr::NeFull(a(), a()).level(), TmplExprLevel::Eq);
    assert_eq!(TmplExpr::BitAnd(a(), a()).level(), TmplExprLevel::BitAnd);
    assert_eq!(TmplExpr::BitXor(a(), a()).level(), TmplExprLevel::BitXor);
    assert_eq!(TmplExpr::BitOr(a(), a()).level(), TmplExprLevel::BitOr);
    assert_eq!(TmplExpr::LogicAnd(a(), a()).level(), TmplExprLevel::LogicAnd);
    assert_eq!(TmplExpr::LogicOr(a(), a()).level(), TmplExprLevel::LogicOr);
    assert_eq!(TmplExpr::Cond(a(), a(), a()).level(), TmplExprLevel::Cond);
    assert!(TmplExprLevel::Lit < TmplExprLevel::Member);
    assert!(TmplExprLevel::Cond < TmplExprLevel::Comma);
}
