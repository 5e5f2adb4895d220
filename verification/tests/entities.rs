use wxml_compiler::entities::{decode, make_mapping, ENTITY_COUNT};

#[test]
fn named_references_are_decoded() {
    assert_eq!(decode("&lt;"), "<");
    assert_eq!(decode("&gt;"), ">");
    assert_eq!(decode("&amp;"), "&");
    assert_eq!(decode("&quot;"), "\"");
    assert_eq!(decode("&nbsp;"), "\u{a0}");
    assert_eq!(decode("&Aacute;"), "Á");
    assert_eq!(decode("&NotEqualTilde;"), "\u{2242}\u{338}");
}

#[test]
fn decimal_references_are_decoded() {
    assert_eq!(decode("&#60;"), "<");
    assert_eq!(decode("&#065;"), "A");
    assert_eq!(decode("&#+65;"), "A");
    assert_eq!(decode("&#8364;"), "€");
    assert_eq!(decode("&#1114111;"), "\u{10FFFF}");
}

#[test]
fn hexadecimal_references_are_decoded() {
    assert_eq!(decode("&#x3c;"), "<");
    assert_eq!(decode("&#x3C;"), "<");
    assert_eq!(decode("&#x20AC;"), "€");
    assert_eq!(decode("&#x10ffff;"), "\u{10FFFF}");
}

#[test]
fn what_is_no_reference_comes_back() {
    assert_eq!(decode(""), "");
    assert_eq!(decode("&lt"), "&lt");
    assert_eq!(decode("&amp"), "&amp");
    assert_eq!(decode("&nosuchname;"), "&nosuchname;");
    assert_eq!(decode("&;"), "&;");
    assert_eq!(decode(";"), ";");
    assert_eq!(decode("&#;"), "&#;");
    assert_eq!(decode("&#x;"), "&#x;");
    assert_eq!(decode("&#xg1;"), "&#xg1;");
    assert_eq!(decode("&#6a;"), "&#6a;");
    assert_eq!(decode("&#-65;"), "&#-65;");
    assert_eq!(decode("&#+;"), "&#+;");
    assert_eq!(decode("&#X41;"), "&#X41;");
}

#[test]
fn codes_that_are_no_characters_come_back() {
    assert_eq!(decode("&#xD800;"), "&#xD800;");
    assert_eq!(decode("&#xDFFF;"), "&#xDFFF;");
    assert_eq!(decode("&#x110000;"), "&#x110000;");
    assert_eq!(decode("&#4294967296;"), "&#4294967296;");
    assert_eq!(decode("&#99999999999999999999;"), "&#99999999999999999999;");
    assert_eq!(decode("&#xD7FF;"), "\u{D7FF}");
    assert_eq!(decode("&#xE000;"), "\u{E000}");
}

#[test]
fn mapping_holds_every_name_of_the_table() {
    let mapping = make_mapping();
    assert_eq!(ENTITY_COUNT, 2231);
    assert_eq!(mapping.len(), 2231);
    assert_eq!(mapping.get("&lt;"), Some(&"<".to_string()));
    assert_eq!(mapping.get("&lt"), Some(&"<".to_string()));
    assert_eq!(mapping.get("&zwnj;"), Some(&"\u{200c}".to_string()));
    assert_eq!(mapping.get("lt"), None);
    assert!(mapping.contains_key("&Aacute;"));
    assert_eq!(mapping.key_at(0), "&Aacute;");
    assert_eq!(mapping.value_at(0), "Á");
}
