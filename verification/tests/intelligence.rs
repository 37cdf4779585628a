use std::collections::hash_map::DefaultHasher;
use std::hash::{Hash, Hasher};
use objc_lsp::category::{CategoryInfo, CategoryRegistry};
use objc_lsp::header_nav::{counterpart_given, counterpart_paths, find_counterpart, is_header, is_implementation};
use objc_lsp::paths::first_existing;
use objc_lsp::property::{capitalize_first, PropertyRenameTargets};
use objc_lsp::protocol::{generate_stubs, MissingMethod};
use objc_lsp::selector::{Selector, SelectorDb, SelectorEntry};

// --- is_header -----------------------------------------------------------

#[test]
fn dot_h_is_header() {
    assert!(is_header("Foo.h"));
}

#[test]
fn dot_m_is_not_header() {
    assert!(!is_header("Foo.m"));
}

#[test]
fn dot_mm_is_not_header() {
    assert!(!is_header("Foo.mm"));
}

#[test]
fn no_extension_is_not_header() {
    assert!(!is_header("Makefile"));
}

// --- is_implementation ---------------------------------------------------

#[test]
fn dot_m_is_implementation() {
    assert!(is_implementation("Foo.m"));
}

#[test]
fn dot_mm_is_implementation() {
    assert!(is_implementation("Foo.mm"));
}

#[test]
fn dot_h_is_not_implementation() {
    assert!(!is_implementation("Foo.h"));
}

#[test]
fn dot_cpp_is_not_implementation() {
    assert!(!is_implementation("Foo.cpp"));
}

#[test]
fn hidden_file_has_no_extension() {
    assert!(!is_header(".h"));
    assert!(is_header("dir/.x.h"));
}

// --- find_counterpart ----------------------------------------------------

#[test]
fn counterpart_candidates_of_header() {
    let c = counterpart_paths("/p/include/Engine.h");
    assert_eq!(
        c,
        vec![
            "/p/include/Engine.m",
            "/p/include/Engine.mm",
            "/p/include/Engine.c",
            "/p/include/Engine.cpp",
            "/p/src/Engine.m",
            "/p/src/Engine.mm",
            "/p/src/Engine.c",
            "/p/src/Engine.cpp",
        ]
    );
}

#[test]
fn counterpart_candidates_of_source() {
    let c = counterpart_paths("/p/src/Model.m");
    assert_eq!(c, vec!["/p/src/Model.h", "/p/include/Model.h"]);
}

#[test]
fn counterpart_candidates_of_other_file() {
    assert!(counterpart_paths("/p/src/notes.txt").is_empty());
    assert!(find_counterpart("/p/src/notes.txt").is_none());
}

#[test]
fn find_counterpart_none_when_missing() {
    assert!(find_counterpart("/nonexistent/xyz123/Only.h").is_none());
}

// --- property ------------------------------------------------------------

#[test]
fn default_targets() {
    let t = PropertyRenameTargets::from_property("name", None, None);
    assert_eq!(t.getter, "name");
    assert_eq!(t.setter, "setName:");
    assert_eq!(t.ivar, "_name");
}

#[test]
fn custom_getter() {
    let t = PropertyRenameTargets::from_property("hidden", Some("isHidden"), None);
    assert_eq!(t.getter, "isHidden");
    assert_eq!(t.setter, "setHidden:");
}

#[test]
fn custom_setter_and_empty_name() {
    let t = PropertyRenameTargets::from_property("x", None, Some("assignX:"));
    assert_eq!(t.setter, "assignX:");
    assert_eq!(t.property_name, "x");
    let e = PropertyRenameTargets::from_property("", None, None);
    assert_eq!(e.setter, "set:");
    assert_eq!(e.ivar, "_");
}

#[test]
fn capitalize_first_letter() {
    assert_eq!(capitalize_first("name"), "Name");
    assert_eq!(capitalize_first(""), "");
    assert_eq!(capitalize_first("1x"), "1x");
    assert_eq!(capitalize_first("ßa"), "SSa");
}

// --- selector ------------------------------------------------------------

#[test]
fn parse_unary() {
    let s = Selector::parse("description");
    assert_eq!(s.parts, vec!["description"]);
    assert!(s.is_unary());
}

#[test]
fn parse_multi() {
    let s = Selector::parse("tableView:cellForRowAtIndexPath:");
    assert_eq!(s.parts, vec!["tableView", "cellForRowAtIndexPath"]);
    assert!(!s.is_unary());
}

#[test]
fn roundtrip() {
    let raw = "tableView:cellForRowAtIndexPath:";
    assert_eq!(Selector::parse(raw).to_string(), raw);
}

#[test]
fn single_keyword_selector_keeps_colon() {
    let s = Selector::parse("setName:");
    assert!(!s.is_unary());
    assert_eq!(s.to_string(), "setName:");
    assert!(Selector::parse(":").parts.is_empty());
}

fn entry(sel: &str, class: &str) -> SelectorEntry {
    SelectorEntry {
        selector: Selector::parse(sel),
        defined_in: class.to_string(),
        is_class_method: false,
        signature: format!("- (void){sel}"),
    }
}

#[test]
fn selector_db_find_and_complete() {
    let mut db = SelectorDb::new();
    db.insert(entry("tableView:cellForRowAtIndexPath:", "A"));
    db.insert(entry("tableView:numberOfRowsInSection:", "A"));
    db.insert(entry("table", "B"));
    db.insert(entry("description", "C"));
    let found = db.find("tableView:numberOfRowsInSection:");
    assert_eq!(found.len(), 1);
    assert_eq!(found[0].selector.parts[1], "numberOfRowsInSection");
    let completions = db.complete("tab");
    assert_eq!(completions.len(), 3);
    assert!(db.complete("x").is_empty());
    assert_eq!(db.complete("").len(), 4);
    assert!(db.find("missing:").is_empty());
}

#[test]
fn selector_db_insert_then_find_appends() {
    let mut db = SelectorDb::new();
    db.insert(entry("a:b:", "X"));
    db.insert(entry("a:b:", "Y"));
    let found = db.find("a:b:");
    assert_eq!(found.len(), 2);
    assert_eq!(found[0].defined_in, "X");
    assert_eq!(found[1].defined_in, "Y");
}

// --- category ------------------------------------------------------------

fn cat(base: &str, name: &str) -> CategoryInfo {
    CategoryInfo {
        base_class: base.to_string(),
        category_name: name.to_string(),
        file: "f.m".to_string(),
        line: 1,
    }
}

#[test]
fn category_registry_groups_by_base_class() {
    let mut r = CategoryRegistry::new();
    r.register(cat("NSString", "Utils"));
    r.register(cat("NSArray", "Extra"));
    r.register(cat("NSString", "More"));
    let s = r.categories_for("NSString");
    assert_eq!(s.len(), 2);
    assert_eq!(s[0].category_name, "Utils");
    assert_eq!(s[1].category_name, "More");
    assert!(r.categories_for("UIView").is_empty());
    assert_eq!(r.all_base_classes(), vec!["NSString", "NSArray"]);
}

// --- protocol stubs --------------------------------------------------------

#[test]
fn generate_stubs_joins_with_newline() {
    let m = |sel: &str, sig: &str| MissingMethod {
        protocol: "P".to_string(),
        selector: sel.to_string(),
        is_class_method: false,
        signature: sig.to_string(),
    };
    assert_eq!(generate_stubs(&[]), "");
    let one = generate_stubs(&[m("run", "- (void)run")]);
    assert_eq!(one, "- (void)run {\n    // TODO: implement run\n}\n");
    let two = generate_stubs(&[m("a", "- (void)a"), m("b", "+ (int)b")]);
    assert_eq!(
        two,
        "- (void)a {\n    // TODO: implement a\n}\n\n+ (int)b {\n    // TODO: implement b\n}\n"
    );
}

#[test]
fn counterpart_is_the_first_existing_candidate() {
    let mut answers = vec![false; 8];
    answers[5] = true;
    answers[6] = true;
    assert_eq!(counterpart_given("/p/include/Engine.h", &answers).unwrap(), "/p/src/Engine.mm");
    assert!(counterpart_given("/p/include/Engine.h", &vec![false; 8]).is_none());
    assert_eq!(counterpart_given("/p/src/Model.m", &vec![false, true]).unwrap(), "/p/include/Model.h");
}

#[test]
fn first_existing_picks_the_first_true_answer() {
    let cands = vec!["a".to_string(), "b".to_string(), "c".to_string()];
    assert_eq!(first_existing(&cands, &vec![false, true, true]).unwrap(), "b");
    assert!(first_existing(&cands, &vec![false, false, false]).is_none());
}

#[test]
fn selectors_compare_by_parts() {
    let a = Selector::parse("foo");
    let b = Selector::parse("foo:");
    assert!(a == b);
    assert!(Selector::parse("foo:bar:") != Selector::parse("foo:baz:"));
    let (mut ha, mut hb) = (DefaultHasher::new(), DefaultHasher::new());
    a.hash(&mut ha);
    b.hash(&mut hb);
    assert_eq!(ha.finish(), hb.finish());
}
