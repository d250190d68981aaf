use llvm_sys_query::listing::{is_listed, join_segments, starts_with_module, ItemKind, ItemListing};

fn segs(parts: &[&str]) -> Vec<String> {
    parts.iter().map(|p| p.to_string()).collect()
}

#[test]
fn join_segments_uses_double_colons() {
    assert_eq!(join_segments(&segs(&["llvm_sys", "orc2", "LLVMOrcFoo"])), "llvm_sys::orc2::LLVMOrcFoo");
    assert_eq!(join_segments(&segs(&["a"])), "a");
    assert_eq!(join_segments(&segs(&[])), "");
}

#[test]
fn starts_with_module_compares_whole_segments() {
    let module = segs(&["llvm_sys", "orc2"]);
    assert!(starts_with_module(&module, &segs(&["llvm_sys", "orc2", "f"])));
    assert!(starts_with_module(&module, &segs(&["llvm_sys", "orc2"])));
    assert!(!starts_with_module(&module, &segs(&["llvm_sys"])));
    assert!(!starts_with_module(&module, &segs(&["llvm_sys", "orc2x", "f"])));
    assert!(starts_with_module(&segs(&[]), &segs(&[])));
}

#[test]
fn only_listed_kinds_are_shown() {
    assert!(is_listed(ItemKind::Function));
    assert!(is_listed(ItemKind::TypeAlias));
    assert!(!is_listed(ItemKind::Other));
}

#[test]
fn report_groups_items_by_kind_and_path() {
    let module = segs(&["llvm_sys", "orc2"]);
    let mut listing = ItemListing::new();
    let f = segs(&["llvm_sys", "orc2", "LLVMOrcA"]);
    let g = segs(&["llvm_sys", "orc2", "LLVMOrcB"]);
    let m = segs(&["llvm_sys", "orc2", "lljit"]);
    let outside = segs(&["llvm_sys", "core", "LLVMContextCreate"]);
    listing.record(&module, &f, ItemKind::Function, "120.3.2");
    listing.record(&module, &m, ItemKind::Module, "120.3.2");
    listing.record(&module, &outside, ItemKind::Function, "120.3.2");
    listing.record(&module, &f, ItemKind::Other, "120.3.2");
    listing.record(&module, &f, ItemKind::Function, "130.1.2");
    listing.record(&module, &g, ItemKind::Function, "130.1.2");
    listing.record(&module, &f, ItemKind::Struct, "130.1.2");
    let expected = vec![
        "---- [FUNCTIONS] ----",
        "llvm_sys::orc2::LLVMOrcA",
        "    - 120.3.2",
        "    - 130.1.2",
        "llvm_sys::orc2::LLVMOrcB",
        "    - 130.1.2",
        "---- [MODULES] ----",
        "llvm_sys::orc2::lljit",
        "    - 120.3.2",
        "---- [STRUCTS] ----",
        "llvm_sys::orc2::LLVMOrcA",
        "    - 130.1.2",
        "---- [ENUMS] ----",
        "---- [TRAITS] ----",
        "---- [ALIASES] ----",
    ];
    assert_eq!(listing.report(), expected);
}

#[test]
fn empty_listing_reports_only_titles() {
    let listing = ItemListing::new();
    assert_eq!(
        listing.report(),
        vec![
            "---- [FUNCTIONS] ----",
            "---- [MODULES] ----",
            "---- [STRUCTS] ----",
            "---- [ENUMS] ----",
            "---- [TRAITS] ----",
            "---- [ALIASES] ----",
        ]
    );
}
