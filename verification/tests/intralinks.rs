use cargo_reedme::config::Config;
use cargo_reedme::intralinks;
use cargo_reedme::intralinks::{
    all_links_linkable, broken_link_target, collect_all_items_info, create_links,
    is_stdlib_crate, link_fragment, needs_rustdoc_html, CrateModel,
    ExternalCrate, ItemInfo, ItemInner, ItemKind, ItemModel, ItemParent, ItemSummary, Links,
    StructFields, SummaryKind,
};

#[test]
fn extract_rustdoc_link() {
    assert_eq!(
        intralinks::extract_rustdoc_link(
            "`SHAPE`",
            r#"<p>facet provides reflection for Rust: it gives types a <a href="trait.Facet.html#associatedconstant.SHAPE" title="associated constant facet::Facet::SHAPE"><code>SHAPE</code></a> associated"#,
        )
        .unwrap(),
        "trait.Facet.html#associatedconstant.SHAPE"
    );
}

#[test]
fn extract_rustdoc_link_plain_text() {
    assert_eq!(
        intralinks::extract_rustdoc_link("foo", r#"<a href="x.html">first</a> <a href="y.html">foo</a>"#).unwrap(),
        "y.html"
    );
    assert_eq!(intralinks::extract_rustdoc_link("bar", r#"<a href="y.html">foo</a>"#), None);
    assert_eq!(intralinks::extract_rustdoc_link("foo", "foo <a href=\"y.html\">"), None);
}

#[test]
fn fragment_of_links() {
    assert_eq!(
        link_fragment("https://doc.rust-lang.org/std/vec/struct.Vec.html#method.push").unwrap(),
        "method.push"
    );
    assert_eq!(link_fragment("Vec"), None);
    // A leading backtick is no part of the fragment's position.
    assert_eq!(link_fragment("`Vec#push`").unwrap(), "push`");
    assert_eq!(link_fragment("`a#b`").unwrap(), "b`");
    assert_eq!(link_fragment("`é#x").unwrap(), "x");
}

#[test]
fn broken_links_resolve_with_fragment() {
    let mut links = Links::new();
    links.insert("Vec#method.push".to_string(), "https://x/Vec.html".to_string());
    links.insert("Vec".to_string(), "https://x/Vec.html".to_string());
    assert_eq!(broken_link_target(&links, "Vec").unwrap(), "https://x/Vec.html");
    assert_eq!(
        broken_link_target(&links, "Vec#method.push").unwrap(),
        "https://x/Vec.html#method.push"
    );
    assert_eq!(broken_link_target(&links, "Other"), None);
}

#[test]
fn links_insert_replaces() {
    let mut links = Links::new();
    links.insert("a".to_string(), "1".to_string());
    links.insert("a".to_string(), "2".to_string());
    assert_eq!(links.get("a").unwrap(), "2");
    assert_eq!(links.get("b"), None);
}

#[test]
fn url_segments() {
    assert_eq!(ItemKind::Struct.url_segment("S"), "struct.S.html");
    assert_eq!(ItemKind::Module.url_segment("m"), "m/");
    assert_eq!(ItemKind::TyMethod.url_segment("f"), "#tymethod.f");
    assert_eq!(ItemKind::ProcAttribute.url_segment("a"), "attr.a.html");
    assert!(!ItemKind::Impl.is_linkable());
    assert!(ItemKind::Primitive.is_linkable());
}

#[test]
fn kinds_of_functions() {
    assert!(ItemKind::from_rustdoc_item_parent(SummaryKind::Function, Some(ItemParent::Impl)) == ItemKind::Method);
    assert!(ItemKind::from_rustdoc_item_parent(SummaryKind::Function, Some(ItemParent::Trait)) == ItemKind::TyMethod);
    assert!(ItemKind::from_rustdoc_item_parent(SummaryKind::Function, None) == ItemKind::Function);
}

#[test]
fn nightly_std_links_to_stable() {
    let info = ItemInfo {
        crate_id: 1,
        path: vec!["std".into(), "vec".into(), "Vec".into()],
        kind: ItemKind::Struct,
        parent_kind: None,
    };
    let std = ExternalCrate {
        id: 1,
        name: "std".into(),
        html_root_url: Some("https://doc.rust-lang.org/nightly/".into()),
    };
    assert!(is_stdlib_crate(&std));
    assert_eq!(
        info.url(&vec![std], "https://docs.rs", "p", "1.0.0"),
        "https://doc.rust-lang.org/stable/std/vec/struct.Vec.html"
    );
    let unknown = ItemInfo { crate_id: 5, ..info };
    assert_eq!(unknown.url(&vec![], "https://docs.rs", "p", "1.0.0"), "");
}

fn small_crate(links: Vec<(String, u32)>) -> CrateModel {
    CrateModel {
        root: 0,
        root_docs: Some("[f] [g]".into()),
        root_links: links,
        index: vec![
            ItemModel { id: 0, crate_id: 0, name: Some("c".into()), inner: ItemInner::Module },
            ItemModel { id: 1, crate_id: 0, name: Some("f".into()), inner: ItemInner::Function },
        ],
        paths: vec![
            ItemSummary { id: 0, crate_id: 0, path: vec!["c".into()], kind: SummaryKind::Module },
            ItemSummary { id: 1, crate_id: 0, path: vec!["c".into(), "f".into()], kind: SummaryKind::Function },
        ],
        external_crates: vec![],
    }
}

#[test]
fn unknown_items_are_found_in_html() {
    let k = small_crate(vec![("f".into(), 1), ("g".into(), 42)]);
    assert!(needs_rustdoc_html(&k));
    assert!(all_links_linkable(&k));
    let html = r#"<p><a href="fn.f.html">f</a> <a href="fn.g.html">g</a></p>"#;
    let links = create_links(&k, &Config::default_config(), "c", "1.0.0", html);
    assert_eq!(links.get("f").unwrap(), "https://docs.rs/c/latest/c/fn.f.html");
    assert_eq!(links.get("g").unwrap(), "https://docs.rs/c/latest/c/fn.g.html");
    let without_html = create_links(&k, &Config::default_config(), "c", "1.0.0", "");
    assert_eq!(without_html.get("g"), None);
}

#[test]
fn known_items_need_no_html() {
    let k = small_crate(vec![("f".into(), 1)]);
    assert!(!needs_rustdoc_html(&k));
    let info = collect_all_items_info(&k);
    assert!(info.get(1).is_some());
    assert!(info.get(7).is_none());
}

#[test]
fn keyword_links_have_no_url() {
    let mut k = small_crate(vec![("fn".into(), 3)]);
    k.index.push(ItemModel { id: 3, crate_id: 0, name: Some("fn".into()), inner: ItemInner::Module });
    k.paths.push(ItemSummary { id: 3, crate_id: 0, path: vec!["std".into(), "fn".into()], kind: SummaryKind::Keyword });
    assert!(!all_links_linkable(&k));
}

/// Items held through a chain as long as the crate allows are all reached:
/// a struct holds an impl block, which holds a method.
#[test]
fn nested_items_are_reached() {
    let k = CrateModel {
        root: 0,
        root_docs: None,
        root_links: vec![],
        index: vec![
            ItemModel { id: 0, crate_id: 0, name: Some("S".into()), inner: ItemInner::Struct { kind: StructFields::Unit, impls: vec![1] } },
            ItemModel { id: 1, crate_id: 0, name: None, inner: ItemInner::Impl { for_resolved_path: true, items: vec![2] } },
            ItemModel { id: 2, crate_id: 0, name: Some("f".into()), inner: ItemInner::Function },
        ],
        paths: vec![ItemSummary { id: 0, crate_id: 0, path: vec!["c".into(), "S".into()], kind: SummaryKind::Struct }],
        external_crates: vec![],
    };
    let info = collect_all_items_info(&k);
    assert!(info.get(1).is_none());
    let method = info.get(2).unwrap();
    assert_eq!(method.path, vec!["c".to_string(), "S".to_string(), "f".to_string()]);
}
