//! Intra-doc links resolved from what rustdoc reports of small crates.
//!
//! Each crate is written as the model that rustdoc's JSON output gives for
//! the source named in the test.

use cargo_reedme::config::{Config, ConfigToml, PackageMetadata};
use cargo_reedme::insert_into_readme::ReadmeContents;
use cargo_reedme::intralinks::{
    all_links_linkable, CrateModel, ExternalCrate, ItemInner, ItemModel, ItemSummary, MacroKind,
    StructFields, SummaryKind,
};
use cargo_reedme::readme::generate_readme;

const ROOT: u32 = 0;

fn item(id: u32, name: Option<&str>, inner: ItemInner) -> ItemModel {
    ItemModel { id, crate_id: 0, name: name.map(|s| s.to_string()), inner }
}

fn summary(id: u32, crate_id: u32, path: &[&str], kind: SummaryKind) -> ItemSummary {
    ItemSummary { id, crate_id, path: path.iter().map(|s| s.to_string()).collect(), kind }
}

/// A crate named `test_case` whose root documentation is `docs`, with the
/// given items besides its root module.
fn krate(
    docs: &str,
    links: &[(&str, u32)],
    mut index: Vec<ItemModel>,
    mut paths: Vec<ItemSummary>,
    external_crates: Vec<ExternalCrate>,
) -> CrateModel {
    index.insert(0, item(ROOT, Some("test_case"), ItemInner::Module));
    paths.insert(0, summary(ROOT, 0, &["test_case"], SummaryKind::Module));
    CrateModel {
        root: ROOT,
        root_docs: Some(docs.to_string()),
        root_links: links.iter().map(|(l, id)| (l.to_string(), *id)).collect(),
        index,
        paths,
        external_crates,
    }
}

/// The README text generated for the crate with the default configuration.
fn generated(krate: &CrateModel) -> String {
    generated_with(krate, &Config::default_config())
}

fn generated_with(krate: &CrateModel, config: &Config) -> String {
    assert!(all_links_linkable(krate));
    match generate_readme(config, krate, "test_case", "0.0.0", "", None) {
        Ok(Some(ReadmeContents::NewlyCreated(s))) => s,
        _ => panic!("a README is generated"),
    }
}

fn test_link(link: &str, krate: CrateModel, result: &str) {
    test_link_full(link, krate, &format!("https://docs.rs/test_case/latest/test_case/{result}"));
}

fn test_link_full(link: &str, krate: CrateModel, result: &str) {
    assert_eq!(generated(&krate), format!("{link}({result})"));
}

/// `struct X { y: i32 }` or `union X { y: () }`, linked as `[X::y]`.
fn field_crate(union: bool) -> CrateModel {
    let inner = if union {
        ItemInner::Union { fields: vec![2], impls: vec![] }
    } else {
        ItemInner::Struct { kind: StructFields::Plain(vec![2]), impls: vec![] }
    };
    let kind = if union { SummaryKind::Union } else { SummaryKind::Struct };
    krate(
        "[X::y]",
        &[("X::y", 2)],
        vec![item(1, Some("X"), inner), item(2, Some("y"), ItemInner::StructField)],
        vec![summary(1, 0, &["test_case", "X"], kind)],
        vec![],
    )
}

/// A type `X` of the given kind with an impl block holding the function `y`.
fn impl_crate(link: &str, name: &str, member: &str, enum_: bool) -> CrateModel {
    let (inner, kind, mut extra) = if enum_ {
        (
            ItemInner::Enum { variants: vec![5], impls: vec![3] },
            SummaryKind::Enum,
            vec![item(5, Some("A"), ItemInner::Variant)],
        )
    } else {
        (
            ItemInner::Struct { kind: StructFields::Unit, impls: vec![3] },
            SummaryKind::Struct,
            vec![],
        )
    };
    let mut index = vec![
        item(1, Some(name), inner),
        item(3, None, ItemInner::Impl { for_resolved_path: true, items: vec![4] }),
        item(4, Some(member), ItemInner::Function),
    ];
    index.append(&mut extra);
    krate(
        &format!("[{link}]"),
        &[(link, 4)],
        index,
        vec![summary(1, 0, &["test_case", name], kind)],
        vec![],
    )
}

/// A trait `name` holding the item `member`.
fn trait_crate(link: &str, name: &str, member: &str, inner: ItemInner) -> CrateModel {
    krate(
        &format!("[{link}]"),
        &[(link, 2)],
        vec![item(1, Some(name), ItemInner::Trait { items: vec![2] }), item(2, Some(member), inner)],
        vec![summary(1, 0, &["test_case", name], SummaryKind::Trait)],
        vec![],
    )
}

/// A single item `x` of the crate, with a path.
fn top_level_crate(link: &str, name: &str, inner: ItemInner, kind: SummaryKind) -> CrateModel {
    krate(
        &format!("[{link}]"),
        &[(link, 1)],
        vec![item(1, Some(name), inner)],
        vec![summary(1, 0, &["test_case", name], kind)],
        vec![],
    )
}

#[test]
fn kind_field() {
    test_link("[X::y]", field_crate(false), "struct.X.html#structfield.y");
    test_link("[X::y]", field_crate(true), "union.X.html#structfield.y");
}

#[test]
fn kind_method() {
    test_link("[X::y]", impl_crate("X::y", "X", "y", false), "struct.X.html#method.y");
    test_link("[X::y]", impl_crate("X::y", "X", "y", true), "enum.X.html#method.y");
}

#[test]
fn trait_items() {
    // The trait method definition
    test_link("[X::y]", trait_crate("X::y", "X", "y", ItemInner::Function), "trait.X.html#tymethod.y");
    // An associated type within a trait
    test_link(
        "[X::Y]",
        trait_crate("X::Y", "X", "Y", ItemInner::AssocType),
        "trait.X.html#associatedtype.Y",
    );
    // An associated constant within a trait
    test_link(
        "[X::Y]",
        trait_crate("X::Y", "X", "Y", ItemInner::AssocConst),
        "trait.X.html#associatedconstant.Y",
    );
}

#[test]
fn associated_fn() {
    test_link("[X::y]", impl_crate("X::y", "X", "y", false), "struct.X.html#method.y");
}

#[test]
fn link_enum_variant() {
    let k = krate(
        "[E::A]",
        &[("E::A", 2)],
        vec![
            item(1, Some("E"), ItemInner::Enum { variants: vec![2], impls: vec![] }),
            item(2, Some("A"), ItemInner::Variant),
        ],
        vec![summary(1, 0, &["test_case", "E"], SummaryKind::Enum)],
        vec![],
    );
    test_link("[E::A]", k, "enum.E.html#variant.A");
}

#[test]
fn link_struct_field() {
    let k = krate(
        "[S::f]",
        &[("S::f", 2)],
        vec![
            item(1, Some("S"), ItemInner::Struct { kind: StructFields::Plain(vec![2]), impls: vec![] }),
            item(2, Some("f"), ItemInner::StructField),
        ],
        vec![summary(1, 0, &["test_case", "S"], SummaryKind::Struct)],
        vec![],
    );
    test_link("[S::f]", k, "struct.S.html#structfield.f");
}

#[test]
fn link_union_field() {
    let k = krate(
        "[U::f]",
        &[("U::f", 2)],
        vec![
            item(1, Some("U"), ItemInner::Union { fields: vec![2], impls: vec![] }),
            item(2, Some("f"), ItemInner::StructField),
        ],
        vec![summary(1, 0, &["test_case", "U"], SummaryKind::Union)],
        vec![],
    );
    test_link("[U::f]", k, "union.U.html#structfield.f");
}

#[test]
fn link_method() {
    test_link("[S::m]", impl_crate("S::m", "S", "m", false), "struct.S.html#method.m");
}

#[test]
fn link_assoc_fn() {
    test_link("[S::f]", impl_crate("S::f", "S", "f", false), "struct.S.html#method.f");
}

#[test]
fn link_assoc_const() {
    let k = krate(
        "[S::C]",
        &[("S::C", 4)],
        vec![
            item(1, Some("S"), ItemInner::Struct { kind: StructFields::Unit, impls: vec![3] }),
            item(3, None, ItemInner::Impl { for_resolved_path: true, items: vec![4] }),
            item(4, Some("C"), ItemInner::AssocConst),
        ],
        vec![summary(1, 0, &["test_case", "S"], SummaryKind::Struct)],
        vec![],
    );
    test_link("[S::C]", k, "struct.S.html#associatedconstant.C");
}

#[test]
fn link_trait_method() {
    test_link("[T::m]", trait_crate("T::m", "T", "m", ItemInner::Function), "trait.T.html#tymethod.m");
}

#[test]
fn link_trait_assoc_type() {
    test_link(
        "[T::A]",
        trait_crate("T::A", "T", "A", ItemInner::AssocType),
        "trait.T.html#associatedtype.A",
    );
}

/// `fn x() {} struct x {}`, with the link pointing to the item of the given id.
fn ambiguous_crate(link: &str, id: u32) -> CrateModel {
    krate(
        &format!("[{link}]"),
        &[(link, id)],
        vec![
            item(1, Some("x"), ItemInner::Function),
            item(2, Some("x"), ItemInner::Struct { kind: StructFields::Plain(vec![]), impls: vec![] }),
        ],
        vec![
            summary(1, 0, &["test_case", "x"], SummaryKind::Function),
            summary(2, 0, &["test_case", "x"], SummaryKind::Struct),
        ],
        vec![],
    )
}

#[test]
fn resolve_ambiguity_fn() {
    test_link("[fn@x]", ambiguous_crate("fn@x", 1), "fn.x.html");
}

#[test]
fn resolve_ambiguity_struct() {
    test_link("[struct@x]", ambiguous_crate("struct@x", 2), "struct.x.html");
}

/// `fn x() {} #[macro_export] macro_rules! x { () => {} }`, linked to the macro.
fn macro_crate(link: &str) -> CrateModel {
    krate(
        &format!("[{link}]"),
        &[(link, 2)],
        vec![item(1, Some("x"), ItemInner::Function), item(2, Some("x"), ItemInner::Macro)],
        vec![
            summary(1, 0, &["test_case", "x"], SummaryKind::Function),
            summary(2, 0, &["test_case", "x"], SummaryKind::Macro),
        ],
        vec![],
    )
}

#[test]
fn resolve_ambiguity_macro() {
    test_link("[x!]", macro_crate("x!"), "macro.x.html");
    test_link("[macro@x]", macro_crate("macro@x"), "macro.x.html");
}

#[test]
fn resolution_by_suffix() {
    test_link(
        "[x()]",
        top_level_crate("x()", "x", ItemInner::Function, SummaryKind::Function),
        "fn.x.html",
    );
    test_link("[x!]", top_level_crate("x!", "x", ItemInner::Macro, SummaryKind::Macro), "macro.x.html");
}

#[test]
fn link_module() {
    test_link("[m]", top_level_crate("m", "m", ItemInner::Module, SummaryKind::Module), "m/");
}

#[test]
fn link_nested_item() {
    let k = krate(
        "[m::x]",
        &[("m::x", 2)],
        vec![item(1, Some("m"), ItemInner::Module), item(2, Some("x"), ItemInner::Function)],
        vec![
            summary(1, 0, &["test_case", "m"], SummaryKind::Module),
            summary(2, 0, &["test_case", "m", "x"], SummaryKind::Function),
        ],
        vec![],
    );
    test_link("[m::x]", k, "m/fn.x.html");
}

/// The standard library, as rustdoc names it for a nightly toolchain.
fn std_crate(id: u32, name: &str) -> ExternalCrate {
    ExternalCrate {
        id,
        name: name.to_string(),
        html_root_url: Some("https://doc.rust-lang.org/nightly/".to_string()),
    }
}

fn primitive_crate(name: &str) -> CrateModel {
    krate(
        &format!("[{name}]"),
        &[(name, 7)],
        vec![],
        vec![summary(7, 1, &["std", name], SummaryKind::Primitive)],
        vec![std_crate(1, "std")],
    )
}

#[test]
fn primitive_link() {
    test_link_full(
        "[u32]",
        primitive_crate("u32"),
        "https://doc.rust-lang.org/stable/std/primitive.u32.html",
    );
    test_link_full(
        "[slice]",
        primitive_crate("slice"),
        "https://doc.rust-lang.org/stable/std/primitive.slice.html",
    );
}

#[test]
fn relative_paths() {
    test_link(
        "[crate::x]",
        top_level_crate("crate::x", "x", ItemInner::Function, SummaryKind::Function),
        "fn.x.html",
    );
    test_link(
        "[self::x]",
        top_level_crate("self::x", "x", ItemInner::Function, SummaryKind::Function),
        "fn.x.html",
    );
}

#[test]
fn tuple_struct_field() {
    let k = krate(
        "[S::0]",
        &[("S::0", 2)],
        vec![
            item(1, Some("S"), ItemInner::Struct { kind: StructFields::Tuple(vec![Some(2)]), impls: vec![] }),
            item(2, Some("0"), ItemInner::StructField),
        ],
        vec![summary(1, 0, &["test_case", "S"], SummaryKind::Struct)],
        vec![],
    );
    test_link("[S::0]", k, "struct.S.html#structfield.0");
}

#[test]
fn nested_assoc_item() {
    let k = krate(
        "[m::S::f]",
        &[("m::S::f", 5)],
        vec![
            item(1, Some("m"), ItemInner::Module),
            item(2, Some("S"), ItemInner::Struct { kind: StructFields::Unit, impls: vec![4] }),
            item(4, None, ItemInner::Impl { for_resolved_path: true, items: vec![5] }),
            item(5, Some("f"), ItemInner::Function),
        ],
        vec![
            summary(1, 0, &["test_case", "m"], SummaryKind::Module),
            summary(2, 0, &["test_case", "m", "S"], SummaryKind::Struct),
        ],
        vec![],
    );
    test_link("[m::S::f]", k, "m/struct.S.html#method.f");
}

#[test]
fn generic_path_ignoring() {
    let k = krate(
        "[Vec<T>::push]",
        &[("Vec<T>::push", 4)],
        vec![
            item(1, Some("Vec"), ItemInner::Struct { kind: StructFields::Plain(vec![2]), impls: vec![3] }),
            item(2, Some("a"), ItemInner::StructField),
            item(3, None, ItemInner::Impl { for_resolved_path: true, items: vec![4] }),
            item(4, Some("push"), ItemInner::Function),
        ],
        vec![summary(1, 0, &["test_case", "Vec"], SummaryKind::Struct)],
        vec![],
    );
    test_link("[Vec<T>::push]", k, "struct.Vec.html#method.push");
}

/// The configuration of a package whose table sets only
/// `base-url = "https://example.com"`.
fn example_base_url() -> Config {
    let mut table = ConfigToml::empty();
    table.base_url = Some("https://example.com".to_string());
    Config::new(
        PackageMetadata { cargo_reedme: None, docs_rs: None },
        PackageMetadata { cargo_reedme: Some(table), docs_rs: None },
    )
}

/// `base-url` Doesn't affect stuff from STD
#[test]
fn base_url_on_std() {
    let k = krate(
        "[Option]",
        &[("Option", 9)],
        vec![],
        vec![summary(9, 2, &["core", "option", "Option"], SummaryKind::Enum)],
        vec![std_crate(2, "core")],
    );
    assert_eq!(
        generated_with(&k, &example_base_url()),
        "[Option](https://doc.rust-lang.org/stable/core/option/enum.Option.html)"
    );
}

/// `base-url` Doesn't affect stuff from external dependencies
/// because they have their own HTML root URL
#[test]
fn base_url_on_external_crate() {
    let k = krate(
        "[serde_core::Serialize]",
        &[("serde_core::Serialize", 9)],
        vec![],
        vec![summary(9, 3, &["serde_core", "ser", "Serialize"], SummaryKind::Trait)],
        vec![ExternalCrate {
            id: 3,
            name: "serde_core".to_string(),
            html_root_url: Some("https://docs.rs/serde_core/1.0.228/".to_string()),
        }],
    );
    assert_eq!(
        generated_with(&k, &example_base_url()),
        "[serde_core::Serialize](https://docs.rs/serde_core/1.0.228/serde_core/ser/trait.Serialize.html)"
    );
}

#[test]
fn base_url() {
    let k = top_level_crate("x", "x", ItemInner::Function, SummaryKind::Function);
    assert_eq!(
        generated_with(&k, &example_base_url()),
        "[x](https://example.com/test_case/0.0.0/test_case/fn.x.html)"
    );
}

/// Setting `use-latest-version` puts `latest` in place of the version on
/// any base URL.
#[test]
fn base_url_with_latest_version() {
    let k = top_level_crate("x", "x", ItemInner::Function, SummaryKind::Function);
    let mut config = example_base_url();
    config.use_latest_version = true;
    assert_eq!(generated_with(&k, &config), "[x](https://example.com/test_case/latest/test_case/fn.x.html)");
}

/// An external crate without a documentation root is linked on the base URL.
#[test]
fn external_crate_without_root() {
    let k = krate(
        "[dep::f]",
        &[("dep::f", 9)],
        vec![],
        vec![summary(9, 4, &["dep", "f"], SummaryKind::Function)],
        vec![ExternalCrate { id: 4, name: "dep".to_string(), html_root_url: None }],
    );
    assert_eq!(generated(&k), "[dep::f](https://docs.rs/dep/latest/dep/fn.f.html)");
}

/// A proc macro derive is linked as a derive.
#[test]
fn derive_macro_link() {
    let k = top_level_crate("D", "D", ItemInner::ProcMacro(MacroKind::Derive), SummaryKind::ProcDerive);
    test_link("[D]", k, "derive.D.html");
}
