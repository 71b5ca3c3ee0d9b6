//! Resolves rustdoc intra-doc links into URLs.
//!
//! The crate documented by rustdoc is described by a [`CrateModel`]: the
//! items of its index, the paths of the items that have one, and the external
//! crates. The binary fills it from rustdoc's JSON output.

use std::collections::HashMap;
use vstd::prelude::*;

use crate::config::Config;
use crate::text::{
    before_char, chars_of, ends_with, find_char, find_chars, first_char_index,
    first_occurrence, has_prefix, has_suffix, last_occurrence, push_str, rfind_chars,
    starts_with, string_from_chars, string_of,
};

verus! {

/// Kind of an item, as far as its URL is concerned.
#[derive(PartialEq, Eq, Structural, Clone, Copy)]
pub enum ItemKind {
    Module,
    ExternCrate,
    Use,
    Struct,
    StructField,
    Union,
    Enum,
    Variant,
    Function,
    TypeAlias,
    Constant,
    Trait,
    TraitAlias,
    Impl,
    Static,
    ExternType,
    Macro,
    ProcAttribute,
    ProcDerive,
    AssocConst,
    AssocType,
    Primitive,
    Keyword,
    Attribute,
    // Kinds that rustdoc does not distinguish from `Function`:
    Method,
    TyMethod,
}

/// The kind of item that a path summary of rustdoc names.
#[derive(PartialEq, Eq, Structural, Clone, Copy)]
pub enum SummaryKind {
    Module,
    ExternCrate,
    Use,
    Struct,
    StructField,
    Union,
    Enum,
    Variant,
    Function,
    TypeAlias,
    Constant,
    Trait,
    TraitAlias,
    Impl,
    Static,
    ExternType,
    Macro,
    ProcAttribute,
    ProcDerive,
    AssocConst,
    AssocType,
    Primitive,
    Keyword,
    Attribute,
}

/// The kind of block that an item is declared in.
#[derive(PartialEq, Eq, Structural, Clone, Copy)]
pub enum ItemParent {
    Impl,
    Trait,
}

/// The kind of a procedural macro.
#[derive(PartialEq, Eq, Structural, Clone, Copy)]
pub enum MacroKind {
    Bang,
    Attr,
    Derive,
}

/// The fields of a struct.
pub enum StructFields {
    Unit,
    /// Tuple fields; `None` for a field that rustdoc stripped
    Tuple(Vec<Option<u32>>),
    Plain(Vec<u32>),
}

/// What an item of rustdoc's index is, with the ids of the items it holds.
pub enum ItemInner {
    Module,
    ExternCrate,
    Use,
    Union { fields: Vec<u32>, impls: Vec<u32> },
    Struct { kind: StructFields, impls: Vec<u32> },
    StructField,
    Enum { variants: Vec<u32>, impls: Vec<u32> },
    Variant,
    Function,
    Trait { items: Vec<u32> },
    TraitAlias,
    /// `for_resolved_path` is whether the impl is for a named type
    Impl { for_resolved_path: bool, items: Vec<u32> },
    TypeAlias,
    Constant,
    Static,
    ExternType,
    Macro,
    ProcMacro(MacroKind),
    Primitive { impls: Vec<u32> },
    AssocConst,
    AssocType,
}

/// An item of rustdoc's index.
pub struct ItemModel {
    pub id: u32,
    pub crate_id: u32,
    pub name: Option<String>,
    pub inner: ItemInner,
}

/// The path of an item, as rustdoc records it.
pub struct ItemSummary {
    pub id: u32,
    pub crate_id: u32,
    pub path: Vec<String>,
    pub kind: SummaryKind,
}

/// A crate that the documented crate depends on.
pub struct ExternalCrate {
    pub id: u32,
    pub name: String,
    pub html_root_url: Option<String>,
}

/// What rustdoc reports of a crate.
pub struct CrateModel {
    /// Id of the crate's root module
    pub root: u32,
    /// Documentation of the root module
    pub root_docs: Option<String>,
    /// Intra-doc links of the root module's documentation, with the items they point to
    pub root_links: Vec<(String, u32)>,
    pub index: Vec<ItemModel>,
    pub paths: Vec<ItemSummary>,
    pub external_crates: Vec<ExternalCrate>,
}

/// Information about a single item, used to compute the URL of its
/// documentation.
pub struct ItemInfo {
    /// The crate that this item comes from
    pub crate_id: u32,
    /// Path to the item, e.g. `["std", "clone", "Clone"]`
    pub path: Vec<String>,
    /// Kind of item (e.g. function, method, module..)
    pub kind: ItemKind,
    /// Kind of the item's parent, for items that have one
    pub parent_kind: Option<ItemKind>,
}

/// An [`ItemInfo`] with its path as character sequences.
pub struct InfoV {
    pub crate_id: u32,
    pub path: Seq<Seq<char>>,
    pub kind: ItemKind,
    pub parent_kind: Option<ItemKind>,
}

/// The strings as character sequences.
pub open spec fn strings_view(v: Seq<String>) -> Seq<Seq<char>> {
    v.map_values(|s: String| s@)
}

/// The information with its path as character sequences.
pub open spec fn info_view(i: ItemInfo) -> InfoV {
    InfoV { crate_id: i.crate_id, path: strings_view(i.path@), kind: i.kind, parent_kind: i.parent_kind }
}

/// Items of these kinds have a page or an anchor that a link can point to.
pub open spec fn linkable(k: ItemKind) -> bool {
    !(k is Keyword || k is ExternCrate || k is Use || k is Impl || k is ExternType || k is Attribute)
}

/// The part of a URL that a path segment of the given kind contributes.
pub open spec fn segment_text(k: ItemKind, name: Seq<char>) -> Seq<char> {
    match k {
        ItemKind::Module => name + "/"@,
        ItemKind::Struct => "struct."@ + name + ".html"@,
        ItemKind::StructField => "#structfield."@ + name,
        ItemKind::Union => "union."@ + name + ".html"@,
        ItemKind::Enum => "enum."@ + name + ".html"@,
        ItemKind::Variant => "#variant."@ + name,
        ItemKind::Function => "fn."@ + name + ".html"@,
        ItemKind::Method => "#method."@ + name,
        ItemKind::TyMethod => "#tymethod."@ + name,
        ItemKind::TypeAlias => "type."@ + name + ".html"@,
        ItemKind::Constant => "const."@ + name + ".html"@,
        ItemKind::Trait => "trait."@ + name + ".html"@,
        ItemKind::TraitAlias => "traitalias."@ + name + ".html"@,
        ItemKind::Static => "static."@ + name + ".html"@,
        ItemKind::Macro => "macro."@ + name + ".html"@,
        ItemKind::ProcAttribute => "attr."@ + name + ".html"@,
        ItemKind::ProcDerive => "derive."@ + name + ".html"@,
        ItemKind::AssocConst => "#associatedconstant."@ + name,
        ItemKind::AssocType => "#associatedtype."@ + name,
        ItemKind::Primitive => "primitive."@ + name + ".html"@,
        _ => Seq::empty(),
    }
}

/// The file or anchor that rustdoc writes for an item named `n`, by kind:
/// a module is a directory; structs, unions, enums, functions, type aliases,
/// constants, traits, trait aliases, statics, macros, attribute and derive
/// macros and primitives have a page `<kind>.<n>.html`; fields, variants,
/// methods, required methods, associated constants and types are anchors
/// `#<kind>.<n>` on their parent's page.
pub proof fn lemma_rustdoc_file_names(n: Seq<char>)
    ensures
        segment_text(ItemKind::Module, n) == n + "/"@,
        segment_text(ItemKind::Struct, n) == "struct."@ + n + ".html"@,
        segment_text(ItemKind::StructField, n) == "#structfield."@ + n,
        segment_text(ItemKind::Union, n) == "union."@ + n + ".html"@,
        segment_text(ItemKind::Enum, n) == "enum."@ + n + ".html"@,
        segment_text(ItemKind::Variant, n) == "#variant."@ + n,
        segment_text(ItemKind::Function, n) == "fn."@ + n + ".html"@,
        segment_text(ItemKind::Method, n) == "#method."@ + n,
        segment_text(ItemKind::TyMethod, n) == "#tymethod."@ + n,
        segment_text(ItemKind::TypeAlias, n) == "type."@ + n + ".html"@,
        segment_text(ItemKind::Constant, n) == "const."@ + n + ".html"@,
        segment_text(ItemKind::Trait, n) == "trait."@ + n + ".html"@,
        segment_text(ItemKind::TraitAlias, n) == "traitalias."@ + n + ".html"@,
        segment_text(ItemKind::Static, n) == "static."@ + n + ".html"@,
        segment_text(ItemKind::Macro, n) == "macro."@ + n + ".html"@,
        segment_text(ItemKind::ProcAttribute, n) == "attr."@ + n + ".html"@,
        segment_text(ItemKind::ProcDerive, n) == "derive."@ + n + ".html"@,
        segment_text(ItemKind::AssocConst, n) == "#associatedconstant."@ + n,
        segment_text(ItemKind::AssocType, n) == "#associatedtype."@ + n,
        segment_text(ItemKind::Primitive, n) == "primitive."@ + n + ".html"@,
{
}

/// `name` between `prefix` and `suffix`.
fn wrap(prefix: &str, name: &str, suffix: &str) -> (r: String)
    ensures
        r@ == prefix@ + name@ + suffix@,
{
    let mut r = string_of(prefix);
    push_str(&mut r, name);
    push_str(&mut r, suffix);
    r
}

impl ItemKind {
    /// The part of the URL for a path segment named `name` of this kind.
    pub fn url_segment(self, name: &str) -> (r: String)
        requires
            linkable(self),
        ensures
            r@ == segment_text(self, name@),
    {
        proof {
            assert(""@ =~= Seq::<char>::empty()) by {
                reveal_strlit("");
            }
        }
        let r = match self {
            ItemKind::Module => wrap("", name, "/"),
            ItemKind::Struct => wrap("struct.", name, ".html"),
            ItemKind::StructField => wrap("#structfield.", name, ""),
            ItemKind::Union => wrap("union.", name, ".html"),
            ItemKind::Enum => wrap("enum.", name, ".html"),
            ItemKind::Variant => wrap("#variant.", name, ""),
            ItemKind::Function => wrap("fn.", name, ".html"),
            ItemKind::Method => wrap("#method.", name, ""),
            ItemKind::TyMethod => wrap("#tymethod.", name, ""),
            ItemKind::TypeAlias => wrap("type.", name, ".html"),
            ItemKind::Constant => wrap("const.", name, ".html"),
            ItemKind::Trait => wrap("trait.", name, ".html"),
            ItemKind::TraitAlias => wrap("traitalias.", name, ".html"),
            ItemKind::Static => wrap("static.", name, ".html"),
            ItemKind::Macro => wrap("macro.", name, ".html"),
            ItemKind::ProcAttribute => wrap("attr.", name, ".html"),
            ItemKind::ProcDerive => wrap("derive.", name, ".html"),
            ItemKind::AssocConst => wrap("#associatedconstant.", name, ""),
            ItemKind::AssocType => wrap("#associatedtype.", name, ""),
            ItemKind::Primitive => wrap("primitive.", name, ".html"),
            _ => String::new(),
        };
        proof {
            assert(r@ =~= segment_text(self, name@));
        }
        r
    }

    /// The kind of an item named in rustdoc's paths, given the kind of block
    /// it is declared in.
    pub fn from_rustdoc_item_parent(kind: SummaryKind, item_context: Option<ItemParent>) -> (r: ItemKind)
        ensures
            r == kind_of_summary(kind, item_context),
    {
        proof {
            reveal(kind_of_summary);
        }
        match kind {
            SummaryKind::Module => ItemKind::Module,
            SummaryKind::ExternCrate => ItemKind::ExternCrate,
            SummaryKind::Use => ItemKind::Use,
            SummaryKind::Struct => ItemKind::Struct,
            SummaryKind::StructField => ItemKind::StructField,
            SummaryKind::Union => ItemKind::Union,
            SummaryKind::Enum => ItemKind::Enum,
            SummaryKind::Variant => ItemKind::Variant,
            SummaryKind::Function => match item_context {
                Some(ItemParent::Impl) => ItemKind::Method,
                Some(ItemParent::Trait) => ItemKind::TyMethod,
                None => ItemKind::Function,
            },
            SummaryKind::TypeAlias => ItemKind::TypeAlias,
            SummaryKind::Constant => ItemKind::Constant,
            SummaryKind::Trait => ItemKind::Trait,
            SummaryKind::TraitAlias => ItemKind::TraitAlias,
            SummaryKind::Impl => ItemKind::Impl,
            SummaryKind::Static => ItemKind::Static,
            SummaryKind::ExternType => ItemKind::ExternType,
            SummaryKind::Macro => ItemKind::Macro,
            SummaryKind::ProcAttribute => ItemKind::ProcAttribute,
            SummaryKind::ProcDerive => ItemKind::ProcDerive,
            SummaryKind::AssocConst => ItemKind::AssocConst,
            SummaryKind::AssocType => ItemKind::AssocType,
            SummaryKind::Primitive => ItemKind::Primitive,
            SummaryKind::Keyword => ItemKind::Keyword,
            SummaryKind::Attribute => ItemKind::Attribute,
        }
    }

    /// The kind of an item of rustdoc's index, given the kind of block it is
    /// declared in.
    pub fn of_item(item: &ItemModel, item_parent: Option<ItemParent>) -> (r: ItemKind)
        ensures
            r == kind_of_item(item.inner, item_parent),
    {
        proof {
            reveal(kind_of_item);
        }
        match &item.inner {
            ItemInner::Module => ItemKind::Module,
            ItemInner::ExternCrate => ItemKind::ExternCrate,
            ItemInner::Use => ItemKind::Use,
            ItemInner::Union { .. } => ItemKind::Union,
            ItemInner::Struct { .. } => ItemKind::Struct,
            ItemInner::StructField => ItemKind::StructField,
            ItemInner::Enum { .. } => ItemKind::Enum,
            ItemInner::Variant => ItemKind::Variant,
            ItemInner::Function => function_kind(item_parent),
            ItemInner::Trait { .. } => ItemKind::Trait,
            ItemInner::TraitAlias => ItemKind::TraitAlias,
            ItemInner::Impl { .. } => ItemKind::Impl,
            ItemInner::TypeAlias => ItemKind::TypeAlias,
            ItemInner::Constant => ItemKind::Constant,
            ItemInner::Static => ItemKind::Static,
            ItemInner::ExternType => ItemKind::ExternType,
            ItemInner::Macro => ItemKind::Macro,
            ItemInner::ProcMacro(MacroKind::Bang) => ItemKind::Macro,
            ItemInner::ProcMacro(MacroKind::Derive) => ItemKind::ProcDerive,
            ItemInner::ProcMacro(MacroKind::Attr) => ItemKind::ProcAttribute,
            ItemInner::Primitive { .. } => ItemKind::Primitive,
            ItemInner::AssocConst => ItemKind::AssocConst,
            ItemInner::AssocType => ItemKind::AssocType,
        }
    }
}

/// The kind of a function declared in the given kind of block.
fn function_kind(item_parent: Option<ItemParent>) -> (r: ItemKind)
    ensures
        r == spec_function_kind(item_parent),
{
    match item_parent {
        Some(ItemParent::Impl) => ItemKind::Method,
        Some(ItemParent::Trait) => ItemKind::TyMethod,
        None => ItemKind::Function,
    }
}

/// Functions are methods in an impl block and required methods in a trait.
pub open spec fn spec_function_kind(item_parent: Option<ItemParent>) -> ItemKind {
    match item_parent {
        Some(ItemParent::Impl) => ItemKind::Method,
        Some(ItemParent::Trait) => ItemKind::TyMethod,
        None => ItemKind::Function,
    }
}

/// The kind of an item named in rustdoc's paths as `kind`, declared in a
/// block of kind `p`.
#[verifier::opaque]
pub open spec fn kind_of_summary(kind: SummaryKind, p: Option<ItemParent>) -> ItemKind {
    match kind {
        SummaryKind::Module => ItemKind::Module,
        SummaryKind::ExternCrate => ItemKind::ExternCrate,
        SummaryKind::Use => ItemKind::Use,
        SummaryKind::Struct => ItemKind::Struct,
        SummaryKind::StructField => ItemKind::StructField,
        SummaryKind::Union => ItemKind::Union,
        SummaryKind::Enum => ItemKind::Enum,
        SummaryKind::Variant => ItemKind::Variant,
        SummaryKind::Function => spec_function_kind(p),
        SummaryKind::TypeAlias => ItemKind::TypeAlias,
        SummaryKind::Constant => ItemKind::Constant,
        SummaryKind::Trait => ItemKind::Trait,
        SummaryKind::TraitAlias => ItemKind::TraitAlias,
        SummaryKind::Impl => ItemKind::Impl,
        SummaryKind::Static => ItemKind::Static,
        SummaryKind::ExternType => ItemKind::ExternType,
        SummaryKind::Macro => ItemKind::Macro,
        SummaryKind::ProcAttribute => ItemKind::ProcAttribute,
        SummaryKind::ProcDerive => ItemKind::ProcDerive,
        SummaryKind::AssocConst => ItemKind::AssocConst,
        SummaryKind::AssocType => ItemKind::AssocType,
        SummaryKind::Primitive => ItemKind::Primitive,
        SummaryKind::Keyword => ItemKind::Keyword,
        SummaryKind::Attribute => ItemKind::Attribute,
    }
}

/// The kind of an item of rustdoc's index, declared in a block of kind `p`.
#[verifier::opaque]
pub open spec fn kind_of_item(inner: ItemInner, p: Option<ItemParent>) -> ItemKind {
    match inner {
        ItemInner::Module => ItemKind::Module,
        ItemInner::ExternCrate => ItemKind::ExternCrate,
        ItemInner::Use => ItemKind::Use,
        ItemInner::Union { .. } => ItemKind::Union,
        ItemInner::Struct { .. } => ItemKind::Struct,
        ItemInner::StructField => ItemKind::StructField,
        ItemInner::Enum { .. } => ItemKind::Enum,
        ItemInner::Variant => ItemKind::Variant,
        ItemInner::Function => spec_function_kind(p),
        ItemInner::Trait { .. } => ItemKind::Trait,
        ItemInner::TraitAlias => ItemKind::TraitAlias,
        ItemInner::Impl { .. } => ItemKind::Impl,
        ItemInner::TypeAlias => ItemKind::TypeAlias,
        ItemInner::Constant => ItemKind::Constant,
        ItemInner::Static => ItemKind::Static,
        ItemInner::ExternType => ItemKind::ExternType,
        ItemInner::Macro => ItemKind::Macro,
        ItemInner::ProcMacro(MacroKind::Bang) => ItemKind::Macro,
        ItemInner::ProcMacro(MacroKind::Derive) => ItemKind::ProcDerive,
        ItemInner::ProcMacro(MacroKind::Attr) => ItemKind::ProcAttribute,
        ItemInner::Primitive { .. } => ItemKind::Primitive,
        ItemInner::AssocConst => ItemKind::AssocConst,
        ItemInner::AssocType => ItemKind::AssocType,
    }
}

/// The kind used for segment `j` of a path of `n` segments: the item's own
/// kind for the last, its parent's (or module) for the one before, module
/// for the rest.
pub open spec fn segment_kind(info: InfoV, j: int) -> ItemKind {
    let remaining = info.path.len() - 1 - j;
    if remaining == 0 {
        info.kind
    } else if remaining == 1 {
        match info.parent_kind {
            Some(k) => k,
            None => ItemKind::Module,
        }
    } else {
        ItemKind::Module
    }
}

/// The URL text of the first `n` segments of the item's path.
pub open spec fn url_path_prefix(info: InfoV, n: int) -> Seq<char>
    decreases n,
{
    if n <= 0 {
        Seq::empty()
    } else {
        url_path_prefix(info, n - 1) + segment_text(segment_kind(info, n - 1), info.path[n - 1])
    }
}

/// The URL text of the item's path, relative to its crate's documentation root.
pub open spec fn url_path_text(info: InfoV) -> Seq<char> {
    url_path_prefix(info, info.path.len() as int)
}

/// Every segment of the item's path has a kind that can be linked to.
pub open spec fn path_linkable(info: InfoV) -> bool {
    forall|j: int| 0 <= j < info.path.len() ==> linkable(#[trigger] segment_kind(info, j))
}

impl ItemInfo {
    /// If this item comes from the current crate, NOT any external crates
    pub fn is_from_current_crate(&self) -> (r: bool)
        ensures
            r == (self.crate_id == 0),
    {
        // Local crate has id 0.
        self.crate_id == 0
    }

    /// Path to this item in the URL
    pub fn url_path(&self) -> (r: String)
        requires
            path_linkable(info_view(*self)),
        ensures
            r@ == url_path_text(info_view(*self)),
    {
        let ghost info = info_view(*self);
        let n = self.path.len();
        let mut r = String::new();
        let mut j: usize = 0;
        while j < n
            invariant
                0 <= j <= n,
                n == self.path@.len(),
                info == info_view(*self),
                path_linkable(info),
                r@ == url_path_prefix(info, j as int),
            decreases n - j,
        {
            let remaining = n - 1 - j;
            let kind = if remaining == 0 {
                self.kind
            } else if remaining == 1 {
                match self.parent_kind {
                    Some(k) => k,
                    None => ItemKind::Module,
                }
            } else {
                ItemKind::Module
            };
            assert(kind == segment_kind(info, j as int));
            assert(info.path[j as int] == self.path@[j as int]@);
            let seg = kind.url_segment(self.path[j].as_str());
            push_str(&mut r, seg.as_str());
            j += 1;
        }
        r
    }
}


impl ItemKind {
    /// Whether items of this kind have a page or an anchor to link to.
    pub fn is_linkable(self) -> (r: bool)
        ensures
            r == linkable(self),
    {
        !matches!(
            self,
            ItemKind::Keyword | ItemKind::ExternCrate | ItemKind::Use | ItemKind::Impl
                | ItemKind::ExternType | ItemKind::Attribute
        )
    }
}

impl ItemInfo {
    /// Whether every segment of the item's path has a kind that can be linked
    /// to, so that the path has a URL.
    pub fn path_is_linkable(&self) -> (r: bool)
        ensures
            r == path_linkable(info_view(*self)),
    {
        let ghost info = info_view(*self);
        let n = self.path.len();
        let mut j: usize = 0;
        while j < n
            invariant
                0 <= j <= n,
                n == self.path@.len(),
                info == info_view(*self),
                forall|k: int| 0 <= k < j ==> linkable(#[trigger] segment_kind(info, k)),
            decreases n - j,
        {
            let remaining = n - 1 - j;
            let kind = if remaining == 0 {
                self.kind
            } else if remaining == 1 {
                match self.parent_kind {
                    Some(k) => k,
                    None => ItemKind::Module,
                }
            } else {
                ItemKind::Module
            };
            assert(kind == segment_kind(info, j as int));
            if !kind.is_linkable() {
                return false;
            }
            j += 1;
        }
        true
    }
}

/// Documentation roots on this host belong to the standard library.
pub open spec fn stdlib_url_prefix() -> Seq<char> {
    "https://doc.rust-lang.org/"@
}

/// Whether this crate is part of the standard library
///
/// This is `true` for the `std`, `core`, `alloc` and `proc_macro` crates,
/// as well as internal crates such as `std_detect` or `test`
pub open spec fn is_stdlib(c: ExternalCrate) -> bool {
    match c.html_root_url {
        Some(u) => has_prefix(u@, stdlib_url_prefix()),
        None => false,
    }
}

/// Whether this crate is part of the standard library.
pub fn is_stdlib_crate(external_crate: &ExternalCrate) -> (r: bool)
    ensures
        r == is_stdlib(*external_crate),
{
    match &external_crate.html_root_url {
        Some(u) => {
            let v = chars_of(u.as_str());
            let p = chars_of("https://doc.rust-lang.org/");
            starts_with(v.as_slice(), p.as_slice())
        },
        None => false,
    }
}

/// The index of the external crate with the given id.
pub open spec fn external_crate_index(cs: Seq<ExternalCrate>, id: u32) -> Option<int> {
    if exists|i: int| 0 <= i < cs.len() && cs[i].id == id && forall|k: int| 0 <= k < i ==> cs[k].id != id {
        Some(choose|i: int| 0 <= i < cs.len() && cs[i].id == id && forall|k: int| 0 <= k < i ==> cs[k].id != id)
    } else {
        None
    }
}

/// Finds the external crate with the given id.
pub fn find_external_crate(cs: &Vec<ExternalCrate>, id: u32) -> (r: Option<usize>)
    ensures
        r matches Some(i) ==> external_crate_index(cs@, id) == Some(i as int) && i < cs@.len(),
        r is None ==> external_crate_index(cs@, id) is None,
{
    let mut i: usize = 0;
    while i < cs.len()
        invariant
            0 <= i <= cs@.len(),
            forall|k: int| 0 <= k < i ==> cs@[k].id != id,
        decreases cs@.len() - i,
    {
        if cs[i].id == id {
            proof {
                let j = choose|j: int| 0 <= j < cs@.len() && cs@[j].id == id && forall|k: int| 0 <= k < j ==> cs@[k].id != id;
                if i < j {
                    assert(cs@[i as int].id == id);
                }
            }
            return Some(i);
        }
        i += 1;
    }
    None
}

/// The URL of the documentation root of the item's crate, if the crate is
/// known.
pub open spec fn crate_root_url(
    info: InfoV,
    external_crates: Seq<ExternalCrate>,
    base_url: Seq<char>,
    package_name: Seq<char>,
    package_version: Seq<char>,
) -> Option<Seq<char>> {
    if info.crate_id == 0 {
        Some(base_url + "/"@ + package_name + "/"@ + package_version + "/"@)
    } else {
        match external_crate_index(external_crates, info.crate_id) {
            Some(k) => {
                let c = external_crates[k];
                match c.html_root_url {
                    Some(root) => if is_stdlib(c) && has_suffix(root@, "/nightly/"@) {
                        Some(root@.take(root@.len() - "/nightly/"@.len()) + "/stable/"@)
                    } else {
                        Some(root@)
                    },
                    None => Some(base_url + "/"@ + c.name@ + "/latest/"@),
                }
            },
            None => None,
        }
    }
}

/// The URL of the item's documentation; empty when its crate is unknown.
pub open spec fn item_url(
    info: InfoV,
    external_crates: Seq<ExternalCrate>,
    base_url: Seq<char>,
    package_name: Seq<char>,
    package_version: Seq<char>,
) -> Seq<char> {
    match crate_root_url(info, external_crates, base_url, package_name, package_version) {
        Some(root) => root + url_path_text(info),
        None => Seq::empty(),
    }
}

impl ItemInfo {
    /// Creates HTML URL to this item's documentation
    ///
    /// The URL is empty when the item's crate is neither the current crate
    /// nor one of the external crates.
    pub fn url(
        &self,
        external_crates: &Vec<ExternalCrate>,
        base_url: &str,
        package_name: &str,
        package_version: &str,
    ) -> (r: String)
        requires
            path_linkable(info_view(*self)),
        ensures
            r@ == item_url(
                info_view(*self),
                external_crates@,
                base_url@,
                package_name@,
                package_version@,
            ),
    {
        proof {
            reveal_strlit("/nightly/");
        }
        if self.is_from_current_crate() {
            let mut r = string_of(base_url);
            push_str(&mut r, "/");
            push_str(&mut r, package_name);
            push_str(&mut r, "/");
            push_str(&mut r, package_version);
            push_str(&mut r, "/");
            let p = self.url_path();
            push_str(&mut r, p.as_str());
            return r;
        }
        match find_external_crate(external_crates, self.crate_id) {
            Some(k) => {
                let c = &external_crates[k];
                let mut r = match &c.html_root_url {
                    Some(root) => {
                        let v = chars_of(root.as_str());
                        let nightly = chars_of("/nightly/");
                        if is_stdlib_crate(c) && ends_with(v.as_slice(), nightly.as_slice()) {
                            let mut r = string_from_chars(v.as_slice(), 0, v.len() - nightly.len());
                            push_str(&mut r, "/stable/");
                            assert(v@.subrange(0, v@.len() - nightly@.len()) =~= v@.take(
                                v@.len() - nightly@.len(),
                            ));
                            r
                        } else {
                            string_of(root.as_str())
                        }
                    },
                    None => {
                        let mut r = string_of(base_url);
                        push_str(&mut r, "/");
                        push_str(&mut r, c.name.as_str());
                        push_str(&mut r, "/latest/");
                        r
                    },
                };
                let p = self.url_path();
                push_str(&mut r, p.as_str());
                r
            },
            None => String::new(),
        }
    }
}


/// The information gathered about the items of a crate, by item id.
pub struct ItemsInfo {
    map: HashMap<u32, ItemInfo>,
}

impl ItemsInfo {
    /// The information as a map from item ids.
    pub closed spec fn view_map(&self) -> Map<u32, InfoV> {
        self.map@.map_values(|i: ItemInfo| info_view(i))
    }

    /// No information yet.
    pub fn new() -> (r: ItemsInfo)
        ensures
            r.view_map() == Map::<u32, InfoV>::empty(),
    {
        let r = ItemsInfo { map: HashMap::new() };
        assert(r.view_map() =~= Map::<u32, InfoV>::empty());
        r
    }

    /// The information about the item with the given id.
    pub fn get(&self, id: u32) -> (r: Option<&ItemInfo>)
        ensures
            r is Some <==> self.view_map().contains_key(id),
            r matches Some(info) ==> info_view(*info) == self.view_map()[id],
    {
        broadcast use vstd::std_specs::hash::group_hash_axioms;

        self.map.get(&id)
    }

    /// Records what was found about an item: the information of an item
    /// met for the first time is kept; an item met again only gains a parent
    /// kind that it did not have. Impl blocks are not recorded.
    pub fn record(&mut self, id: u32, info: &ItemInfo)
        ensures
            final(self).view_map() == record_info(old(self).view_map(), id, info_view(*info)),
    {
        broadcast use vstd::std_specs::hash::group_hash_axioms;

        if info.kind == ItemKind::Impl {
            return;
        }
        let ghost m0 = self.map@;
        let updated = match self.map.get(&id) {
            Some(e) => {
                if info.parent_kind.is_some() && e.parent_kind.is_none() {
                    Some(
                        ItemInfo {
                            crate_id: e.crate_id,
                            path: clone_strings(&e.path),
                            kind: e.kind,
                            parent_kind: info.parent_kind,
                        },
                    )
                } else {
                    None
                }
            },
            None => Some(
                ItemInfo {
                    crate_id: info.crate_id,
                    path: clone_strings(&info.path),
                    kind: info.kind,
                    parent_kind: info.parent_kind,
                },
            ),
        };
        if let Some(u) = updated {
            let ghost uv = info_view(u);
            self.map.insert(id, u);
            proof {
                assert(self.map@ == m0.insert(id, u));
                assert(self.view_map() =~= m0.map_values(|i: ItemInfo| info_view(i)).insert(id, uv));
                if m0.contains_key(id) {
                    assert(uv == InfoV { parent_kind: info.parent_kind, ..info_view(m0[id]) });
                } else {
                    assert(uv == info_view(*info));
                }
            }
        }
    }
}

/// What recording `info` for `id` makes of the map `m`.
pub open spec fn record_info(m: Map<u32, InfoV>, id: u32, info: InfoV) -> Map<u32, InfoV> {
    if info.kind == ItemKind::Impl {
        m
    } else if m.contains_key(id) {
        if info.parent_kind is Some && m[id].parent_kind is None {
            m.insert(id, InfoV { parent_kind: info.parent_kind, ..m[id] })
        } else {
            m
        }
    } else {
        m.insert(id, info)
    }
}

/// A copy of a list of strings.
pub fn clone_strings(v: &Vec<String>) -> (r: Vec<String>)
    ensures
        strings_view(r@) == strings_view(v@),
{
    let mut r: Vec<String> = Vec::new();
    let mut i: usize = 0;
    while i < v.len()
        invariant
            0 <= i <= v@.len(),
            r@.len() == i,
            forall|k: int| 0 <= k < i ==> #[trigger] r@[k]@ == v@[k]@,
        decreases v@.len() - i,
    {
        let c = v[i].clone();
        r.push(c);
        i += 1;
    }
    assert(strings_view(r@) =~= strings_view(v@));
    r
}


/// The position of the first item of the index with the given id.
pub open spec fn item_position(index: Seq<ItemModel>, id: u32) -> Option<int> {
    if exists|i: int| 0 <= i < index.len() && index[i].id == id && forall|k: int| 0 <= k < i ==> index[k].id != id {
        Some(choose|i: int| 0 <= i < index.len() && index[i].id == id && forall|k: int| 0 <= k < i ==> index[k].id != id)
    } else {
        None
    }
}

/// The position of the first path summary with the given id.
pub open spec fn summary_position(paths: Seq<ItemSummary>, id: u32) -> Option<int> {
    if exists|i: int| 0 <= i < paths.len() && paths[i].id == id && forall|k: int| 0 <= k < i ==> paths[k].id != id {
        Some(choose|i: int| 0 <= i < paths.len() && paths[i].id == id && forall|k: int| 0 <= k < i ==> paths[k].id != id)
    } else {
        None
    }
}

/// Finds the item with the given id in the index.
pub fn find_item(index: &Vec<ItemModel>, id: u32) -> (r: Option<usize>)
    ensures
        r matches Some(i) ==> item_position(index@, id) == Some(i as int) && i < index@.len(),
        r is None ==> item_position(index@, id) is None,
{
    let mut i: usize = 0;
    while i < index.len()
        invariant
            0 <= i <= index@.len(),
            forall|k: int| 0 <= k < i ==> index@[k].id != id,
        decreases index@.len() - i,
    {
        if index[i].id == id {
            proof {
                let j = choose|j: int| 0 <= j < index@.len() && index@[j].id == id && forall|k: int| 0 <= k < j ==> index@[k].id != id;
                if i < j {
                    assert(index@[i as int].id == id);
                }
            }
            return Some(i);
        }
        i += 1;
    }
    None
}

/// Finds the path summary with the given id.
pub fn find_summary(paths: &Vec<ItemSummary>, id: u32) -> (r: Option<usize>)
    ensures
        r matches Some(i) ==> summary_position(paths@, id) == Some(i as int) && i < paths@.len(),
        r is None ==> summary_position(paths@, id) is None,
{
    let mut i: usize = 0;
    while i < paths.len()
        invariant
            0 <= i <= paths@.len(),
            forall|k: int| 0 <= k < i ==> paths@[k].id != id,
        decreases paths@.len() - i,
    {
        if paths[i].id == id {
            proof {
                let j = choose|j: int| 0 <= j < paths@.len() && paths@[j].id == id && forall|k: int| 0 <= k < j ==> paths@[k].id != id;
                if i < j {
                    assert(paths@[i as int].id == id);
                }
            }
            return Some(i);
        }
        i += 1;
    }
    None
}

/// The ids of the tuple fields that rustdoc kept.
pub open spec fn present_ids(v: Seq<Option<u32>>) -> Seq<u32>
    decreases v.len(),
{
    if v.len() == 0 {
        Seq::empty()
    } else {
        present_ids(v.drop_last()) + match v.last() {
            Some(id) => seq![id],
            None => Seq::empty(),
        }
    }
}

/// The ids of the items that an item holds and whose links are resolved
/// through it: fields, variants, impl blocks and the items of impl blocks
/// and traits.
pub open spec fn child_ids(inner: ItemInner) -> Seq<u32> {
    match inner {
        ItemInner::Struct { kind, impls } => match kind {
            StructFields::Unit => impls@,
            StructFields::Tuple(fields) => present_ids(fields@) + impls@,
            StructFields::Plain(fields) => fields@ + impls@,
        },
        ItemInner::Impl { for_resolved_path, items } => if for_resolved_path {
            items@
        } else {
            Seq::empty()
        },
        ItemInner::Union { fields, impls } => fields@ + impls@,
        ItemInner::Enum { variants, impls } => variants@ + impls@,
        ItemInner::Primitive { impls } => impls@,
        ItemInner::Trait { items } => items@,
        _ => Seq::empty(),
    }
}

/// Appends the ids of `v` to `r`.
fn append_ids(r: &mut Vec<u32>, v: &Vec<u32>)
    ensures
        final(r)@ == old(r)@ + v@,
{
    let mut i: usize = 0;
    while i < v.len()
        invariant
            0 <= i <= v@.len(),
            r@ == old(r)@ + v@.take(i as int),
        decreases v@.len() - i,
    {
        r.push(v[i]);
        assert(r@ =~= old(r)@ + v@.take(i + 1));
        i += 1;
    }
    assert(v@.take(v@.len() as int) =~= v@);
}

/// The ids of the items that `item` holds.
pub fn child_item_ids(item: &ItemModel) -> (r: Vec<u32>)
    ensures
        r@ == child_ids(item.inner),
{
    let mut r: Vec<u32> = Vec::new();
    match &item.inner {
        ItemInner::Struct { kind, impls } => {
            match kind {
                StructFields::Unit => {},
                StructFields::Tuple(fields) => {
                    let mut i: usize = 0;
                    assert(fields@.take(0) =~= Seq::<Option<u32>>::empty());
                    while i < fields.len()
                        invariant
                            0 <= i <= fields@.len(),
                            r@ == present_ids(fields@.take(i as int)),
                        decreases fields@.len() - i,
                    {
                        assert(fields@.take(i + 1).drop_last() =~= fields@.take(i as int));
                        if let Some(id) = fields[i] {
                            r.push(id);
                        }
                        i += 1;
                    }
                    assert(fields@.take(fields@.len() as int) =~= fields@);
                },
                StructFields::Plain(fields) => append_ids(&mut r, fields),
            }
            append_ids(&mut r, impls);
            assert(r@ =~= child_ids(item.inner));
        },
        ItemInner::Impl { for_resolved_path, items } => {
            if *for_resolved_path {
                append_ids(&mut r, items);
            }
            assert(r@ =~= child_ids(item.inner));
        },
        ItemInner::Union { fields, impls } => {
            append_ids(&mut r, fields);
            append_ids(&mut r, impls);
        },
        ItemInner::Enum { variants, impls } => {
            append_ids(&mut r, variants);
            append_ids(&mut r, impls);
        },
        ItemInner::Primitive { impls } => {
            append_ids(&mut r, impls);
            assert(r@ =~= child_ids(item.inner));
        },
        ItemInner::Trait { items } => {
            append_ids(&mut r, items);
            assert(r@ =~= child_ids(item.inner));
        },
        _ => {},
    }
    r
}

/// The information about an item named in rustdoc's paths.
pub open spec fn summary_info(
    s: ItemSummary,
    parent_kind: Option<ItemKind>,
    item_parent: Option<ItemParent>,
) -> InfoV {
    InfoV {
        crate_id: s.crate_id,
        path: strings_view(s.path@),
        kind: kind_of_summary(s.kind, item_parent),
        parent_kind,
    }
}

impl ItemInfo {
    /// The information about an item named in rustdoc's paths.
    pub fn new(
        item_summary: &ItemSummary,
        parent_kind: Option<ItemKind>,
        item_parent: Option<ItemParent>,
    ) -> (r: ItemInfo)
        ensures
            info_view(r) == summary_info(*item_summary, parent_kind, item_parent),
    {
        ItemInfo {
            crate_id: item_summary.crate_id,
            path: clone_strings(&item_summary.path),
            kind: ItemKind::from_rustdoc_item_parent(item_summary.kind, item_parent),
            parent_kind,
        }
    }
}

/// The block kind that the children of `inner` are declared in.
pub open spec fn children_parent(inner: ItemInner, item_parent: Option<ItemParent>) -> Option<ItemParent> {
    match inner {
        ItemInner::Trait { .. } => Some(ItemParent::Trait),
        ItemInner::Impl { .. } => Some(ItemParent::Impl),
        _ => item_parent,
    }
}

/// The information about `child`, an item held by `item`, whose information
/// is `info`; `None` when rustdoc knows nothing of the child.
#[verifier::opaque]
pub open spec fn child_info(
    krate: CrateModel,
    child: u32,
    info: InfoV,
    item: ItemModel,
    item_parent: Option<ItemParent>,
) -> Option<InfoV> {
    let parent_kind = if item.name is Some {
        Some(info.kind)
    } else {
        info.parent_kind
    };
    match summary_position(krate.paths@, child) {
        Some(k) => Some(summary_info(krate.paths@[k], parent_kind, item_parent)),
        None => match item_position(krate.index@, child) {
            Some(k) => {
                let it = krate.index@[k];
                Some(
                    InfoV {
                        crate_id: it.crate_id,
                        path: match it.name {
                            Some(n) => info.path.push(n@),
                            None => info.path,
                        },
                        kind: kind_of_item(it.inner, item_parent),
                        parent_kind,
                    },
                )
            },
            None => None,
        },
    }
}

/// The map after recording item `id` with `info` and, within `fuel` levels,
/// the items it holds.
pub open spec fn visit(
    krate: CrateModel,
    id: u32,
    info: InfoV,
    item_parent: Option<ItemParent>,
    m: Map<u32, InfoV>,
    fuel: nat,
) -> Map<u32, InfoV>
    decreases fuel, 0nat, 0nat,
{
    let m1 = record_info(m, id, info);
    if fuel == 0 {
        m1
    } else {
        match item_position(krate.index@, id) {
            None => m1,
            Some(k) => {
                let item = krate.index@[k];
                visit_children(
                    krate,
                    child_ids(item.inner),
                    info,
                    item,
                    children_parent(item.inner, item_parent),
                    m1,
                    (fuel - 1) as nat,
                )
            },
        }
    }
}

/// The map after visiting each of `children` in order.
pub open spec fn visit_children(
    krate: CrateModel,
    children: Seq<u32>,
    info: InfoV,
    item: ItemModel,
    item_parent: Option<ItemParent>,
    m: Map<u32, InfoV>,
    fuel: nat,
) -> Map<u32, InfoV>
    decreases fuel, 1nat, children.len(),
{
    if children.len() == 0 {
        m
    } else {
        let m2 = visit_children(krate, children.drop_last(), info, item, item_parent, m, fuel);
        match child_info(krate, children.last(), info, item, item_parent) {
            Some(ci) => visit(krate, children.last(), ci, item_parent, m2, fuel),
            None => m2,
        }
    }
}

/// The information about `child`, an item held by `item`.
fn compute_child_info(
    krate: &CrateModel,
    child: u32,
    item_info: &ItemInfo,
    item: &ItemModel,
    inner_parent: Option<ItemParent>,
) -> (r: Option<ItemInfo>)
    ensures
        r matches Some(ci) ==> child_info(*krate, child, info_view(*item_info), *item, inner_parent)
            == Some(info_view(ci)),
        r is None ==> child_info(*krate, child, info_view(*item_info), *item, inner_parent) is None,
{
    proof {
        reveal(child_info);
    }
    let parent_kind = if item.name.is_some() {
        Some(item_info.kind)
    } else {
        item_info.parent_kind
    };
    match find_summary(&krate.paths, child) {
        Some(s) => Some(ItemInfo::new(&krate.paths[s], parent_kind, inner_parent)),
        None => match find_item(&krate.index, child) {
            Some(ci) => {
                let it = &krate.index[ci];
                let path = match &it.name {
                    Some(n) => {
                        let mut p = clone_strings(&item_info.path);
                        let ghost p0 = p@;
                        p.push(n.clone());
                        assert(strings_view(p@) =~= strings_view(p0).push(n@));
                        p
                    },
                    None => clone_strings(&item_info.path),
                };
                Some(
                    ItemInfo {
                        crate_id: it.crate_id,
                        path,
                        kind: ItemKind::of_item(it, inner_parent),
                        parent_kind,
                    },
                )
            },
            None => None,
        },
    }
}

/// Records `item_id` and, within `fuel` levels, the items it holds.
fn transitive_items(
    item_id: u32,
    item_info: &ItemInfo,
    item_parent: Option<ItemParent>,
    krate: &CrateModel,
    items_info: &mut ItemsInfo,
    fuel: usize,
)
    ensures
        final(items_info).view_map() == visit(
            *krate,
            item_id,
            info_view(*item_info),
            item_parent,
            old(items_info).view_map(),
            fuel as nat,
        ),
    decreases fuel,
{
    items_info.record(item_id, item_info);
    if fuel == 0 {
        return;
    }
    let k = match find_item(&krate.index, item_id) {
        Some(k) => k,
        None => {
            return;
        },
    };
    let item = &krate.index[k];
    let inner_parent = match &item.inner {
        ItemInner::Trait { .. } => Some(ItemParent::Trait),
        ItemInner::Impl { .. } => Some(ItemParent::Impl),
        _ => item_parent,
    };
    let children = child_item_ids(item);
    let ghost info = info_view(*item_info);
    let ghost m1 = items_info.view_map();
    let mut c: usize = 0;
    assert(children@.take(0) =~= Seq::<u32>::empty());
    proof {
        assert(inner_parent == children_parent(item.inner, item_parent));
    }
    while c < children.len()
        invariant
            0 <= c <= children@.len(),
            fuel > 0,
            info == info_view(*item_info),
            items_info.view_map() == visit_children(
                *krate,
                children@.take(c as int),
                info,
                *item,
                inner_parent,
                m1,
                (fuel - 1) as nat,
            ),
        decreases children@.len() - c,
    {
        let child = children[c];
        assert(children@.take(c + 1).drop_last() =~= children@.take(c as int));
        assert(children@.take(c + 1).last() == child);
        let child_info_opt = compute_child_info(krate, child, item_info, item, inner_parent);
        match &child_info_opt {
            Some(ci) => {
                assert(child_info(*krate, child, info, *item, inner_parent) == Some(info_view(*ci)));
                transitive_items(child, ci, inner_parent, krate, items_info, fuel - 1);
            },
            None => {
                assert(child_info(*krate, child, info, *item, inner_parent) is None);
            },
        }
        c += 1;
    }
    assert(children@.take(children@.len() as int) =~= children@);
}

/// The information of every item reachable from the items that rustdoc
/// records a path for, each visited to at most `fuel` levels.
pub open spec fn all_items_info(krate: CrateModel, n: int, fuel: nat) -> Map<u32, InfoV>
    decreases n,
{
    if n <= 0 {
        Map::empty()
    } else {
        let s = krate.paths@[n - 1];
        visit(krate, s.id, summary_info(s, None, None), None, all_items_info(krate, n - 1, fuel), fuel)
    }
}

/// How deep the items of a crate are visited: one level more than the crate
/// has items, which is deep enough (see [`lemma_visit_depth_suffices`]).
pub open spec fn visit_depth(krate: CrateModel) -> nat {
    (krate.index@.len() + 1) as nat
}

/// `rank` orders the items of the crate: each item that the crate holds
/// ranks above every item it holds, and no rank exceeds the number of items.
/// A crate whose items hold one another without a cycle has such a ranking.
#[verifier::opaque]
pub open spec fn ranked(krate: CrateModel, rank: spec_fn(u32) -> nat) -> bool {
    &&& forall|p: u32| #[trigger] rank(p) <= krate.index@.len()
    &&& forall|p: u32, c: u32|
        #![trigger rank(p), rank(c)]
        item_position(krate.index@, p) matches Some(k) && child_ids(krate.index@[k].inner).contains(c)
            ==> rank(c) < rank(p)
}

/// Visiting an item ranked below both depths gives the same map at either.
proof fn lemma_visit_fuel(
    krate: CrateModel,
    rank: spec_fn(u32) -> nat,
    id: u32,
    info: InfoV,
    item_parent: Option<ItemParent>,
    m: Map<u32, InfoV>,
    f: nat,
    g: nat,
)
    requires
        ranked(krate, rank),
        rank(id) < f,
        rank(id) < g,
    ensures
        visit(krate, id, info, item_parent, m, f) == visit(krate, id, info, item_parent, m, g),
    decreases f, 0nat, 0nat,
{
    let m1 = record_info(m, id, info);
    match item_position(krate.index@, id) {
        None => {},
        Some(k) => {
            let item = krate.index@[k];
            let cs = child_ids(item.inner);
            assert forall|c: u32| cs.contains(c) implies rank(c) < rank(id) by {
                reveal(ranked);
                assert(rank(id) == rank(id) && rank(c) == rank(c));
            }
            lemma_visit_children_fuel(
                krate,
                rank,
                cs,
                info,
                item,
                children_parent(item.inner, item_parent),
                m1,
                (f - 1) as nat,
                (g - 1) as nat,
                rank(id),
            );
        },
    }
}

/// Visiting children ranked below `bound`, with both depths at least
/// `bound`, gives the same map at either.
proof fn lemma_visit_children_fuel(
    krate: CrateModel,
    rank: spec_fn(u32) -> nat,
    children: Seq<u32>,
    info: InfoV,
    item: ItemModel,
    item_parent: Option<ItemParent>,
    m: Map<u32, InfoV>,
    f: nat,
    g: nat,
    bound: nat,
)
    requires
        ranked(krate, rank),
        forall|c: u32| children.contains(c) ==> rank(c) < bound,
        bound <= f,
        bound <= g,
    ensures
        visit_children(krate, children, info, item, item_parent, m, f) == visit_children(
            krate,
            children,
            info,
            item,
            item_parent,
            m,
            g,
        ),
    decreases f, 1nat, children.len(),
{
    if children.len() > 0 {
        let pre = children.drop_last();
        assert forall|c: u32| pre.contains(c) implies rank(c) < bound by {
            let j = choose|j: int| 0 <= j < pre.len() && pre[j] == c;
            assert(children[j] == c);
            assert(children.contains(c));
        }
        lemma_visit_children_fuel(krate, rank, pre, info, item, item_parent, m, f, g, bound);
        let m2 = visit_children(krate, pre, info, item, item_parent, m, f);
        let last = children.last();
        assert(children.contains(last)) by {
            assert(children[children.len() - 1] == last);
        }
        match child_info(krate, last, info, item, item_parent) {
            Some(ci) => {
                lemma_visit_fuel(krate, rank, last, ci, item_parent, m2, f, g);
            },
            None => {},
        }
    }
}

/// The information of the items reached from the first `n` path summaries
/// is the same at any two depths above every rank.
proof fn lemma_all_items_info_fuel(krate: CrateModel, rank: spec_fn(u32) -> nat, n: int, f: nat, g: nat)
    requires
        ranked(krate, rank),
        krate.index@.len() < f,
        krate.index@.len() < g,
    ensures
        all_items_info(krate, n, f) == all_items_info(krate, n, g),
    decreases n,
{
    if n > 0 {
        lemma_all_items_info_fuel(krate, rank, n - 1, f, g);
        let s = krate.paths@[n - 1];
        assert(rank(s.id) <= krate.index@.len()) by {
            reveal(ranked);
        }
        lemma_visit_fuel(
            krate,
            rank,
            s.id,
            summary_info(s, None, None),
            None,
            all_items_info(krate, n - 1, f),
            f,
            g,
        );
    }
}

/// The depth to which the items of a crate are visited cuts no visit short:
/// where the items can be ranked (see [`ranked`]), as those of a crate
/// without cycles can, visiting to any greater depth gathers the same
/// information.
pub proof fn lemma_visit_depth_suffices(krate: CrateModel, rank: spec_fn(u32) -> nat, fuel: nat)
    requires
        ranked(krate, rank),
        fuel >= visit_depth(krate),
    ensures
        all_items_info(krate, krate.paths@.len() as int, fuel) == all_items_info(
            krate,
            krate.paths@.len() as int,
            visit_depth(krate),
        ),
{
    lemma_all_items_info_fuel(krate, rank, krate.paths@.len() as int, fuel, visit_depth(krate));
}

/// Collects information about every item from the crate, which
/// can then be used to generate a URL to the item's page
pub fn collect_all_items_info(krate: &CrateModel) -> (r: ItemsInfo)
    requires
        krate.index@.len() < usize::MAX,
    ensures
        r.view_map() == all_items_info(*krate, krate.paths@.len() as int, visit_depth(*krate)),
{
    let mut items_info = ItemsInfo::new();
    let fuel = krate.index.len() + 1;
    let mut i: usize = 0;
    while i < krate.paths.len()
        invariant
            0 <= i <= krate.paths@.len(),
            fuel as nat == visit_depth(*krate),
            items_info.view_map() == all_items_info(*krate, i as int, fuel as nat),
        decreases krate.paths@.len() - i,
    {
        let s = &krate.paths[i];
        let info = ItemInfo::new(s, None, None);
        transitive_items(s.id, &info, None, krate, &mut items_info, fuel);
        i += 1;
    }
    items_info
}


/// This maps link contents to link URLs.
///
/// For example, for this link:
///
/// ```md
/// [clone function](core::clone::Clone::clone)
/// ```
///
/// This map will contain `"clone function"` mapped to
/// `"https://doc.rust-lang.org/std/clone/trait.Clone.html#tymethod.clone"`.
pub struct Links {
    entries: Vec<(String, String)>,
}

/// The map that a list of link entries denotes; a later entry for a key
/// replaces an earlier one.
pub open spec fn links_map(es: Seq<(String, String)>) -> Map<Seq<char>, Seq<char>>
    decreases es.len(),
{
    if es.len() == 0 {
        Map::empty()
    } else {
        links_map(es.drop_last()).insert(es.last().0@, es.last().1@)
    }
}

/// No key occurs twice.
pub open spec fn distinct_keys(es: Seq<(String, String)>) -> bool {
    forall|i: int, j: int| 0 <= i < j < es.len() ==> es[i].0@ != es[j].0@
}

/// A key is in the map of distinct entries exactly when an entry has it, with that entry's URL.
proof fn lemma_links_map_lookup(es: Seq<(String, String)>, k: Seq<char>)
    requires
        distinct_keys(es),
    ensures
        links_map(es).contains_key(k) <==> exists|i: int| 0 <= i < es.len() && es[i].0@ == k,
        forall|i: int| 0 <= i < es.len() && es[i].0@ == k ==> links_map(es)[k] == es[i].1@,
    decreases es.len(),
{
    if es.len() > 0 {
        let pre = es.drop_last();
        lemma_links_map_lookup(pre, k);
        if es.last().0@ != k {
            if exists|i: int| 0 <= i < es.len() && es[i].0@ == k {
                let i = choose|i: int| 0 <= i < es.len() && es[i].0@ == k;
                assert(pre[i].0@ == k);
            }
        } else {
            assert forall|i: int| 0 <= i < es.len() && es[i].0@ == k implies i == es.len() - 1 by {}
        }
    }
}

/// Replacing the URL of an entry updates the map at its key.
proof fn lemma_links_map_update(es: Seq<(String, String)>, i: int, v: String)
    requires
        distinct_keys(es),
        0 <= i < es.len(),
    ensures
        links_map(es.update(i, (es[i].0, v))) == links_map(es).insert(es[i].0@, v@),
        distinct_keys(es.update(i, (es[i].0, v))),
    decreases es.len(),
{
    let k = es[i].0;
    let es2 = es.update(i, (k, v));
    if i == es.len() - 1 {
        assert(es2.drop_last() =~= es.drop_last());
        assert(links_map(es2) =~= links_map(es).insert(k@, v@));
    } else {
        lemma_links_map_update(es.drop_last(), i, v);
        assert(es2.drop_last() =~= es.drop_last().update(i, (k, v)));
        assert(links_map(es2) =~= links_map(es).insert(k@, v@));
    }
}

impl Links {
    /// The links as a map from link contents to URLs.
    pub closed spec fn view_map(&self) -> Map<Seq<char>, Seq<char>> {
        links_map(self.entries@)
    }

    /// Each link content occurs once.
    pub closed spec fn wf(&self) -> bool {
        distinct_keys(self.entries@)
    }

    /// No links.
    pub fn new() -> (r: Links)
        ensures
            r.wf(),
            r.view_map() == Map::<Seq<char>, Seq<char>>::empty(),
    {
        Links { entries: Vec::new() }
    }

    fn position(&self, key: &str) -> (r: Option<usize>)
        requires
            self.wf(),
        ensures
            r matches Some(i) ==> i < self.entries@.len() && self.entries@[i as int].0@ == key@,
            r is None ==> !self.view_map().contains_key(key@),
    {
        let mut i: usize = 0;
        while i < self.entries.len()
            invariant
                0 <= i <= self.entries@.len(),
                forall|k: int| 0 <= k < i ==> self.entries@[k].0@ != key@,
            decreases self.entries@.len() - i,
        {
            if crate::text::str_eq(self.entries[i].0.as_str(), key) {
                return Some(i);
            }
            i += 1;
        }
        proof {
            lemma_links_map_lookup(self.entries@, key@);
        }
        None
    }

    /// The URL for the given link content.
    pub fn get(&self, key: &str) -> (r: Option<&String>)
        requires
            self.wf(),
        ensures
            r is Some <==> self.view_map().contains_key(key@),
            r matches Some(url) ==> url@ == self.view_map()[key@],
    {
        proof {
            lemma_links_map_lookup(self.entries@, key@);
        }
        match self.position(key) {
            Some(i) => Some(&self.entries[i].1),
            None => None,
        }
    }

    /// Maps `key` to `url`, replacing what it was mapped to.
    pub fn insert(&mut self, key: String, url: String)
        requires
            old(self).wf(),
        ensures
            final(self).wf(),
            final(self).view_map() == old(self).view_map().insert(key@, url@),
    {
        match self.position(key.as_str()) {
            Some(i) => {
                let ghost es = self.entries@;
                proof {
                    lemma_links_map_update(es, i as int, url);
                }
                let k = self.entries[i].0.clone();
                self.entries.set(i, (k, url));
            },
            None => {
                let ghost es = self.entries@;
                proof {
                    lemma_links_map_lookup(es, key@);
                }
                self.entries.push((key, url));
                proof {
                    assert(self.entries@.drop_last() =~= es);
                }
            },
        }
    }
}

/// `s` with a leading backtick removed, if it has one.
pub open spec fn without_backtick(s: Seq<char>) -> Seq<char> {
    if s.len() > 0 && s[0] == '`' {
        s.skip(1)
    } else {
        s
    }
}

/// The fragment of a link: what follows its first `#`, a leading backtick
/// aside.
pub open spec fn fragment_of(link: Seq<char>) -> Option<Seq<char>> {
    match first_char_index(without_backtick(link), '#') {
        Some(c) => Some(without_backtick(link).skip(c + 1)),
        None => None,
    }
}

/// Extracts link fragment from the link
///
/// ```text
/// https://doc.rust-lang.org/std/vec/struct.Vec.html#method.push
///                                                   ^^^^^^^^^^^
/// ```
pub fn link_fragment(link: &str) -> (r: Option<String>)
    ensures
        r matches Some(f) ==> fragment_of(link@) == Some(f@),
        r is None ==> fragment_of(link@) is None,
{
    let v = chars_of(link);
    let n = v.len();
    let stripped = if n > 0 && v[0] == '`' {
        let t = string_from_chars(v.as_slice(), 1, n);
        assert(v@.subrange(1, n as int) =~= v@.skip(1));
        chars_of(t.as_str())
    } else {
        chars_of(link)
    };
    let m = stripped.len();
    match find_char(stripped.as_slice(), '#') {
        Some(c) => {
            let f = string_from_chars(stripped.as_slice(), c + 1, m);
            assert(stripped@.subrange(c + 1, m as int) =~= stripped@.skip(c + 1));
            Some(f)
        },
        None => None,
    }
}

/// The URL that a broken intra-doc link `reference` resolves to: its entry in
/// `links`, with the link's fragment appended.
pub open spec fn broken_link_url(links: Map<Seq<char>, Seq<char>>, reference: Seq<char>) -> Option<Seq<char>> {
    if links.contains_key(reference) {
        let url = links[reference];
        match fragment_of(reference) {
            Some(f) => Some(url + "#"@ + f),
            None => Some(url),
        }
    } else {
        None
    }
}

/// The URL that a broken intra-doc link resolves to.
pub fn broken_link_target(links: &Links, reference: &str) -> (r: Option<String>)
    requires
        links.wf(),
    ensures
        r matches Some(u) ==> broken_link_url(links.view_map(), reference@) == Some(u@),
        r is None ==> broken_link_url(links.view_map(), reference@) is None,
{
    let url = match links.get(reference) {
        Some(u) => u,
        None => {
            return None;
        },
    };
    match link_fragment(reference) {
        Some(f) => {
            let mut r = url.clone();
            push_str(&mut r, "#");
            push_str(&mut r, f.as_str());
            Some(r)
        },
        None => Some(url.clone()),
    }
}

/// The text that a link shows in rustdoc's HTML: a link in backticks shows
/// as code.
pub open spec fn link_html_text(link: Seq<char>) -> Seq<char> {
    if link.len() >= 2 && link[0] == '`' && link.last() == '`' {
        "<code>"@ + link.subrange(1, link.len() - 1) + "</code>"@
    } else {
        link
    }
}

/// What starts a link in HTML.
pub open spec fn html_link_start() -> Seq<char> {
    "<a href=\""@
}

/// The `href` of the HTML link around the first place where `html` shows
/// `link`: what follows the last `<a href="` before that place, up to the
/// next `"`.
pub open spec fn rustdoc_link(link: Seq<char>, html: Seq<char>) -> Option<Seq<char>> {
    match first_occurrence(html, link_html_text(link)) {
        None => None,
        Some(c) => match last_occurrence(html.take(c), html_link_start()) {
            None => None,
            Some(a) => Some(before_char(html.skip(a + html_link_start().len()), '"')),
        },
    }
}

/// This does a naive extraction of the href= value of a link
/// with the given markdown `link` content
///
/// This should only be used as a last resort, when it is impossible
/// to figure out the link URL from rustdoc JSON!
pub fn extract_rustdoc_link(link: &str, rustdoc_html: &str) -> (r: Option<String>)
    ensures
        r matches Some(h) ==> rustdoc_link(link@, rustdoc_html@) == Some(h@),
        r is None ==> rustdoc_link(link@, rustdoc_html@) is None,
{
    let l = chars_of(link);
    let n = l.len();
    let target = if n >= 2 && l[0] == '`' && l[n - 1] == '`' {
        let mut t = string_of("<code>");
        let inner = string_from_chars(l.as_slice(), 1, n - 1);
        push_str(&mut t, inner.as_str());
        push_str(&mut t, "</code>");
        t
    } else {
        string_of(link)
    };
    let h = chars_of(rustdoc_html);
    let tv = chars_of(target.as_str());
    let c = match find_chars(h.as_slice(), tv.as_slice()) {
        Some(c) => c,
        None => {
            return None;
        },
    };
    let before = string_from_chars(h.as_slice(), 0, c);
    let bv = chars_of(before.as_str());
    let start = chars_of("<a href=\"");
    assert(bv@ =~= h@.take(c as int));
    let a = match rfind_chars(bv.as_slice(), start.as_slice()) {
        Some(a) => a,
        None => {
            return None;
        },
    };
    let from = a + start.len();
    let rest = string_from_chars(h.as_slice(), from, h.len());
    let rv = chars_of(rest.as_str());
    assert(rv@ =~= h@.skip(from as int));
    let end = match find_char(rv.as_slice(), '"') {
        Some(e) => e,
        None => rv.len(),
    };
    let href = string_from_chars(rv.as_slice(), 0, end);
    assert(href@ =~= before_char(rv@, '"'));
    Some(href)
}

/// The information gathered about every item of the crate.
pub open spec fn crate_items_info(krate: CrateModel) -> Map<u32, InfoV> {
    all_items_info(krate, krate.paths@.len() as int, visit_depth(krate))
}

/// The version that links into the package use.
pub open spec fn link_version(use_latest_version: bool, version: Seq<char>) -> Seq<char> {
    if use_latest_version {
        "latest"@
    } else {
        version
    }
}

/// The URL of an intra-doc link `link` to the item `id`: the item's
/// documentation where its information is known, or else the link found in
/// rustdoc's HTML, taken as relative to the package's documentation.
pub open spec fn link_target(
    krate: CrateModel,
    info: Map<u32, InfoV>,
    base_url: Seq<char>,
    name: Seq<char>,
    version: Seq<char>,
    html: Seq<char>,
    link: Seq<char>,
    id: u32,
) -> Option<Seq<char>> {
    if info.contains_key(id) {
        Some(item_url(info[id], krate.external_crates@, base_url, name, version))
    } else {
        match rustdoc_link(link, html) {
            Some(href) => Some(base_url + "/"@ + name + "/latest/"@ + name + "/"@ + href),
            None => None,
        }
    }
}

/// The links of the first `n` intra-doc links of the crate's root
/// documentation.
pub open spec fn links_upto(
    krate: CrateModel,
    info: Map<u32, InfoV>,
    base_url: Seq<char>,
    name: Seq<char>,
    version: Seq<char>,
    html: Seq<char>,
    n: int,
) -> Map<Seq<char>, Seq<char>>
    decreases n,
{
    if n <= 0 {
        Map::empty()
    } else {
        let m = links_upto(krate, info, base_url, name, version, html, n - 1);
        let l = krate.root_links@[n - 1];
        match link_target(krate, info, base_url, name, version, html, l.0@, l.1) {
            Some(u) => m.insert(l.0@, u),
            None => m,
        }
    }
}

/// The map from the intra-doc links of the crate's root documentation to
/// their URLs.
pub open spec fn intra_doc_links(
    krate: CrateModel,
    base_url: Seq<char>,
    use_latest_version: bool,
    name: Seq<char>,
    version: Seq<char>,
    html: Seq<char>,
) -> Map<Seq<char>, Seq<char>> {
    links_upto(
        krate,
        crate_items_info(krate),
        base_url,
        name,
        link_version(use_latest_version, version),
        html,
        krate.root_links@.len() as int,
    )
}

/// Every intra-doc link to an item of known information points to an item
/// whose path has a URL.
pub open spec fn links_linkable(krate: CrateModel) -> bool {
    forall|k: int|
        0 <= k < krate.root_links@.len() && crate_items_info(krate).contains_key(
            #[trigger] krate.root_links@[k].1,
        ) ==> path_linkable(crate_items_info(krate)[krate.root_links@[k].1])
}

/// Some intra-doc link points to an item of unknown information, so that
/// rustdoc's HTML is needed.
pub open spec fn needs_html(krate: CrateModel) -> bool {
    exists|k: int|
        0 <= k < krate.root_links@.len() && !crate_items_info(krate).contains_key(
            #[trigger] krate.root_links@[k].1,
        )
}

/// Whether every intra-doc link to an item of known information can be given
/// a URL.
pub fn all_links_linkable(krate: &CrateModel) -> (r: bool)
    requires
        krate.index@.len() < usize::MAX,
    ensures
        r == links_linkable(*krate),
{
    let items_info = collect_all_items_info(krate);
    let mut k: usize = 0;
    while k < krate.root_links.len()
        invariant
            0 <= k <= krate.root_links@.len(),
            items_info.view_map() == crate_items_info(*krate),
            forall|j: int|
                0 <= j < k && crate_items_info(*krate).contains_key(#[trigger] krate.root_links@[j].1)
                    ==> path_linkable(crate_items_info(*krate)[krate.root_links@[j].1]),
        decreases krate.root_links@.len() - k,
    {
        if let Some(info) = items_info.get(krate.root_links[k].1) {
            if !info.path_is_linkable() {
                return false;
            }
        }
        k += 1;
    }
    true
}

/// Whether some intra-doc link points to an item that rustdoc's JSON output
/// says nothing about, so that the link is looked for in rustdoc's HTML.
pub fn needs_rustdoc_html(krate: &CrateModel) -> (r: bool)
    requires
        krate.index@.len() < usize::MAX,
    ensures
        r == needs_html(*krate),
{
    let items_info = collect_all_items_info(krate);
    let mut k: usize = 0;
    while k < krate.root_links.len()
        invariant
            0 <= k <= krate.root_links@.len(),
            items_info.view_map() == crate_items_info(*krate),
            forall|j: int|
                0 <= j < k ==> crate_items_info(*krate).contains_key(#[trigger] krate.root_links@[j].1),
        decreases krate.root_links@.len() - k,
    {
        if items_info.get(krate.root_links[k].1).is_none() {
            return true;
        }
        k += 1;
    }
    false
}

/// Creates a map from link contents to link URLs
///
/// A link to an item that rustdoc's JSON output says nothing about is looked
/// for in `rustdoc_html`, the HTML that rustdoc made of the crate's root
/// documentation; it is left out where it is not found there either.
pub fn create_links(
    krate: &CrateModel,
    config: &Config,
    package_name: &str,
    package_version: &str,
    rustdoc_html: &str,
) -> (r: Links)
    requires
        krate.index@.len() < usize::MAX,
        links_linkable(*krate),
    ensures
        r.wf(),
        r.view_map() == intra_doc_links(
            *krate,
            config.base_url@,
            config.use_latest_version,
            package_name@,
            package_version@,
            rustdoc_html@,
        ),
{
    let items_info = collect_all_items_info(krate);
    let version = if config.use_latest_version {
        string_of("latest")
    } else {
        string_of(package_version)
    };
    let ghost info = crate_items_info(*krate);
    let ghost v = link_version(config.use_latest_version, package_version@);
    let mut links = Links::new();
    let mut k: usize = 0;
    while k < krate.root_links.len()
        invariant
            0 <= k <= krate.root_links@.len(),
            items_info.view_map() == info,
            info == crate_items_info(*krate),
            links_linkable(*krate),
            version@ == v,
            links.wf(),
            links.view_map() == links_upto(
                *krate,
                info,
                config.base_url@,
                package_name@,
                v,
                rustdoc_html@,
                k as int,
            ),
        decreases krate.root_links@.len() - k,
    {
        let (link, id) = &krate.root_links[k];
        match items_info.get(*id) {
            Some(item_info) => {
                let url = item_info.url(
                    &krate.external_crates,
                    config.base_url.as_str(),
                    package_name,
                    version.as_str(),
                );
                links.insert(link.clone(), url);
            },
            None => {
                match extract_rustdoc_link(link.as_str(), rustdoc_html) {
                    Some(href) => {
                        let mut url = string_of(config.base_url.as_str());
                        push_str(&mut url, "/");
                        push_str(&mut url, package_name);
                        push_str(&mut url, "/latest/");
                        push_str(&mut url, package_name);
                        push_str(&mut url, "/");
                        push_str(&mut url, href.as_str());
                        links.insert(link.clone(), url);
                    },
                    None => {},
                }
            },
        }
        k += 1;
    }
    links
}

} // verus!
