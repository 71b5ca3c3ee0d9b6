//! Configuration in the `[workspace.metadata]` and `[package.metadata]`
//! sections of `Cargo.toml`.
//!
//! The tables themselves are read by the binary; this module holds the rules
//! by which the values found there are merged and completed with defaults.

use vstd::prelude::*;

use crate::text::{chars_of, first_char_index, find_char, push_str, str_eq, string_from_chars, string_of};

verus! {

/// The fully resolved configuration of one package.
pub struct Config {
    /// The base URL for every generated URL in the README
    pub base_url: String,
    /// The note that appears at the beginning of the generated section
    pub note: String,
    /// Which target's documentation becomes the README
    pub target: Target,
    /// Whether headings are incremented when the README already has a level 1 heading
    pub increment_headings: bool,
    /// Whether links into this package use `latest` in place of its version;
    /// where no table sets it, exactly when the base URL is docs.rs
    pub use_latest_version: bool,
    pub features: Option<Vec<String>>,
    pub all_features: Option<bool>,
    pub no_default_features: Option<bool>,
    pub rustc_args: Vec<String>,
    pub rustdoc_args: Vec<String>,
}

impl Config {
    /// Whether this config affects the Cargo metadata,
    /// in which case it will need to be re-computed
    pub fn affects_cargo_metadata(&self) -> (r: bool)
        ensures
            r == (self.all_features is Some || self.features is Some
                || self.no_default_features is Some),
    {
        self.all_features.is_some() || self.features.is_some() || self.no_default_features.is_some()
    }
}

/// Which target of the package the README is generated from.
pub enum Target {
    /// The single binary target
    BinOnly,
    /// The binary target with this name
    BinExact(String),
    /// The library target
    Lib,
    /// The library, unless its documentation is empty; then the first binary
    Heuristic,
}

/// A target of a Cargo package, as far as the choice of target needs it.
pub struct TargetInfo {
    pub name: String,
    pub is_lib: bool,
    pub is_rlib: bool,
    pub is_cdylib: bool,
    pub is_proc_macro: bool,
    pub is_staticlib: bool,
    pub is_bin: bool,
}

/// Why no target could be chosen.
pub enum TargetError {
    /// There is not exactly one binary target
    NotExactlyOneBinary,
    /// No binary target has the requested name
    BinaryNotFound(String),
    /// There is not exactly one library target
    NoLibrary,
    /// There is neither a library nor a binary target
    NoTarget,
}

/// What an error in choosing a target says.
pub open spec fn target_error_text(e: TargetError) -> Seq<char> {
    match e {
        TargetError::NotExactlyOneBinary => "expected exactly 1 binary target (main.rs)"@,
        TargetError::BinaryNotFound(name) => "binary target with the name `"@ + name@ + "` not found"@,
        TargetError::NoLibrary => "expected a library target (lib.rs)"@,
        TargetError::NoTarget => "no library (lib.rs) or binary (main.rs) target found"@,
    }
}

impl TargetError {
    /// What went wrong, for the user.
    pub fn message(&self) -> (r: String)
        ensures
            r@ == target_error_text(*self),
    {
        match self {
            TargetError::NotExactlyOneBinary => string_of("expected exactly 1 binary target (main.rs)"),
            TargetError::BinaryNotFound(name) => {
                let mut r = string_of("binary target with the name `");
                push_str(&mut r, name.as_str());
                push_str(&mut r, "` not found");
                r
            },
            TargetError::NoLibrary => string_of("expected a library target (lib.rs)"),
            TargetError::NoTarget => string_of("no library (lib.rs) or binary (main.rs) target found"),
        }
    }
}

/// The outcome of one step of choosing a target.
pub enum TargetChoice {
    /// This target is chosen
    Chosen(usize),
    /// The choice depends on whether the documentation of this (library)
    /// target is empty: ask again with the answer
    NeedsEmptinessCheck(usize),
    /// No target can be chosen
    Failed(TargetError),
}

/// The target is one of the library kinds.
pub open spec fn is_library(t: TargetInfo) -> bool {
    t.is_lib || t.is_rlib || t.is_cdylib || t.is_proc_macro || t.is_staticlib
}

/// `i` is the one and only index at which `p` holds.
pub open spec fn only_index(n: int, p: spec_fn(int) -> bool, i: int) -> bool {
    &&& 0 <= i < n
    &&& p(i)
    &&& forall|j: int| 0 <= j < n && #[trigger] p(j) ==> j == i
}

/// The index of the only library target, if there is exactly one.
pub open spec fn library_target(ts: Seq<TargetInfo>) -> Option<int> {
    let p = |j: int| is_library(ts[j]);
    if exists|i: int| only_index(ts.len() as int, p, i) {
        Some(choose|i: int| only_index(ts.len() as int, p, i))
    } else {
        None
    }
}

/// Each of the five library kinds of Cargo (`lib`, `rlib`, `cdylib`,
/// `proc-macro`, `staticlib`) makes a target the library: where target `i`
/// is of one of them and no other target is, asking for the library, or for
/// the heuristic choice with documentation that is not empty, chooses `i`;
/// where no target is of any of them, there is no library.
pub proof fn lemma_library_kinds(ts: Seq<TargetInfo>, i: int)
    requires
        0 <= i < ts.len(),
        ts[i].is_lib || ts[i].is_rlib || ts[i].is_cdylib || ts[i].is_proc_macro || ts[i].is_staticlib,
        forall|j: int|
            0 <= j < ts.len() && j != i ==> !(#[trigger] ts[j].is_lib || ts[j].is_rlib || ts[j].is_cdylib
                || ts[j].is_proc_macro || ts[j].is_staticlib),
    ensures
        library_target(ts) == Some(i),
        target_choice(Target::Lib, ts, None) == TargetChoice::Chosen(i as usize),
        target_choice(Target::Heuristic, ts, Some(false)) == TargetChoice::Chosen(i as usize),
{
    let p = |j: int| is_library(ts[j]);
    assert(only_index(ts.len() as int, p, i));
    let k = choose|k: int| only_index(ts.len() as int, p, k);
    assert(k == i);
}

/// Where no target is of a library kind, there is no library.
pub proof fn lemma_no_library_kind(ts: Seq<TargetInfo>)
    requires
        forall|j: int|
            0 <= j < ts.len() ==> !(#[trigger] ts[j].is_lib || ts[j].is_rlib || ts[j].is_cdylib
                || ts[j].is_proc_macro || ts[j].is_staticlib),
    ensures
        library_target(ts) is None,
{
    let p = |j: int| is_library(ts[j]);
    assert forall|k: int| !only_index(ts.len() as int, p, k) by {
        if 0 <= k < ts.len() {
            assert(!p(k));
        }
    }
}

/// The index of the only binary target, if there is exactly one.
pub open spec fn only_binary(ts: Seq<TargetInfo>) -> Option<int> {
    let p = |j: int| ts[j].is_bin;
    if exists|i: int| only_index(ts.len() as int, p, i) {
        Some(choose|i: int| only_index(ts.len() as int, p, i))
    } else {
        None
    }
}

/// `i` is the first index at which `p` holds.
pub open spec fn first_index(n: int, p: spec_fn(int) -> bool, i: int) -> bool {
    &&& 0 <= i < n
    &&& p(i)
    &&& forall|j: int| 0 <= j < i ==> !#[trigger] p(j)
}

/// The index of the first target satisfying `p`.
pub open spec fn first_target(n: int, p: spec_fn(int) -> bool) -> Option<int> {
    if exists|i: int| first_index(n, p, i) {
        Some(choose|i: int| first_index(n, p, i))
    } else {
        None
    }
}

/// The index of the first binary target with the given name.
pub open spec fn named_binary(ts: Seq<TargetInfo>, name: Seq<char>) -> Option<int> {
    first_target(ts.len() as int, |j: int| ts[j].is_bin && ts[j].name@ == name)
}

/// The index of the first binary target.
pub open spec fn first_binary(ts: Seq<TargetInfo>) -> Option<int> {
    first_target(ts.len() as int, |j: int| ts[j].is_bin)
}

/// What choosing a target among `ts` gives, where `lib_is_empty` answers
/// whether the documentation of the library target is empty, if known.
pub open spec fn target_choice(
    target: Target,
    ts: Seq<TargetInfo>,
    lib_is_empty: Option<bool>,
) -> TargetChoice {
    match target {
        Target::BinOnly => match only_binary(ts) {
            Some(i) => TargetChoice::Chosen(i as usize),
            None => TargetChoice::Failed(TargetError::NotExactlyOneBinary),
        },
        Target::BinExact(name) => match named_binary(ts, name@) {
            Some(i) => TargetChoice::Chosen(i as usize),
            None => TargetChoice::Failed(TargetError::BinaryNotFound(name)),
        },
        Target::Lib => match library_target(ts) {
            Some(i) => TargetChoice::Chosen(i as usize),
            None => TargetChoice::Failed(TargetError::NoLibrary),
        },
        Target::Heuristic => match (library_target(ts), lib_is_empty) {
            (Some(i), None) => TargetChoice::NeedsEmptinessCheck(i as usize),
            (Some(i), Some(false)) => TargetChoice::Chosen(i as usize),
            (lib, _) => match first_binary(ts) {
                Some(b) => TargetChoice::Chosen(b as usize),
                None => match lib {
                    Some(i) => TargetChoice::Chosen(i as usize),
                    None => TargetChoice::Failed(TargetError::NoTarget),
                },
            },
        },
    }
}

/// The index of the only target satisfying `p`, if there is exactly one.
fn only_target_where(n: usize, Ghost(p): Ghost<spec_fn(int) -> bool>, flags: &Vec<bool>) -> (r: Option<usize>)
    requires
        flags@.len() == n,
        forall|j: int| 0 <= j < n ==> flags@[j] == p(j),
    ensures
        r matches Some(i) ==> only_index(n as int, p, i as int),
        r is None ==> !exists|i: int| only_index(n as int, p, i),
{
    let mut found: Option<usize> = None;
    let mut j: usize = 0;
    while j < n
        invariant
            0 <= j <= n,
            flags@.len() == n,
            forall|k: int| 0 <= k < n ==> flags@[k] == p(k),
            found matches Some(i) ==> i < j && p(i as int) && forall|k: int|
                0 <= k < j && #[trigger] p(k) ==> k == i,
            found is None ==> forall|k: int| 0 <= k < j ==> !#[trigger] p(k),
        decreases n - j,
    {
        if flags[j] {
            if found.is_some() {
                let i = found.unwrap();
                proof {
                    assert forall|k: int| !only_index(n as int, p, k) by {
                        if only_index(n as int, p, k) {
                            assert(p(i as int) && p(j as int));
                        }
                    }
                }
                return None;
            }
            found = Some(j);
        }
        j += 1;
    }
    found
}

/// The index of the first target satisfying `p`.
fn first_target_where(n: usize, Ghost(p): Ghost<spec_fn(int) -> bool>, flags: &Vec<bool>) -> (r: Option<usize>)
    requires
        flags@.len() == n,
        forall|j: int| 0 <= j < n ==> flags@[j] == p(j),
    ensures
        r matches Some(i) ==> first_index(n as int, p, i as int),
        r is None ==> !exists|i: int| first_index(n as int, p, i),
{
    let mut j: usize = 0;
    while j < n
        invariant
            0 <= j <= n,
            flags@.len() == n,
            forall|k: int| 0 <= k < n ==> flags@[k] == p(k),
            forall|k: int| 0 <= k < j ==> !#[trigger] p(k),
        decreases n - j,
    {
        if flags[j] {
            return Some(j);
        }
        j += 1;
    }
    None
}

/// Two first indices where `p` holds are the same.
proof fn lemma_first_unique(n: int, p: spec_fn(int) -> bool, i: int, k: int)
    requires
        first_index(n, p, i),
        first_index(n, p, k),
    ensures
        i == k,
{
    if i < k {
        assert(!p(i));
    } else if k < i {
        assert(!p(k));
    }
}

/// Two only indices where `p` holds are the same.
proof fn lemma_only_unique(n: int, p: spec_fn(int) -> bool, i: int, k: int)
    requires
        only_index(n, p, i),
        only_index(n, p, k),
    ensures
        i == k,
{
    assert(p(k));
}

impl Target {
    /// The index of the only library target, if there is exactly one.
    pub fn library_target(targets: &[TargetInfo]) -> (r: Option<usize>)
        ensures
            r matches Some(i) ==> library_target(targets@) == Some(i as int),
            r is None ==> library_target(targets@) is None,
    {
        let ghost ts = targets@;
        let ghost p = |j: int| is_library(ts[j]);
        let mut flags: Vec<bool> = Vec::new();
        let mut j: usize = 0;
        while j < targets.len()
            invariant
                0 <= j <= targets@.len(),
                ts == targets@,
                p == (|k: int| is_library(ts[k])),
                flags@.len() == j,
                forall|k: int| 0 <= k < j ==> flags@[k] == p(k),
            decreases targets@.len() - j,
        {
            let t = &targets[j];
            flags.push(t.is_lib || t.is_rlib || t.is_cdylib || t.is_proc_macro || t.is_staticlib);
            assert(flags@[j as int] == p(j as int));
            j += 1;
        }
        let r = only_target_where(targets.len(), Ghost(p), &flags);
        proof {
            if let Some(i) = r {
                let c = choose|k: int| only_index(ts.len() as int, p, k);
                lemma_only_unique(ts.len() as int, p, i as int, c);
            }
        }
        r
    }

    /// Chooses the target whose documentation becomes the README.
    ///
    /// For [`Target::Heuristic`] the choice depends on whether the library's
    /// documentation is empty; `lib_is_empty` answers that, once known. Where
    /// it is needed and `None`, the result asks for it.
    pub fn select(&self, targets: &[TargetInfo], lib_is_empty: Option<bool>) -> (r: TargetChoice)
        ensures
            r == target_choice(*self, targets@, lib_is_empty),
    {
        let ghost ts = targets@;
        let n = targets.len();
        match self {
            Target::BinOnly => {
                let ghost p = |j: int| ts[j].is_bin;
                let flags = Self::flags_bin(targets);
                let r = only_target_where(n, Ghost(p), &flags);
                match r {
                    Some(i) => {
                        proof {
                            let c = choose|k: int| only_index(ts.len() as int, p, k);
                            lemma_only_unique(ts.len() as int, p, i as int, c);
                        }
                        TargetChoice::Chosen(i)
                    },
                    None => TargetChoice::Failed(TargetError::NotExactlyOneBinary),
                }
            },
            Target::BinExact(name) => {
                let ghost p = |j: int| ts[j].is_bin && ts[j].name@ == name@;
                let mut flags: Vec<bool> = Vec::new();
                let mut j: usize = 0;
                while j < n
                    invariant
                        0 <= j <= n,
                        n == targets@.len(),
                        ts == targets@,
                        p == (|k: int| ts[k].is_bin && ts[k].name@ == name@),
                        flags@.len() == j,
                        forall|k: int| 0 <= k < j ==> flags@[k] == p(k),
                    decreases n - j,
                {
                    let t = &targets[j];
                    let b = t.is_bin && t.name == *name;
                    flags.push(b);
                    assert(flags@[j as int] == p(j as int));
                    j += 1;
                }
                let r = first_target_where(n, Ghost(p), &flags);
                match r {
                    Some(i) => {
                        proof {
                            let c = choose|k: int| first_index(ts.len() as int, p, k);
                            lemma_first_unique(ts.len() as int, p, i as int, c);
                        }
                        TargetChoice::Chosen(i)
                    },
                    None => TargetChoice::Failed(TargetError::BinaryNotFound(name.clone())),
                }
            },
            Target::Lib => match Self::library_target(targets) {
                Some(i) => TargetChoice::Chosen(i),
                None => TargetChoice::Failed(TargetError::NoLibrary),
            },
            Target::Heuristic => {
                let lib = Self::library_target(targets);
                if let Some(i) = lib {
                    match lib_is_empty {
                        None => {
                            return TargetChoice::NeedsEmptinessCheck(i);
                        },
                        Some(false) => {
                            return TargetChoice::Chosen(i);
                        },
                        Some(true) => {},
                    }
                }
                let ghost p = |j: int| ts[j].is_bin;
                let flags = Self::flags_bin(targets);
                let b = first_target_where(n, Ghost(p), &flags);
                match b {
                    Some(bi) => {
                        proof {
                            let c = choose|k: int| first_index(ts.len() as int, p, k);
                            lemma_first_unique(ts.len() as int, p, bi as int, c);
                        }
                        TargetChoice::Chosen(bi)
                    },
                    None => match lib {
                        Some(i) => TargetChoice::Chosen(i),
                        None => TargetChoice::Failed(TargetError::NoTarget),
                    },
                }
            },
        }
    }

    /// Which targets are binaries.
    fn flags_bin(targets: &[TargetInfo]) -> (flags: Vec<bool>)
        ensures
            flags@.len() == targets@.len(),
            forall|k: int| 0 <= k < targets@.len() ==> flags@[k] == targets@[k].is_bin,
    {
        let mut flags: Vec<bool> = Vec::new();
        let mut j: usize = 0;
        while j < targets.len()
            invariant
                0 <= j <= targets@.len(),
                flags@.len() == j,
                forall|k: int| 0 <= k < j ==> flags@[k] == targets@[k].is_bin,
            decreases targets@.len() - j,
        {
            flags.push(targets[j].is_bin);
            j += 1;
        }
        flags
    }
}


/// The textual form of a target, as written in the configuration.
pub open spec fn target_text(t: Target) -> Seq<char> {
    match t {
        Target::BinOnly => "bin"@,
        Target::BinExact(name) => "bin:"@ + name@,
        Target::Lib => "lib"@,
        Target::Heuristic => "heuristic"@,
    }
}

/// The target that a textual form denotes, if any.
pub open spec fn parse_target(s: Seq<char>) -> Option<TargetView> {
    if s == "lib"@ {
        Some(TargetView::Lib)
    } else if s == "bin"@ {
        Some(TargetView::BinOnly)
    } else if s == "heuristic"@ {
        Some(TargetView::Heuristic)
    } else {
        match first_char_index(s, ':') {
            Some(i) => if s.take(i) == "bin"@ {
                Some(TargetView::BinExact(s.skip(i + 1)))
            } else {
                None
            },
            None => None,
        }
    }
}

/// A target with its binary name as a character sequence.
pub enum TargetView {
    BinOnly,
    BinExact(Seq<char>),
    Lib,
    Heuristic,
}

impl Target {
    /// The target with its name viewed as characters.
    pub open spec fn view_target(self) -> TargetView {
        match self {
            Target::BinOnly => TargetView::BinOnly,
            Target::BinExact(name) => TargetView::BinExact(name@),
            Target::Lib => TargetView::Lib,
            Target::Heuristic => TargetView::Heuristic,
        }
    }

    /// The textual form of the target: `bin`, `bin:<name>`, `lib` or `heuristic`.
    pub fn to_string(&self) -> (r: String)
        ensures
            r@ == target_text(*self),
    {
        match self {
            Target::BinOnly => string_of("bin"),
            Target::BinExact(name) => {
                let mut r = string_of("bin:");
                push_str(&mut r, name.as_str());
                r
            },
            Target::Lib => string_of("lib"),
            Target::Heuristic => string_of("heuristic"),
        }
    }

    /// Parses the textual form of a target.
    ///
    /// Valid values are `lib`, `bin`, `bin:<name>` and `heuristic`.
    pub fn from_str(s: &str) -> (r: Result<Target, TargetParseError>)
        ensures
            r matches Ok(t) ==> parse_target(s@) == Some(t.view_target()),
            r is Err <==> parse_target(s@) is None,
    {
        if str_eq(s, "lib") {
            return Ok(Target::Lib);
        }
        if str_eq(s, "bin") {
            return Ok(Target::BinOnly);
        }
        if str_eq(s, "heuristic") {
            return Ok(Target::Heuristic);
        }
        let v = chars_of(s);
        match find_char(v.as_slice(), ':') {
            Some(i) => {
                let prefix = string_from_chars(v.as_slice(), 0, i);
                if str_eq(prefix.as_str(), "bin") {
                    let n = v.len();
                    assert(i < n);
                    let name = string_from_chars(v.as_slice(), i + 1, n);
                    assert(v@.subrange(i + 1, v@.len() as int) =~= v@.skip(i + 1));
                    assert(v@.subrange(0, i as int) =~= v@.take(i as int));
                    Ok(Target::BinExact(name))
                } else {
                    assert(v@.subrange(0, i as int) =~= v@.take(i as int));
                    Err(TargetParseError)
                }
            },
            None => Err(TargetParseError),
        }
    }
}

/// The value given for `target` is none of the valid ones.
#[derive(Debug)]
pub struct TargetParseError;

impl TargetParseError {
    /// What went wrong, for the user.
    pub fn message(&self) -> (r: String)
        ensures
            r@ == "valid values for `target` are: \"lib\", \"bin\", \"bin:bin-name\", or \"heuristic\""@,
    {
        string_of("valid values for `target` are: \"lib\", \"bin\", \"bin:bin-name\", or \"heuristic\"")
    }
}

/// Reading back the textual form of a target gives the same target.
pub proof fn lemma_target_text_roundtrip(t: Target)
    ensures
        parse_target(target_text(t)) == Some(t.view_target()),
{
    reveal_strlit("lib");
    reveal_strlit("bin");
    reveal_strlit("bin:");
    reveal_strlit("heuristic");
    match t {
        Target::BinExact(name) => {
            let s = "bin:"@ + name@;
            assert(s[3] == ':');
            assert(s[0] != "heuristic"@[0]);
            assert(s.len() != "lib"@.len());
            assert(s != "lib"@);
            assert(s != "heuristic"@);
            assert(s.len() != "bin"@.len());
            assert(forall|k: int| 0 <= k < 3 ==> s[k] != ':');
            assert(first_char_index(s, ':') == Some(3int)) by {
                let j = choose|j: int|
                    0 <= j < s.len() && s[j] == ':' && forall|k: int| 0 <= k < j ==> s[k] != ':';
                if j > 3 {
                    assert(s[3] == ':');
                }
            }
            assert(s.take(3) =~= "bin"@);
            assert(s.skip(4) =~= name@);
            assert(parse_target(s) == Some(TargetView::BinExact(name@)));
        },
        Target::BinOnly => {
            assert("bin"@[0] != "lib"@[0]);
        },
        Target::Heuristic => {
            assert("heuristic"@.len() != "lib"@.len());
            assert("heuristic"@.len() != "bin"@.len());
        },
        Target::Lib => {},
    }
}

/// The options of the `[package.metadata.docs.rs]` table that are shared
/// with the configuration of this tool.
pub struct ConfigTomlRustdocShared {
    pub features: Option<Vec<String>>,
    pub all_features: Option<bool>,
    pub no_default_features: Option<bool>,
    pub rustc_args: Option<Vec<String>>,
    pub rustdoc_args: Option<Vec<String>>,
}

/// The `[package.metadata.cargo-reedme]` or `[workspace.metadata.cargo-reedme]` table
pub struct ConfigToml {
    pub base_url: Option<String>,
    pub note: Option<String>,
    pub target: Option<Target>,
    pub increment_headings: Option<bool>,
    pub use_latest_version: Option<bool>,
    pub cargo: ConfigTomlRustdocShared,
}

/// The `[package.metadata]` or `[workspace.metadata]` table, as far as this
/// tool reads it.
pub struct PackageMetadata {
    /// The `cargo-reedme` table
    pub cargo_reedme: Option<ConfigToml>,
    /// The `docs.rs` table
    pub docs_rs: Option<ConfigTomlRustdocShared>,
}

/// The table that `ConfigToml::from_package_metadata` extracts.
pub open spec fn toml_of_metadata(metadata: PackageMetadata) -> ConfigToml {
    let own = match metadata.cargo_reedme {
        Some(c) => c,
        None => empty_toml(),
    };
    let docs = match metadata.docs_rs {
        Some(d) => d,
        None => empty_shared(),
    };
    ConfigToml {
        cargo: ConfigTomlRustdocShared {
            features: or_else(own.cargo.features, docs.features),
            all_features: or_else(own.cargo.all_features, docs.all_features),
            no_default_features: or_else(own.cargo.no_default_features, docs.no_default_features),
            rustc_args: or_else(own.cargo.rustc_args, docs.rustc_args),
            rustdoc_args: or_else(own.cargo.rustdoc_args, docs.rustdoc_args),
        },
        ..own
    }
}

/// The value of an optional field after falling back to `fallback`.
pub open spec fn or_else<T>(value: Option<T>, fallback: Option<T>) -> Option<T> {
    if value is Some {
        value
    } else {
        fallback
    }
}

/// A shared table with all fields unset.
pub open spec fn empty_shared() -> ConfigTomlRustdocShared {
    ConfigTomlRustdocShared {
        features: None,
        all_features: None,
        no_default_features: None,
        rustc_args: None,
        rustdoc_args: None,
    }
}

/// A table with all fields unset.
pub open spec fn empty_toml() -> ConfigToml {
    ConfigToml {
        base_url: None,
        note: None,
        target: None,
        increment_headings: None,
        use_latest_version: None,
        cargo: empty_shared(),
    }
}

impl ConfigTomlRustdocShared {
    /// All fields unset.
    pub fn empty() -> (r: Self)
        ensures
            r == empty_shared(),
    {
        ConfigTomlRustdocShared {
            features: None,
            all_features: None,
            no_default_features: None,
            rustc_args: None,
            rustdoc_args: None,
        }
    }
}

impl ConfigToml {
    /// All fields unset.
    pub fn empty() -> (r: Self)
        ensures
            r == empty_toml(),
    {
        ConfigToml {
            base_url: None,
            note: None,
            target: None,
            increment_headings: None,
            use_latest_version: None,
            cargo: ConfigTomlRustdocShared::empty(),
        }
    }

    /// Extracts configuration from the `[workspace.metadata]` or
    /// `[package.metadata]` table: the `cargo-reedme` table, with the options
    /// that it leaves unset taken from the `docs.rs` table.
    pub fn from_package_metadata(metadata: PackageMetadata) -> (r: Self)
        ensures
            ({
                let own = match metadata.cargo_reedme {
                    Some(c) => c,
                    None => empty_toml(),
                };
                let docs = match metadata.docs_rs {
                    Some(d) => d,
                    None => empty_shared(),
                };
                &&& r.base_url == own.base_url
                &&& r.note == own.note
                &&& r.target == own.target
                &&& r.increment_headings == own.increment_headings
                &&& r.use_latest_version == own.use_latest_version
                &&& r.cargo.features == or_else(own.cargo.features, docs.features)
                &&& r.cargo.all_features == or_else(own.cargo.all_features, docs.all_features)
                &&& r.cargo.no_default_features == or_else(
                    own.cargo.no_default_features,
                    docs.no_default_features,
                )
                &&& r.cargo.rustc_args == or_else(own.cargo.rustc_args, docs.rustc_args)
                &&& r.cargo.rustdoc_args == or_else(own.cargo.rustdoc_args, docs.rustdoc_args)
            }),
    {
        let mut config = match metadata.cargo_reedme {
            Some(c) => c,
            None => ConfigToml::empty(),
        };
        let docs = match metadata.docs_rs {
            Some(d) => d,
            None => ConfigTomlRustdocShared::empty(),
        };
        if config.cargo.features.is_none() {
            config.cargo.features = docs.features;
        }
        if config.cargo.all_features.is_none() {
            config.cargo.all_features = docs.all_features;
        }
        if config.cargo.no_default_features.is_none() {
            config.cargo.no_default_features = docs.no_default_features;
        }
        if config.cargo.rustc_args.is_none() {
            config.cargo.rustc_args = docs.rustc_args;
        }
        if config.cargo.rustdoc_args.is_none() {
            config.cargo.rustdoc_args = docs.rustdoc_args;
        }
        config
    }

    /// Merges contents of `[package.metadata]` with `[workspace.metadata]`,
    /// package metadata takes priority
    pub fn inherit_workspace_metadata(&mut self, workspace_config: Self)
        ensures
            final(self).base_url == or_else(old(self).base_url, workspace_config.base_url),
            final(self).note == or_else(old(self).note, workspace_config.note),
            final(self).target == or_else(old(self).target, workspace_config.target),
            final(self).increment_headings == or_else(
                old(self).increment_headings,
                workspace_config.increment_headings,
            ),
            final(self).use_latest_version == or_else(
                old(self).use_latest_version,
                workspace_config.use_latest_version,
            ),
            final(self).cargo.features == or_else(
                old(self).cargo.features,
                workspace_config.cargo.features,
            ),
            final(self).cargo.all_features == or_else(
                old(self).cargo.all_features,
                workspace_config.cargo.all_features,
            ),
            final(self).cargo.no_default_features == or_else(
                old(self).cargo.no_default_features,
                workspace_config.cargo.no_default_features,
            ),
            final(self).cargo.rustc_args == or_else(
                old(self).cargo.rustc_args,
                workspace_config.cargo.rustc_args,
            ),
            final(self).cargo.rustdoc_args == or_else(
                old(self).cargo.rustdoc_args,
                workspace_config.cargo.rustdoc_args,
            ),
    {
        let ws = workspace_config;
        if self.base_url.is_none() {
            self.base_url = ws.base_url;
        }
        if self.note.is_none() {
            self.note = ws.note;
        }
        if self.target.is_none() {
            self.target = ws.target;
        }
        if self.increment_headings.is_none() {
            self.increment_headings = ws.increment_headings;
        }
        if self.use_latest_version.is_none() {
            self.use_latest_version = ws.use_latest_version;
        }
        if self.cargo.features.is_none() {
            self.cargo.features = ws.cargo.features;
        }
        if self.cargo.all_features.is_none() {
            self.cargo.all_features = ws.cargo.all_features;
        }
        if self.cargo.no_default_features.is_none() {
            self.cargo.no_default_features = ws.cargo.no_default_features;
        }
        if self.cargo.rustc_args.is_none() {
            self.cargo.rustc_args = ws.cargo.rustc_args;
        }
        if self.cargo.rustdoc_args.is_none() {
            self.cargo.rustdoc_args = ws.cargo.rustdoc_args;
        }
    }
}

/// The default base URL.
pub open spec fn default_base_url() -> Seq<char> {
    "https://docs.rs"@
}

/// The default note.
pub open spec fn default_note() -> Seq<char> {
    "Do not edit this region by hand\n===============================\n\nThis region was generated from Rust documentation comments by `cargo-reedme` using this command:\n\n    cargo reedme {args}\n\nfor more info: https://github.com/nik-rev/cargo-reedme\n"@
}

impl Config {
    /// The default configuration.
    pub fn default_config() -> (r: Config)
        ensures
            r.base_url@ == default_base_url(),
            r.note@ == default_note(),
            r.target == Target::Heuristic,
            r.increment_headings,
            r.use_latest_version,
            r.features is None,
            r.all_features is None,
            r.no_default_features is None,
            r.rustc_args@.len() == 0,
            r.rustdoc_args@.len() == 0,
    {
        Config {
            base_url: string_of("https://docs.rs"),
            note: string_of("Do not edit this region by hand\n===============================\n\nThis region was generated from Rust documentation comments by `cargo-reedme` using this command:\n\n    cargo reedme {args}\n\nfor more info: https://github.com/nik-rev/cargo-reedme\n"),
            target: Target::Heuristic,
            increment_headings: true,
            use_latest_version: true,
            features: None,
            all_features: None,
            no_default_features: None,
            rustc_args: Vec::new(),
            rustdoc_args: Vec::new(),
        }
    }

    /// The configuration of a package: `[package.metadata]`, with what it
    /// leaves unset taken from `[workspace.metadata]`, and what both leave
    /// unset from the defaults.
    pub fn new(workspace_metadata: PackageMetadata, package_metadata: PackageMetadata) -> (r: Config)
        ensures
            ({
                let ws = toml_of_metadata(workspace_metadata);
                let pkg = toml_of_metadata(package_metadata);
                &&& r.base_url@ == match or_else(pkg.base_url, ws.base_url) {
                    Some(u) => u@,
                    None => default_base_url(),
                }
                &&& r.note@ == match or_else(pkg.note, ws.note) {
                    Some(n) => n@,
                    None => default_note(),
                }
                &&& r.target == match or_else(pkg.target, ws.target) {
                    Some(t) => t,
                    None => Target::Heuristic,
                }
                &&& r.increment_headings == match or_else(
                    pkg.increment_headings,
                    ws.increment_headings,
                ) {
                    Some(b) => b,
                    None => true,
                }
                &&& r.use_latest_version == match or_else(
                    pkg.use_latest_version,
                    ws.use_latest_version,
                ) {
                    Some(b) => b,
                    None => r.base_url@ == default_base_url(),
                }
                &&& r.features == or_else(pkg.cargo.features, ws.cargo.features)
                &&& r.all_features == or_else(pkg.cargo.all_features, ws.cargo.all_features)
                &&& r.no_default_features == or_else(
                    pkg.cargo.no_default_features,
                    ws.cargo.no_default_features,
                )
                &&& r.rustc_args@ == match or_else(pkg.cargo.rustc_args, ws.cargo.rustc_args) {
                    Some(a) => a@,
                    None => Seq::<String>::empty(),
                }
                &&& r.rustdoc_args@ == match or_else(
                    pkg.cargo.rustdoc_args,
                    ws.cargo.rustdoc_args,
                ) {
                    Some(a) => a@,
                    None => Seq::<String>::empty(),
                }
            }),
    {
        let workspace_config = ConfigToml::from_package_metadata(workspace_metadata);
        let mut config = ConfigToml::from_package_metadata(package_metadata);
        config.inherit_workspace_metadata(workspace_config);
        let d = Config::default_config();
        let base_url = match config.base_url {
            Some(u) => u,
            None => d.base_url,
        };
        // Links into the package name its version, except on docs.rs, which
        // serves the latest version under `latest`
        let on_default_base_url = str_eq(base_url.as_str(), "https://docs.rs");
        Config {
            base_url,
            note: match config.note {
                Some(n) => n,
                None => d.note,
            },
            target: match config.target {
                Some(t) => t,
                None => d.target,
            },
            increment_headings: match config.increment_headings {
                Some(b) => b,
                None => d.increment_headings,
            },
            use_latest_version: match config.use_latest_version {
                Some(b) => b,
                None => on_default_base_url,
            },
            features: config.cargo.features,
            all_features: config.cargo.all_features,
            no_default_features: config.cargo.no_default_features,
            rustc_args: match config.cargo.rustc_args {
                Some(a) => a,
                None => d.rustc_args,
            },
            rustdoc_args: match config.cargo.rustdoc_args {
                Some(a) => a,
                None => d.rustdoc_args,
            },
        }
    }
}

/// Which features of a package are selected for building its documentation.
pub struct FeatureSelection {
    pub all_features: bool,
    pub no_default_features: bool,
    pub features: Vec<String>,
}

impl FeatureSelection {
    /// The selection passed to `cargo metadata` when a package's configuration
    /// affects it: the configured options, each overridden by the command line
    /// where the command line sets it.
    pub fn for_config(config: &Config, cli: &FeatureSelection) -> (r: FeatureSelection)
        ensures
            r.all_features == (cli.all_features || config.all_features == Some(true)),
            r.no_default_features == (cli.no_default_features || config.no_default_features
                == Some(true)),
            r.features@ == if cli.features@.len() != 0 {
                cli.features@
            } else {
                match config.features {
                    Some(f) => f@,
                    None => Seq::<String>::empty(),
                }
            },
    {
        let mut all_features = false;
        let mut no_default_features = false;
        let mut features: Vec<String> = Vec::new();
        if let Some(a) = config.all_features {
            all_features = a;
        }
        if let Some(n) = config.no_default_features {
            no_default_features = n;
        }
        if let Some(f) = &config.features {
            features = f.clone();
        }
        if cli.all_features {
            all_features = true;
        }
        if cli.no_default_features {
            no_default_features = true;
        }
        if cli.features.len() != 0 {
            features = cli.features.clone();
        }
        FeatureSelection { all_features, no_default_features, features }
    }
}

} // verus!
