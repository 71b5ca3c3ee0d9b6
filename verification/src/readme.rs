//! Generating the README text of one package from what rustdoc reports of
//! its crate.

use vstd::prelude::*;

use crate::config::Config;
use crate::insert_into_readme::{readme_split, ReadmeContents, ReadmeParts};
use crate::intralinks::{create_links, intra_doc_links, links_linkable, CrateModel};
use crate::markdown::events::markdown_heading_levels;
use crate::markdown::{has_h1, has_h1_heading, resolve_markdown, resolved_markdown};
use crate::markdown::code_block::trim;
use crate::text::{chars_of, is_white_space, string_of};

verus! {

/// Why no README text could be generated.
#[derive(Debug)]
pub enum ReadmeError {
    /// The existing README has no place marked for the generated text, which
    /// is held here
    MarkerMissing(String),
    /// The spans that the markdown parser reported for the documentation
    /// cannot be used to rewrite it
    Unparsable,
}

/// The crate's root documentation, empty where it has none.
pub open spec fn root_docs(krate: CrateModel) -> Seq<char> {
    match krate.root_docs {
        Some(d) => d@,
        None => Seq::empty(),
    }
}

/// Whether the headings of the documentation are incremented: the option is
/// on, and the text before the generated region of the existing README has a
/// level 1 heading.
pub open spec fn increments_headings(option: bool, original_readme: Option<Seq<char>>) -> bool {
    option && match original_readme {
        Some(t) => match readme_split(t) {
            Some((before, _)) => has_h1(markdown_heading_levels(before)),
            None => false,
        },
        None => false,
    }
}

/// The generated README text of the package.
pub open spec fn generated_text(
    krate: CrateModel,
    config: Config,
    package_name: Seq<char>,
    package_version: Seq<char>,
    rustdoc_html: Seq<char>,
    original_readme: Option<Seq<char>>,
) -> Option<Seq<char>> {
    resolved_markdown(
        root_docs(krate),
        intra_doc_links(
            krate,
            config.base_url@,
            config.use_latest_version,
            package_name,
            package_version,
            rustdoc_html,
        ),
        increments_headings(config.increment_headings, original_readme),
    )
}

/// The view of an optional string slice.
pub open spec fn opt_view(s: Option<&str>) -> Option<Seq<char>> {
    match s {
        Some(t) => Some(t@),
        None => None,
    }
}

/// For a given package, returns the contents of its generated README.
///
/// `krate` is what rustdoc reports of the documented target, `rustdoc_html`
/// the HTML that rustdoc made of its root documentation (needed only where
/// an intra-doc link points to an item that `krate` says nothing about), and
/// `original_readme` the README file as it exists, if it does. `Ok(None)`
/// where the generated text is empty. The text is generated whether or not
/// the existing README marks a place for it; where it does not, the error
/// holds the text.
pub fn generate_readme(
    config: &Config,
    krate: &CrateModel,
    package_name: &str,
    package_version: &str,
    rustdoc_html: &str,
    original_readme: Option<&str>,
) -> (r: Result<Option<ReadmeContents>, ReadmeError>)
    requires
        krate.index@.len() < usize::MAX,
        links_linkable(*krate),
    ensures
        ({
            let original = opt_view(original_readme);
            let text = generated_text(
                *krate,
                *config,
                package_name@,
                package_version@,
                rustdoc_html@,
                original,
            );
            let marker_missing = original matches Some(t) && readme_split(t) is None;
            &&& (r matches Err(ReadmeError::Unparsable)) <==> text is None
            &&& (r matches Ok(None)) <==> text == Some(Seq::<char>::empty())
            &&& (r matches Err(ReadmeError::MarkerMissing(_))) <==> (marker_missing && (
            text matches Some(g) && g.len() > 0))
            &&& r matches Err(ReadmeError::MarkerMissing(s)) ==> text == Some(s@)
            &&& r matches Ok(Some(contents)) ==> match contents {
                ReadmeContents::NewlyCreated(s) => original is None && text == Some(s@),
                ReadmeContents::InsertedIntoExisting(parts) => original matches Some(t)
                    && readme_split(t) == Some((parts.before_view(), parts.after_view()))
                    && text == Some(parts.inserted_view()),
            }
        }),
{
    let increment_headings = match original_readme {
        Some(t) => match ReadmeParts::new(t, "") {
            Ok(parts) => has_h1_heading(parts.before()),
            Err(_) => false,
        },
        None => false,
    } && config.increment_headings;
    let links = create_links(krate, config, package_name, package_version, rustdoc_html);
    let docs = match &krate.root_docs {
        Some(d) => string_of(d.as_str()),
        None => String::new(),
    };
    let contents = match resolve_markdown(docs.as_str(), &links, increment_headings) {
        Some(c) => c,
        None => {
            return Err(ReadmeError::Unparsable);
        },
    };
    // skip READMEs that have empty content
    if contents.as_str().is_empty() {
        assert(contents@ =~= Seq::<char>::empty());
        return Ok(None);
    }
    match original_readme {
        None => Ok(Some(ReadmeContents::NewlyCreated(contents))),
        Some(t) => match ReadmeParts::new(t, contents.as_str()) {
            Ok(parts) => Ok(Some(ReadmeContents::InsertedIntoExisting(parts))),
            Err(_) => Err(ReadmeError::MarkerMissing(contents)),
        },
    }
}

/// The crate's root documentation, if it has any.
pub open spec fn root_docs_view(krate: CrateModel) -> Option<Seq<char>> {
    match krate.root_docs {
        Some(d) => Some(d@),
        None => None,
    }
}

/// Documentation that is missing or only white space.
pub open spec fn docs_empty(docs: Option<Seq<char>>) -> bool {
    match docs {
        Some(d) => trim(d).len() == 0,
        None => true,
    }
}

/// Whether the crate has no root documentation to speak of; the heuristic
/// choice of target then passes over it.
pub fn documentation_is_empty(krate: &CrateModel) -> (r: bool)
    ensures
        r == docs_empty(root_docs_view(*krate)),
{
    match &krate.root_docs {
        None => true,
        Some(d) => {
            let v = chars_of(d.as_str());
            let mut i: usize = 0;
            while i < v.len()
                invariant
                    0 <= i <= v@.len(),
                    v@ == d@,
                    root_docs_view(*krate) == Some(d@),
                    forall|k: int| 0 <= k < i ==> is_white_space(v@[k]),
                decreases v@.len() - i,
            {
                if !crate::text::is_whitespace(v[i]) {
                    proof {
                        crate::markdown::code_block::lemma_trim_empty_iff(v@);
                        assert(!is_white_space(v@[i as int]));
                    }
                    return false;
                }
                i += 1;
            }
            proof {
                crate::markdown::code_block::lemma_trim_empty_iff(v@);
            }
            true
        },
    }
}

} // verus!
