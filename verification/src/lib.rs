//! Generate `README.md` files from the crate-level documentation comments of a
//! Rust package.
//!
//! The library holds the logic: the configuration, the resolution of
//! intra-doc links into URLs, the rewriting of the markdown, the insertion
//! of the generated text into an existing README file with its informational
//! note, and the difference shown when checking a README. Reading files and
//! running `cargo` and `rustdoc` is left to the binary.

pub mod text;
pub mod replace_content;
pub mod config;
pub mod insert_into_readme;
pub mod diff_file;
pub mod intralinks;
pub mod markdown;
pub mod readme;
pub mod note;
