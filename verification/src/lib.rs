//! Project scaffolding from templates.
//!
//! A template is a directory with a configuration file, `template.yml`, and
//! the files and directories of a project to be. This library holds the rules
//! of a generation, and leaves the reading, the substituting and the writing
//! to its caller:
//!
//! - [`definition`] reads the configuration into rules and variables, and
//!   finds the rule that decides on a path;
//! - [`variables`] fills the mapping from names to values, in which the first
//!   source to set a name wins;
//! - [`generation`] drafts the steps from the entries of the template to
//!   those of the new project, says what is to be substituted for a new name
//!   or a file's text, and takes the outcome from there;
//! - [`git`] says which git command brings a template into the cache;
//! - [`pattern`] and [`document`] hold the regular expressions and the YAML
//!   documents that the others work on.

pub mod definition;
pub mod document;
pub mod generation;
pub mod git;
pub mod pattern;
pub mod variables;

pub use generation::generate;
