//! Decision logic of an interactive branch cleanup tool.
//!
//! The library never touches a repository, a terminal or the network. It is
//! handed plain descriptions of branches and of what the operator answered,
//! and says which branches are candidates, in which order they are shown, how
//! they are labelled, and which deletions follow from a confirmed selection.

pub mod candidate;
pub mod credentials;
pub mod deletion;
pub mod flow;
pub mod ordering;
pub mod present;
pub mod report;
pub mod text;
