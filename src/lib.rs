//! Field shorthand diagnostics: finds `field: field` in record literals and
//! record patterns and offers an edit that collapses it to `field`.

pub mod detect;
pub mod diagnostic;
pub mod laws;
pub mod syntax;
pub mod text_edit;
