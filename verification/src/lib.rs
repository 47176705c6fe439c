//! Turns an already-resolved Cargo dependency graph into a BitBake recipe.
//!
//! The resolver itself is an external collaborator: it hands over a root
//! package descriptor and a finished set of resolved packages.  This crate
//! translates each package's source descriptor into the recipe language's
//! fetch directives, assembles a canonical recipe document — the directive
//! block sorted, one directive per emitted package — and resolves the
//! license-file checksum entries.

pub mod assemble;
pub mod laws;
pub mod license;
pub mod model;
pub mod text;
pub mod translate;
