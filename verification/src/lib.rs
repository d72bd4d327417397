//! Inlay hints: inferred types for bindings without a written type, and
//! parameter names for literal call arguments.
//!
//! The engine works on a syntax tree that already carries what the semantic
//! layer knows: the type of each binding and the signature behind each call.
//! It decides which hints exist, where they are anchored and what they say.

pub mod dispatch;
pub mod hint;
pub mod laws;
pub mod leaf_pats;
pub mod param_hints;
pub mod pat;
pub mod syntax;
pub mod type_hints;

pub use dispatch::{get_inlay_hints, inlay_hints};
pub use hint::{InlayHint, InlayKind, TextRange};
pub use leaf_pats::get_leaf_pats;
pub use param_hints::{get_fn_signature, get_param_name_hints};
pub use type_hints::get_pat_type_hints;
