//! A verified engine for rendering static-analysis interchange documents
//! (SARIF logs) as human-readable diagnostics.
//!
//! The crate models a document as plain data ([`sarif`], read from JSON by
//! [`parse`]), resolves the effective severity and message of each result
//! ([`resolve`]), maps region descriptors to byte ranges inside loaded
//! source text ([`files`], [`region`]), decides which path on disk an
//! artifact reference points at ([`locate`]), and composes plain or
//! source-framed renderings with a trailing summary ([`render`]). The
//! [`laws`] module states and proves the precedence and degradation rules
//! these procedures obey. Converters turn the native output of several
//! analysis tools into documents of the model ([`clang_tidy`], [`deny`],
//! [`hadolint`], [`shellcheck`]).

pub mod clang_tidy;
pub mod deny;
pub mod files;
pub mod hadolint;
pub mod index;
pub mod laws;
pub mod locate;
pub mod parse;
pub mod region;
pub mod render;
pub mod resolve;
pub mod sarif;
pub mod shellcheck;
pub mod text;
