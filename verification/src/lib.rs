//! Lexi: a word-list query engine for word games.
//!
//! A [`wordlist::WordList`] is parsed from two line-oriented text sources (a
//! main dictionary with inline annotations and a denylist of excluded terms)
//! and collapsed, under a selection of [`wordlist::Flag`]s, into a flat word
//! collection. A [`Lexicon`] is then narrowed in place by letter-inclusion,
//! letter-exclusion, letter-set-restriction, and length predicates, until the
//! remaining words satisfy all applied constraints. [`VecLexicon`] is the
//! basic implementation, over a flat in-memory collection; it case-normalizes
//! every word to lowercase at ingestion, while queries are passed through
//! unnormalized.
//!
//! Every filtering operation is specified exactly: the post-call word set is
//! the pre-call word sequence filtered by the operation's predicate, so
//! idempotence, monotonicity, and commutativity of independent filters are
//! proved rather than merely tested.

pub mod filtering;
pub mod lexicon;
pub mod text;
pub mod veclexicon;
pub mod wordlist;

pub use lexicon::Lexicon;
pub use veclexicon::VecLexicon;
