//! Reconciliation of simple key/value configuration sections.
//!
//! A [`section::Section`] is an ordered block of raw text lines. Lines that
//! contain the separator `" ="` are key lines; everything up to and including
//! that `=` is the line's key prefix. The library offers three operations to
//! reconcile a current section against a reference section: inserting a key
//! line in near-alphabetical position if its key is missing, commenting out
//! key lines whose key does not occur in the reference section, and removing
//! such lines outright. Non-key lines (blank lines, comments, malformed text)
//! are always passed through untouched.

pub mod keys;
pub mod laws;
pub mod order;
pub mod section;
