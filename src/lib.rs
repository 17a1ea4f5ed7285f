//! Layered configuration documents for a daemon that manages named peers:
//! the document model with its field-wise merge, and the decisions of the
//! cascade that folds a default, a root document and fragments into one.
pub mod document;
pub mod resolve;
pub mod laws;
