//! An in-memory store of versioned text documents.
//!
//! A [`document::Document`] is a handle: it names a document by its
//! identifier and can be copied freely. The state of the document (name,
//! current content, the append-only history of every content it has held, the
//! instants of creation and of last change) is kept once, in the
//! [`storage::DocumentStorage`] that the document was created in. Every copy
//! of a handle, and every handle that a lookup gives, reaches that one state,
//! so what is done through one handle is seen through all others.
//!
//! The registry also files the handles of the live documents under their
//! identifiers. A document that was created and not filed, or whose handle
//! was displaced, stays intact behind the handles that callers still hold;
//! lookup does not find it.
//!
//! Exclusive access is settled by borrowing: an operation that changes a
//! document takes the registry by `&mut`, so a commit is never seen half
//! made, and no operation here waits for a guard or fails to get one. To
//! share a registry between threads, keep it behind a lock; the lock failure
//! variants of the error types are there for that caller.

pub mod document;
pub mod identifier;
pub mod record;
pub mod service;
pub mod storage;
pub mod timestamp;
