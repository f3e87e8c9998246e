//! Documents, as callers hold them: handles into a registry.

use vstd::prelude::*;
use vstd::string::StringExecFns;
use crate::identifier::{fresh_id, is_random_identifier, DocumentId};
use crate::record::{
    lemma_commits_extend_history, lemma_commits_in_any_order, DocumentMetadata, DocumentRecord,
    DocumentView,
};
use crate::storage::{DocumentStorage, StorageView};
use crate::timestamp::{now, Timestamp};

verus! {

/// Why an operation on a document could not be carried out.
#[derive(Debug)]
pub enum DocumentError {
    /// The guard of the document could not be acquired; the text says why.
    /// No operation here returns it: whoever holds the registry has every
    /// document to themselves. It is the error of a caller that keeps the
    /// registry behind a guard which can fail.
    LockError(String),
    /// The handle is not of this registry: no document of its identifier was
    /// created here.
    NotFound,
}

impl DocumentError {
    /// The text that lock failures are preceded by when they are reported.
    pub open spec fn lock_failure_prefix() -> Seq<char> {
        "Failed to acquire lock: "@
    }

    /// The error in words.
    pub open spec fn spec_message(&self) -> Seq<char> {
        match self {
            DocumentError::LockError(reason) => Self::lock_failure_prefix() + reason@,
            DocumentError::NotFound => "Not found"@,
        }
    }

    /// The error in words: a fixed prefix, then the reason it carries.
    pub fn message(&self) -> (text: String)
        ensures
            text@ == self.spec_message(),
    {
        match self {
            DocumentError::LockError(reason) => "Failed to acquire lock: ".to_owned().concat(
                reason.as_str(),
            ),
            DocumentError::NotFound => "Not found".to_owned(),
        }
    }
}


/// A document, as callers hold it: a handle that names the document by its
/// identifier. The state lives in the registry that the document was created
/// in, once; every copy of the handle, and every handle that a lookup of the
/// identifier gives, reaches that one state.
#[derive(Clone, Copy, Debug, PartialEq, Eq, Hash, Structural)]
pub struct Document {
    pub id: DocumentId,
}

/// The handle of the document with identifier `id`.
pub open spec fn handle_of(id: u128) -> Document {
    Document { id: DocumentId { value: id } }
}

/// What a handle operation answers where it has nothing else to report:
/// success iff the document was created in the registry, `NotFound` else.
pub open spec fn answered(storage: StorageView, id: u128, r: Result<(), DocumentError>) -> bool {
    match r {
        Ok(_) => storage.records.contains_key(id),
        Err(e) => !storage.records.contains_key(id) && e is NotFound,
    }
}

impl Document {
    /// Creates, in `storage`, the state of a document under identifier `id`
    /// at instant `at`, and hands out its handle. The registry of live
    /// handles is as before.
    pub fn with_origin(
        storage: &mut DocumentStorage,
        id: DocumentId,
        at: Timestamp,
        name: &str,
        content: &str,
    ) -> (doc: Document)
        ensures
            doc.id == id,
            final(storage)@ == old(storage)@.with_record(
                id.value,
                DocumentView::created(id.value, name@, content@, at),
            ),
    {
        storage.put_record(id.value, DocumentRecord::with_origin(id, at, name, content));
        Document { id }
    }

    /// Creates a document in `storage` under a fresh random identifier, at
    /// this moment. Whatever identifier is drawn and whatever the clock
    /// reads, the new state is the only change to `storage`.
    pub fn new(storage: &mut DocumentStorage, name: &str, content: &str) -> (doc: Document)
        ensures
            is_random_identifier(doc.id.value),
            final(storage)@.records.contains_key(doc.id.value),
            final(storage)@ == old(storage)@.with_record(
                doc.id.value,
                DocumentView::created(
                    doc.id.value,
                    name@,
                    content@,
                    final(storage)@.records[doc.id.value].creation_date,
                ),
            ),
    {
        Document::with_origin(storage, fresh_id(), now(), name, content)
    }

    /// Creates a document with an empty name and empty content in `storage`,
    /// under a fresh random identifier, at this moment.
    pub fn default(storage: &mut DocumentStorage) -> (doc: Document)
        ensures
            is_random_identifier(doc.id.value),
            final(storage)@.records.contains_key(doc.id.value),
            final(storage)@ == old(storage)@.with_record(
                doc.id.value,
                DocumentView::created(
                    doc.id.value,
                    Seq::empty(),
                    Seq::empty(),
                    final(storage)@.records[doc.id.value].creation_date,
                ),
            ),
    {
        let empty = String::new();
        Document::new(storage, empty.as_str(), empty.as_str())
    }

    /// The identifier, which never changes.
    pub fn id(&self) -> (r: DocumentId)
        ensures
            r == self.id,
    {
        self.id
    }

    /// The instants of creation and of last change, as they stand in
    /// `storage`.
    pub fn metadata<'a>(&self, storage: &'a DocumentStorage) -> (r: Result<
        &'a DocumentMetadata,
        DocumentError,
    >)
        ensures
            match r {
                Ok(meta) => {
                    &&& storage@.records.contains_key(self.id.value)
                    &&& meta.spec_creation_date() == storage@.records[self.id.value].creation_date
                    &&& meta.spec_last_modified() == storage@.records[self.id.value].last_modified
                },
                Err(e) => !storage@.records.contains_key(self.id.value) && e is NotFound,
            },
    {
        match storage.record(self.id.value) {
            Some(state) => Ok(state.metadata()),
            None => Err(DocumentError::NotFound),
        }
    }

    /// Commits `content` to the document at instant `at`: it becomes the
    /// current content and the newest entry of the history, and `at` the
    /// instant of last change, for every handle of the document.
    pub fn set_content_at(&self, storage: &mut DocumentStorage, content: &str, at: Timestamp) -> (r:
        Result<(), DocumentError>)
        ensures
            final(storage)@ == old(storage)@.with_commit(self.id.value, content@, at),
            answered(old(storage)@, self.id.value, r),
    {
        let r = match storage.take_record(self.id.value) {
            Some(state) => {
                let mut state = state;
                state.set_content_at(content, at);
                storage.put_record(self.id.value, state);
                Ok(())
            },
            None => Err(DocumentError::NotFound),
        };
        assert(storage@.records =~= old(storage)@.with_commit(
            self.id.value,
            content@,
            at,
        ).records);
        r
    }

    /// Commits `content` to the document at this moment. Whatever the clock
    /// reads, `storage` is the old one with `content` committed at the
    /// instant that the document now carries as its last change.
    pub fn set_content(&self, storage: &mut DocumentStorage, content: &str) -> (r: Result<
        (),
        DocumentError,
    >)
        ensures
            final(storage)@ == old(storage)@.with_commit(
                self.id.value,
                content@,
                final(storage)@.last_change(self.id.value),
            ),
            answered(old(storage)@, self.id.value, r),
    {
        self.set_content_at(storage, content, now())
    }

    /// The current content of the document.
    pub fn content(&self, storage: &DocumentStorage) -> (r: Result<String, DocumentError>)
        ensures
            match r {
                Ok(text) => storage@.records.contains_key(self.id.value) && text@
                    == storage@.records[self.id.value].content,
                Err(e) => !storage@.records.contains_key(self.id.value) && e is NotFound,
            },
    {
        match storage.record(self.id.value) {
            Some(state) => Ok(state.content()),
            None => Err(DocumentError::NotFound),
        }
    }

    /// The current name of the document.
    pub fn name(&self, storage: &DocumentStorage) -> (r: Result<String, DocumentError>)
        ensures
            match r {
                Ok(text) => storage@.records.contains_key(self.id.value) && text@
                    == storage@.records[self.id.value].name,
                Err(e) => !storage@.records.contains_key(self.id.value) && e is NotFound,
            },
    {
        match storage.record(self.id.value) {
            Some(state) => Ok(state.name()),
            None => Err(DocumentError::NotFound),
        }
    }

    /// Every content the document has held, oldest first.
    pub fn history(&self, storage: &DocumentStorage) -> (r: Result<Vec<String>, DocumentError>)
        ensures
            match r {
                Ok(entries) => storage@.records.contains_key(self.id.value) && entries.deep_view()
                    == storage@.records[self.id.value].history,
                Err(e) => !storage@.records.contains_key(self.id.value) && e is NotFound,
            },
    {
        match storage.record(self.id.value) {
            Some(state) => Ok(state.history()),
            None => Err(DocumentError::NotFound),
        }
    }

    /// Renames the document, for every handle of it. Content, history and
    /// both instants stay.
    pub fn set_name(&self, storage: &mut DocumentStorage, new_name: &str) -> (r: Result<
        (),
        DocumentError,
    >)
        ensures
            final(storage)@ == old(storage)@.with_rename(self.id.value, new_name@),
            answered(old(storage)@, self.id.value, r),
    {
        let r = match storage.take_record(self.id.value) {
            Some(state) => {
                let mut state = state;
                state.set_name(new_name);
                storage.put_record(self.id.value, state);
                Ok(())
            },
            None => Err(DocumentError::NotFound),
        };
        assert(storage@.records =~= old(storage)@.with_rename(self.id.value, new_name@).records);
        r
    }
}

/// Every copy of a handle, and every handle that carries the same
/// identifier, reaches the same state: what is committed or renamed through
/// one is what the other then reads, and it makes no difference through which
/// of them it was done.
pub proof fn lemma_handles_share_state(
    storage: StorageView,
    a: Document,
    b: Document,
    content: Seq<char>,
    name: Seq<char>,
    at: Timestamp,
)
    requires
        a.id == b.id,
        storage.records.contains_key(a.id.value),
    ensures
        a == b,
        storage.with_commit(a.id.value, content, at).records[b.id.value].content == content,
        storage.with_commit(a.id.value, content, at).records[b.id.value].history
            == storage.records[b.id.value].history.push(content),
        storage.with_rename(a.id.value, name).records[b.id.value].name == name,
        storage.with_commit(a.id.value, content, at) == storage.with_commit(
            b.id.value,
            content,
            at,
        ),
        storage.with_rename(a.id.value, name) == storage.with_rename(b.id.value, name),
{
}

/// Commits made through copies of one handle all reach the one document:
/// after them its state is the old state with every content committed in
/// turn, and nothing else in the registry has changed.
pub proof fn lemma_commits_through_clones(
    storage: StorageView,
    doc: Document,
    handles: Seq<Document>,
    contents: Seq<Seq<char>>,
    instants: Seq<Timestamp>,
)
    requires
        storage.records.contains_key(doc.id.value),
        handles.len() == contents.len(),
        handles.len() == instants.len(),
        forall|i: int| 0 <= i < handles.len() ==> handles[i] == doc,
    ensures
        storage.with_commits(handles, contents, instants).registry == storage.registry,
        storage.with_commits(handles, contents, instants).records == storage.records.insert(
            doc.id.value,
            storage.records[doc.id.value].after_commits(contents, instants),
        ),
    decreases handles.len(),
{
    if handles.len() > 0 {
        lemma_commits_through_clones(
            storage,
            doc,
            handles.drop_last(),
            contents.drop_last(),
            instants.drop_last(),
        );
    }
    assert(storage.with_commits(handles, contents, instants).records
        =~= storage.records.insert(
        doc.id.value,
        storage.records[doc.id.value].after_commits(contents, instants),
    ));
}

/// Commits that were issued together through copies of one handle are all
/// recorded, in whatever order they came to be made: if `order` is such an
/// order of `payloads`, the history of the document has grown by exactly the
/// payloads, each as often as it was issued, the older entries are as before,
/// and the current content is one of the payloads, the last entry of the
/// history.
pub proof fn lemma_commits_through_clones_in_any_order(
    storage: StorageView,
    doc: Document,
    handles: Seq<Document>,
    payloads: Seq<Seq<char>>,
    order: Seq<Seq<char>>,
    instants: Seq<Timestamp>,
)
    requires
        storage.records.contains_key(doc.id.value),
        storage.records[doc.id.value].wf(),
        handles.len() == order.len(),
        handles.len() == instants.len(),
        forall|i: int| 0 <= i < handles.len() ==> handles[i] == doc,
        order.to_multiset() == payloads.to_multiset(),
    ensures
        ({
            let before = storage.records[doc.id.value].history;
            let after = storage.with_commits(handles, order, instants).records[doc.id.value];
            &&& after.history.len() == before.len() + payloads.len()
            &&& after.history.subrange(0, before.len() as int) == before
            &&& after.history.subrange(
                before.len() as int,
                (before.len() + payloads.len()) as int,
            ).to_multiset() == payloads.to_multiset()
            &&& after.history.last() == after.content
            &&& payloads.len() > 0 ==> payloads.contains(after.content)
        }),
{
    lemma_commits_through_clones(storage, doc, handles, order, instants);
    lemma_commits_in_any_order(storage.records[doc.id.value], payloads, order, instants);
    lemma_commits_extend_history(storage.records[doc.id.value], order, instants);
}

} // verus!
