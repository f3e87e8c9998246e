//! The registry of live documents, and the table of states behind their
//! handles.

use std::collections::HashMap;
use vstd::prelude::*;
use crate::document::Document;
use crate::identifier::{parse_id, parsed_identifier, DocumentId};
use crate::record::{DocumentRecord, DocumentView};
use crate::timestamp::Timestamp;

verus! {

/// Why a request to the registry could not be served.
#[derive(Clone, Copy, Debug, PartialEq, Eq, Structural)]
pub enum ServerError {
    /// The text given as an identifier is none.
    InvalidUuid,
    /// The guard of the registry could not be acquired.
    LockError,
    /// No live document carries the identifier.
    NotFound,
}

impl ServerError {
    /// The error in words.
    pub open spec fn spec_message(&self) -> Seq<char> {
        match self {
            ServerError::InvalidUuid => "Invalid UUID"@,
            ServerError::LockError => "Couldn't lock documents"@,
            ServerError::NotFound => "Not found"@,
        }
    }

    /// The error in words.
    pub fn message(&self) -> (text: String)
        ensures
            text@ == self.spec_message(),
    {
        match self {
            ServerError::InvalidUuid => "Invalid UUID".to_owned(),
            ServerError::LockError => "Couldn't lock documents".to_owned(),
            ServerError::NotFound => "Not found".to_owned(),
        }
    }
}

/// The mathematical value of a registry.
pub struct StorageView {
    /// The live documents: the handle filed under each key.
    pub registry: Map<u128, Document>,
    /// The state of every document created here, by its identifier. All
    /// handles of one identifier share the one state.
    pub records: Map<u128, DocumentView>,
}

impl StorageView {
    /// The same registry with `state` as the state of document `id`.
    pub open spec fn with_record(self, id: u128, state: DocumentView) -> Self {
        StorageView { records: self.records.insert(id, state), ..self }
    }

    /// The same states with `handle` filed under `key`.
    pub open spec fn with_entry(self, key: u128, handle: Document) -> Self {
        StorageView { registry: self.registry.insert(key, handle), ..self }
    }

    /// After `content` was committed to document `id` at instant `at`;
    /// unchanged where no such document was created here.
    pub open spec fn with_commit(self, id: u128, content: Seq<char>, at: Timestamp) -> Self {
        if self.records.contains_key(id) {
            self.with_record(id, self.records[id].with_content(content, at))
        } else {
            self
        }
    }

    /// After document `id` was renamed; unchanged where no such document was
    /// created here.
    pub open spec fn with_rename(self, id: u128, name: Seq<char>) -> Self {
        if self.records.contains_key(id) {
            self.with_record(id, self.records[id].with_name(name))
        } else {
            self
        }
    }

    /// After the handles of `handles` committed, in turn, each the content
    /// and at the instant that stand at its place in `contents` and
    /// `instants`.
    pub open spec fn with_commits(
        self,
        handles: Seq<Document>,
        contents: Seq<Seq<char>>,
        instants: Seq<Timestamp>,
    ) -> Self
        recommends
            handles.len() == contents.len(),
            handles.len() == instants.len(),
        decreases handles.len(),
    {
        if handles.len() == 0 {
            self
        } else {
            self.with_commits(
                handles.drop_last(),
                contents.drop_last(),
                instants.drop_last(),
            ).with_commit(handles.last().id.value, contents.last(), instants.last())
        }
    }

    /// The instant of last change of document `id`.
    pub open spec fn last_change(self, id: u128) -> Timestamp {
        self.records[id].last_modified
    }

    /// Every live handle is filed under its own identifier and has a state;
    /// every state is kept under its own identifier and is well formed.
    pub open spec fn consistent(self) -> bool {
        &&& forall|k: u128| #[trigger]
            self.registry.contains_key(k) ==> self.registry[k].id.value == k
                && self.records.contains_key(k)
        &&& forall|k: u128| #[trigger]
            self.records.contains_key(k) ==> self.records[k].id == k && self.records[k].wf()
    }
}

/// The value of each state of a table of states.
pub open spec fn records_of(records: Map<u128, DocumentRecord>) -> Map<u128, DocumentView> {
    records.map_values(|r: DocumentRecord| r@)
}

/// The handle that an identifier text resolves to in the registry.
pub open spec fn resolve(storage: StorageView, text: Seq<char>) -> Result<Document, ServerError> {
    match parsed_identifier(text) {
        None => Err(ServerError::InvalidUuid),
        Some(key) => if storage.registry.contains_key(key) {
            Ok(storage.registry[key])
        } else {
            Err(ServerError::NotFound)
        },
    }
}

/// The registry: the handles of the live documents, each under its
/// identifier, and the state that all handles of a document share.
pub struct DocumentStorage {
    docs: HashMap<u128, Document>,
    records: HashMap<u128, DocumentRecord>,
}

impl View for DocumentStorage {
    type V = StorageView;

    closed spec fn view(&self) -> StorageView {
        StorageView { registry: self.docs@, records: records_of(self.records@) }
    }
}

impl DocumentStorage {
    /// An empty registry in which no document was created yet.
    pub fn new() -> (r: Self)
        ensures
            r@.registry == Map::<u128, Document>::empty(),
            r@.records == Map::<u128, DocumentView>::empty(),
    {
        DocumentStorage { docs: HashMap::new(), records: HashMap::new() }
    }

    /// A registry of the handles of `docs`, each under the key it has there,
    /// in which no document was created yet.
    pub fn from(docs: HashMap<u128, Document>) -> (r: Self)
        ensures
            r@.registry == docs@,
            r@.records == Map::<u128, DocumentView>::empty(),
    {
        DocumentStorage { docs, records: HashMap::new() }
    }

    /// The table of live handles; it is always there. Its handles are those
    /// of the registry: what is done through them is done to the documents
    /// of the registry.
    pub fn read_docs(&self) -> (r: Option<HashMap<u128, Document>>)
        ensures
            r matches Some(docs) && docs@ == self@.registry,
    {
        Some(self.docs.clone())
    }

    /// The table of live handles itself, open to any change. The states of
    /// the documents are out of its reach.
    pub fn mut_docs(&mut self) -> (docs: &mut HashMap<u128, Document>)
        ensures
            docs@ == old(self)@.registry,
            final(self)@.registry == final(docs)@,
            final(self)@.records == old(self)@.records,
    {
        &mut self.docs
    }

    /// The live handle filed under an identifier.
    pub fn get(&self, id: DocumentId) -> (r: Option<Document>)
        ensures
            r == if self@.registry.contains_key(id.value) {
                Some(self@.registry[id.value])
            } else {
                None
            },
    {
        broadcast use vstd::std_specs::hash::group_hash_axioms;
        match self.docs.get(&id.value) {
            Some(handle) => Some(*handle),
            None => None,
        }
    }

    /// Files `document` under its identifier. A handle that was filed there
    /// before is displaced and handed back, so that the caller can tell. The
    /// states of the documents are as before.
    pub fn insert(&mut self, document: Document) -> (displaced: Option<Document>)
        ensures
            final(self)@ == old(self)@.with_entry(document.id.value, document),
            displaced == if old(self)@.registry.contains_key(document.id.value) {
                Some(old(self)@.registry[document.id.value])
            } else {
                None
            },
    {
        broadcast use vstd::std_specs::hash::group_hash_axioms;
        self.docs.insert(document.id.value, document)
    }

    /// The state of document `id`, where one was created here.
    pub(crate) fn record(&self, id: u128) -> (r: Option<&DocumentRecord>)
        ensures
            match r {
                Some(state) => self@.records.contains_key(id) && state@ == self@.records[id],
                None => !self@.records.contains_key(id),
            },
    {
        broadcast use vstd::std_specs::hash::group_hash_axioms;
        self.records.get(&id)
    }

    /// Takes the state of document `id` out of the table.
    pub(crate) fn take_record(&mut self, id: u128) -> (r: Option<DocumentRecord>)
        ensures
            final(self)@.registry == old(self)@.registry,
            final(self)@.records == old(self)@.records.remove(id),
            match r {
                Some(state) => old(self)@.records.contains_key(id) && state@ == old(
                    self,
                )@.records[id],
                None => !old(self)@.records.contains_key(id),
            },
    {
        broadcast use vstd::std_specs::hash::group_hash_axioms;
        self.records.remove(&id)
    }

    /// Keeps `state` as the state of document `id`.
    pub(crate) fn put_record(&mut self, id: u128, state: DocumentRecord)
        ensures
            final(self)@.registry == old(self)@.registry,
            final(self)@.records == old(self)@.records.insert(id, state@),
    {
        broadcast use vstd::std_specs::hash::group_hash_axioms;
        let _ = self.records.insert(id, state);
    }
}

/// Resolves an identifier text to the handle of a live document.
///
/// A text that is no identifier gives `InvalidUuid`; an identifier under
/// which no handle is filed gives `NotFound`.
pub fn find_doc(storage: &DocumentStorage, uuid_str: &str) -> (r: Result<Document, ServerError>)
    ensures
        r == resolve(storage@, uuid_str@),
{
    match parse_id(uuid_str) {
        None => Err(ServerError::InvalidUuid),
        Some(id) => match storage.get(id) {
            Some(handle) => Ok(handle),
            None => Err(ServerError::NotFound),
        },
    }
}

/// Adds `document` to the registry under its identifier; it always succeeds.
/// From then on the identifier resolves to this handle.
pub fn add_doc(storage: &mut DocumentStorage, document: Document) -> (r: Result<(), ServerError>)
    ensures
        r is Ok,
        final(storage)@ == old(storage)@.with_entry(document.id.value, document),
{
    let _ = storage.insert(document);
    Ok(())
}

} // verus!
