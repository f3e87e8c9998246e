//! The requests that the registry serves: create, retrieve, update.
//!
//! Each request names its document by identifier text, is resolved to a
//! handle by lookup and carried out through that handle.

use vstd::prelude::*;
use crate::document::{handle_of, Document, DocumentError};
use crate::identifier::{canonical_text, is_random_identifier, parsed_identifier, DocumentId};
use crate::record::DocumentView;
use crate::storage::{add_doc, find_doc, resolve, DocumentStorage, ServerError, StorageView};
use crate::timestamp::Timestamp;

verus! {

/// The name and the content of a document, as a request is answered.
pub type Reply = Result<(String, String), ServerError>;

/// The texts of a reply.
pub open spec fn reply_view(r: Reply) -> Result<(Seq<char>, Seq<char>), ServerError> {
    match r {
        Ok((name, content)) => Ok((name@, content@)),
        Err(e) => Err(e),
    }
}

/// The text of an optional field of a request.
pub open spec fn field_view(field: Option<&str>) -> Option<Seq<char>> {
    match field {
        Some(text) => Some(text@),
        None => None,
    }
}

/// The name of a document created without one.
pub open spec fn default_name() -> Seq<char> {
    "Untitled"@
}

/// The name a new document gets: the one asked for, or the placeholder.
pub open spec fn name_or_default(name: Option<Seq<char>>) -> Seq<char> {
    match name {
        Some(text) => text,
        None => default_name(),
    }
}

/// The content a new document gets: the one asked for, or the empty text.
pub open spec fn content_or_empty(content: Option<Seq<char>>) -> Seq<char> {
    match content {
        Some(text) => text,
        None => Seq::empty(),
    }
}

/// How a request reports the failure of an operation on a document.
pub open spec fn reported(e: DocumentError) -> ServerError {
    match e {
        DocumentError::LockError(_) => ServerError::LockError,
        DocumentError::NotFound => ServerError::NotFound,
    }
}

/// The answer to a retrieval of `text`: the name and content of the document
/// whose handle it resolves to, or why there is none. A handle whose
/// document was not created in this registry counts as not found.
pub open spec fn retrieved(storage: StorageView, text: Seq<char>) -> Result<
    (Seq<char>, Seq<char>),
    ServerError,
> {
    match resolve(storage, text) {
        Ok(doc) => if storage.records.contains_key(doc.id.value) {
            Ok((storage.records[doc.id.value].name, storage.records[doc.id.value].content))
        } else {
            Err(ServerError::NotFound)
        },
        Err(e) => Err(e),
    }
}

/// A document after the content of an update, where one is given, was
/// committed at instant `at`.
pub open spec fn committed(doc: DocumentView, content: Option<Seq<char>>, at: Timestamp) -> DocumentView {
    match content {
        Some(text) => doc.with_content(text, at),
        None => doc,
    }
}

/// A document after the name of an update, where one is given, replaced its
/// name.
pub open spec fn renamed(doc: DocumentView, name: Option<Seq<char>>) -> DocumentView {
    match name {
        Some(text) => doc.with_name(text),
        None => doc,
    }
}

/// A document after an update at instant `at`: the content, where one is
/// given, is committed first; then the name, where one is given, is replaced.
pub open spec fn edited(
    doc: DocumentView,
    content: Option<Seq<char>>,
    name: Option<Seq<char>>,
    at: Timestamp,
) -> DocumentView {
    renamed(committed(doc, content, at), name)
}

/// The registry after an update of the document that `text` resolves to;
/// unchanged where it resolves to none.
pub open spec fn after_edit(
    storage: StorageView,
    text: Seq<char>,
    content: Option<Seq<char>>,
    name: Option<Seq<char>>,
    at: Timestamp,
) -> StorageView {
    match resolve(storage, text) {
        Ok(doc) => if storage.records.contains_key(doc.id.value) {
            storage.with_record(
                doc.id.value,
                edited(storage.records[doc.id.value], content, name, at),
            )
        } else {
            storage
        },
        Err(_) => storage,
    }
}

/// The registry after a document was created under `id` and its handle was
/// filed.
pub open spec fn after_create(
    storage: StorageView,
    id: u128,
    name: Option<Seq<char>>,
    content: Option<Seq<char>>,
    at: Timestamp,
) -> StorageView {
    storage.with_record(
        id,
        DocumentView::created(id, name_or_default(name), content_or_empty(content), at),
    ).with_entry(id, handle_of(id))
}

/// The instant of last change of the document that `text` resolves to.
pub open spec fn last_change(storage: StorageView, text: Seq<char>) -> Timestamp {
    match resolve(storage, text) {
        Ok(doc) => storage.last_change(doc.id.value),
        Err(_) => Timestamp { secs: 0, nanos: 0 },
    }
}

/// Turns the failure of an operation on a document into the error that the
/// request reports.
fn report(e: DocumentError) -> (r: ServerError)
    ensures
        r == reported(e),
{
    match e {
        DocumentError::LockError(_) => ServerError::LockError,
        DocumentError::NotFound => ServerError::NotFound,
    }
}

/// Reads the answer to a request off the document behind `doc`.
fn reply_of(storage: &DocumentStorage, doc: Document) -> (r: Reply)
    ensures
        reply_view(r) == if storage@.records.contains_key(doc.id.value) {
            Ok::<(Seq<char>, Seq<char>), ServerError>(
                (storage@.records[doc.id.value].name, storage@.records[doc.id.value].content),
            )
        } else {
            Err::<(Seq<char>, Seq<char>), ServerError>(ServerError::NotFound)
        },
{
    let content = match doc.content(storage) {
        Ok(text) => text,
        Err(e) => { return Err(report(e)); },
    };
    let name = match doc.name(storage) {
        Ok(text) => text,
        Err(e) => { return Err(report(e)); },
    };
    Ok((name, content))
}

/// Retrieves the name and the content of the document that `uuid_str` names.
pub fn get_doc(storage: &DocumentStorage, uuid_str: &str) -> (r: Reply)
    ensures
        reply_view(r) == retrieved(storage@, uuid_str@),
{
    match find_doc(storage, uuid_str) {
        Ok(doc) => reply_of(storage, doc),
        Err(e) => Err(e),
    }
}

/// The name and content that a request to create a document stands for.
fn fields_or_defaults<'a>(name: Option<&'a str>, content: Option<&'a str>) -> (r: (&'a str, &'a str))
    ensures
        r.0@ == name_or_default(field_view(name)),
        r.1@ == content_or_empty(field_view(content)),
{
    let content = match content {
        Some(text) => text,
        None => "",
    };
    let name = match name {
        Some(text) => text,
        None => "Untitled",
    };
    proof {
        reveal_strlit("");
        assert(""@ =~= Seq::<char>::empty());
    }
    (name, content)
}

/// Files the handle of a new document and answers with its identifier in
/// canonical text.
fn file_created(storage: &mut DocumentStorage, doc: Document) -> (r: Result<String, ServerError>)
    ensures
        final(storage)@ == old(storage)@.with_entry(doc.id.value, doc),
        r matches Ok(text) && text@ == canonical_text(doc.id.value) && text@.len() == 36
            && resolve(final(storage)@, text@) == Ok::<Document, ServerError>(doc),
{
    match add_doc(storage, doc) {
        Ok(_) => Ok(doc.id().to_text()),
        Err(e) => Err(e),
    }
}

/// Creates a document under identifier `id` at instant `at` and adds it to
/// the registry. A name left out is "Untitled", a content left out is empty.
/// The answer is the identifier in its canonical text of 36 characters,
/// which resolves to the handle of the new document.
pub fn create_doc_with(
    storage: &mut DocumentStorage,
    id: DocumentId,
    at: Timestamp,
    name: Option<&str>,
    content: Option<&str>,
) -> (r: Result<String, ServerError>)
    ensures
        final(storage)@ == after_create(
            old(storage)@,
            id.value,
            field_view(name),
            field_view(content),
            at,
        ),
        r matches Ok(text) && text@ == canonical_text(id.value) && text@.len() == 36 && resolve(
            final(storage)@,
            text@,
        ) == Ok::<Document, ServerError>(handle_of(id.value)),
        old(storage)@.consistent() ==> final(storage)@.consistent(),
{
    let (name, content) = fields_or_defaults(name, content);
    let doc = Document::with_origin(storage, id, at, name, content);
    file_created(storage, doc)
}

/// Creates a document under a fresh random identifier, at this moment, and
/// adds it to the registry. Whatever identifier is drawn and whatever the
/// clock reads, the answer is the canonical text of the identifier, it
/// resolves to the handle of the new document, and the new document is the
/// only change to the registry.
pub fn create_doc(storage: &mut DocumentStorage, name: Option<&str>, content: Option<&str>) -> (r:
    Result<String, ServerError>)
    ensures
        r matches Ok(text) && resolve(final(storage)@, text@) matches Ok(doc) && {
            &&& text@ == canonical_text(doc.id.value)
            &&& text@.len() == 36
            &&& is_random_identifier(doc.id.value)
            &&& final(storage)@.records.contains_key(doc.id.value)
            &&& final(storage)@ == after_create(
                old(storage)@,
                doc.id.value,
                field_view(name),
                field_view(content),
                final(storage)@.records[doc.id.value].creation_date,
            )
        },
        old(storage)@.consistent() ==> final(storage)@.consistent(),
{
    let (name, content) = fields_or_defaults(name, content);
    let doc = Document::new(storage, name, content);
    file_created(storage, doc)
}

/// The registry after the name of an update, where one is given, replaced
/// the name of document `id`.
pub open spec fn after_rename(storage: StorageView, id: u128, name: Option<Seq<char>>) -> StorageView {
    match name {
        Some(text) => storage.with_rename(id, text),
        None => storage,
    }
}

/// Ends an update through `doc`: replaces the name where one is given and
/// reads the answer off the document.
fn finish_edit(storage: &mut DocumentStorage, doc: Document, name: Option<&str>) -> (r: Reply)
    ensures
        final(storage)@ == after_rename(old(storage)@, doc.id.value, field_view(name)),
        reply_view(r) == if final(storage)@.records.contains_key(doc.id.value) {
            Ok::<(Seq<char>, Seq<char>), ServerError>(
                (
                    final(storage)@.records[doc.id.value].name,
                    final(storage)@.records[doc.id.value].content,
                ),
            )
        } else {
            Err::<(Seq<char>, Seq<char>), ServerError>(ServerError::NotFound)
        },
{
    if let Some(text) = name {
        match doc.set_name(storage, text) {
            Ok(_) => {},
            Err(e) => { return Err(report(e)); },
        }
    }
    reply_of(storage, doc)
}

/// Updates the document that `uuid_str` names, at instant `at`: commits
/// `content` where one is given, then replaces the name where one is given.
/// The answer is what a retrieval then finds.
pub fn edit_doc_at(
    storage: &mut DocumentStorage,
    uuid_str: &str,
    content: Option<&str>,
    name: Option<&str>,
    at: Timestamp,
) -> (r: Reply)
    ensures
        final(storage)@ == after_edit(
            old(storage)@,
            uuid_str@,
            field_view(content),
            field_view(name),
            at,
        ),
        reply_view(r) == retrieved(final(storage)@, uuid_str@),
        old(storage)@.consistent() ==> final(storage)@.consistent(),
{
    let doc = match find_doc(storage, uuid_str) {
        Ok(doc) => doc,
        Err(e) => { return Err(e); },
    };
    if let Some(text) = content {
        match doc.set_content_at(storage, text, at) {
            Ok(_) => {},
            Err(e) => { return Err(report(e)); },
        }
    }
    let r = finish_edit(storage, doc, name);
    assert(storage@.records =~= after_edit(
        old(storage)@,
        uuid_str@,
        field_view(content),
        field_view(name),
        at,
    ).records);
    r
}

/// Updates the document that `uuid_str` names, at this moment. Whatever the
/// clock reads, the registry is the old one updated at the instant that the
/// document now carries as its last change.
pub fn edit_doc(
    storage: &mut DocumentStorage,
    uuid_str: &str,
    content: Option<&str>,
    name: Option<&str>,
) -> (r: Reply)
    ensures
        final(storage)@ == after_edit(
            old(storage)@,
            uuid_str@,
            field_view(content),
            field_view(name),
            last_change(final(storage)@, uuid_str@),
        ),
        reply_view(r) == retrieved(final(storage)@, uuid_str@),
        old(storage)@.consistent() ==> final(storage)@.consistent(),
{
    let doc = match find_doc(storage, uuid_str) {
        Ok(doc) => doc,
        Err(e) => { return Err(e); },
    };
    if let Some(text) = content {
        match doc.set_content(storage, text) {
            Ok(_) => {},
            Err(e) => { return Err(report(e)); },
        }
    }
    let r = finish_edit(storage, doc, name);
    assert(storage@.records =~= after_edit(
        old(storage)@,
        uuid_str@,
        field_view(content),
        field_view(name),
        last_change(storage@, uuid_str@),
    ).records);
    r
}

/// Once a handle is filed, a lookup of any text of its identifier gives that
/// very handle, not a copy of the document.
pub proof fn lemma_lookup_gives_the_filed_handle(
    storage: StorageView,
    doc: Document,
    text: Seq<char>,
)
    requires
        parsed_identifier(text) == Some(doc.id.value),
    ensures
        resolve(storage.with_entry(doc.id.value, doc), text) == Ok::<Document, ServerError>(doc),
        storage.with_entry(doc.id.value, doc).records == storage.records,
{
}

/// A commit made through one text of an identifier is what a retrieval
/// through any other text of it finds, the history has grown by that
/// content, and it makes no difference through which of the two the commit
/// was made.
pub proof fn lemma_edit_seen_through_every_handle(
    storage: StorageView,
    key: u128,
    a: Seq<char>,
    b: Seq<char>,
    content: Seq<char>,
    at: Timestamp,
)
    requires
        storage.registry.contains_key(key),
        storage.records.contains_key(storage.registry[key].id.value),
        parsed_identifier(a) == Some(key),
        parsed_identifier(b) == Some(key),
    ensures
        retrieved(after_edit(storage, a, Some(content), None, at), b) == Ok::<
            (Seq<char>, Seq<char>),
            ServerError,
        >((storage.records[storage.registry[key].id.value].name, content)),
        after_edit(storage, a, Some(content), None, at).records[storage.registry[key].id.value].history
            == storage.records[storage.registry[key].id.value].history.push(content),
        after_edit(storage, a, Some(content), None, at) == after_edit(
            storage,
            b,
            Some(content),
            None,
            at,
        ),
{
}

/// An update touches one document only: the same handles are live after it,
/// the same documents exist, and every other document is as it was.
pub proof fn lemma_edit_leaves_other_documents(
    storage: StorageView,
    text: Seq<char>,
    content: Option<Seq<char>>,
    name: Option<Seq<char>>,
    at: Timestamp,
)
    ensures
        after_edit(storage, text, content, name, at).registry == storage.registry,
        after_edit(storage, text, content, name, at).records.dom() == storage.records.dom(),
        forall|other: u128|
            storage.records.contains_key(other) && !(resolve(storage, text) matches Ok(doc)
                && doc.id.value == other) ==> #[trigger] after_edit(
                storage,
                text,
                content,
                name,
                at,
            ).records[other] == storage.records[other],
{
    assert(after_edit(storage, text, content, name, at).records.dom() =~= storage.records.dom());
}

/// Updates keep the registry consistent.
pub proof fn lemma_edit_keeps_consistency(
    storage: StorageView,
    text: Seq<char>,
    content: Option<Seq<char>>,
    name: Option<Seq<char>>,
    at: Timestamp,
)
    requires
        storage.consistent(),
    ensures
        after_edit(storage, text, content, name, at).consistent(),
{
}

/// Creating a document keeps the registry consistent, and a retrieval
/// through any text of its identifier finds what it was created with.
pub proof fn lemma_created_document_is_found(
    storage: StorageView,
    id: u128,
    name: Option<Seq<char>>,
    content: Option<Seq<char>>,
    at: Timestamp,
    text: Seq<char>,
)
    requires
        parsed_identifier(text) == Some(id),
    ensures
        storage.consistent() ==> after_create(storage, id, name, content, at).consistent(),
        resolve(after_create(storage, id, name, content, at), text) == Ok::<Document, ServerError>(
            handle_of(id),
        ),
        retrieved(after_create(storage, id, name, content, at), text) == Ok::<
            (Seq<char>, Seq<char>),
            ServerError,
        >((name_or_default(name), content_or_empty(content))),
{
}

} // verus!
