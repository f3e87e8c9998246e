//! The state of one document, and what creating, committing and renaming do
//! to it.

use vstd::prelude::*;
use crate::document::DocumentError;
use crate::identifier::DocumentId;
use crate::timestamp::{now, Timestamp};

verus! {

/// The mathematical value of a document.
pub struct DocumentView {
    pub id: u128,
    pub name: Seq<char>,
    pub content: Seq<char>,
    /// Every content the document has held, oldest first.
    pub history: Seq<Seq<char>>,
    pub creation_date: Timestamp,
    pub last_modified: Timestamp,
}

impl DocumentView {
    /// The document as it stands right after its creation at instant `at`.
    pub open spec fn created(id: u128, name: Seq<char>, content: Seq<char>, at: Timestamp) -> Self {
        DocumentView {
            id,
            name,
            content,
            history: seq![content],
            creation_date: at,
            last_modified: at,
        }
    }

    /// The document after `content` was committed to it at instant `at`.
    pub open spec fn with_content(self, content: Seq<char>, at: Timestamp) -> Self {
        DocumentView {
            content,
            history: self.history.push(content),
            last_modified: at,
            ..self
        }
    }

    /// The document after it was renamed to `name`.
    pub open spec fn with_name(self, name: Seq<char>) -> Self {
        DocumentView { name, ..self }
    }

    /// The history is not empty and ends with the current content.
    pub open spec fn wf(self) -> bool {
        self.history.len() >= 1 && self.history.last() == self.content
    }

    /// The last change did not come before the creation.
    pub open spec fn dated(self) -> bool {
        self.last_modified.not_before(self.creation_date)
    }

    /// The document after each of `contents` was committed in turn, the i-th
    /// at the i-th of `instants`.
    pub open spec fn after_commits(self, contents: Seq<Seq<char>>, instants: Seq<Timestamp>) -> Self
        recommends
            contents.len() == instants.len(),
        decreases contents.len(),
    {
        if contents.len() == 0 {
            self
        } else {
            self.after_commits(contents.drop_last(), instants.drop_last()).with_content(
                contents.last(),
                instants.last(),
            )
        }
    }
}

/// A new document holds what it was created with: its history is its content
/// alone, and it was last changed when it was created.
pub proof fn lemma_created_document(
    id: u128,
    name: Seq<char>,
    content: Seq<char>,
    at: Timestamp,
)
    ensures
        DocumentView::created(id, name, content, at).history == seq![content],
        DocumentView::created(id, name, content, at).history.len() == 1,
        DocumentView::created(id, name, content, at).name == name,
        DocumentView::created(id, name, content, at).content == content,
        DocumentView::created(id, name, content, at).id == id,
        DocumentView::created(id, name, content, at).creation_date == DocumentView::created(
            id,
            name,
            content,
            at,
        ).last_modified,
        DocumentView::created(id, name, content, at).wf(),
        DocumentView::created(id, name, content, at).dated(),
{
}

/// A commit appends exactly one entry to the history, the new content, and
/// touches neither the older entries nor identifier, name or creation date.
/// What it leaves is well formed, whatever it started from.
pub proof fn lemma_commit_appends(doc: DocumentView, content: Seq<char>, at: Timestamp)
    ensures
        doc.with_content(content, at).history.len() == doc.history.len() + 1,
        doc.with_content(content, at).history.last() == content,
        doc.with_content(content, at).content == content,
        forall|i: int|
            0 <= i < doc.history.len() ==> doc.with_content(content, at).history[i]
                == doc.history[i],
        doc.with_content(content, at).id == doc.id,
        doc.with_content(content, at).name == doc.name,
        doc.with_content(content, at).creation_date == doc.creation_date,
        doc.with_content(content, at).last_modified == at,
        doc.with_content(content, at).wf(),
{
}

/// Commits never get lost: after any number of them the history is the old
/// history followed by every committed content in the order of the commits,
/// the current content is the one committed last, and identifier, name and
/// creation date are as before.
pub proof fn lemma_commits_extend_history(
    doc: DocumentView,
    contents: Seq<Seq<char>>,
    instants: Seq<Timestamp>,
)
    requires
        contents.len() == instants.len(),
    ensures
        doc.after_commits(contents, instants).history == doc.history + contents,
        doc.after_commits(contents, instants).history.len() == doc.history.len() + contents.len(),
        contents.len() > 0 ==> doc.after_commits(contents, instants).content == contents.last(),
        contents.len() > 0 ==> doc.after_commits(contents, instants).last_modified
            == instants.last(),
        contents.len() == 0 ==> doc.after_commits(contents, instants) == doc,
        doc.wf() ==> doc.after_commits(contents, instants).wf(),
        doc.after_commits(contents, instants).id == doc.id,
        doc.after_commits(contents, instants).name == doc.name,
        doc.after_commits(contents, instants).creation_date == doc.creation_date,
    decreases contents.len(),
{
    if contents.len() > 0 {
        lemma_commits_extend_history(doc, contents.drop_last(), instants.drop_last());
        assert(doc.after_commits(contents, instants).history =~= doc.history + contents);
    }
}

/// Commits that were issued together are all recorded, in whatever order
/// they came to be made: if `order` is such an order of `payloads`, the
/// history has grown by exactly the payloads, each as often as it was issued,
/// the older entries are as before, and the current content is one of the
/// payloads.
pub proof fn lemma_commits_in_any_order(
    doc: DocumentView,
    payloads: Seq<Seq<char>>,
    order: Seq<Seq<char>>,
    instants: Seq<Timestamp>,
)
    requires
        order.to_multiset() == payloads.to_multiset(),
        instants.len() == order.len(),
    ensures
        doc.after_commits(order, instants).history.len() == doc.history.len() + payloads.len(),
        doc.after_commits(order, instants).history.subrange(0, doc.history.len() as int)
            == doc.history,
        doc.after_commits(order, instants).history.subrange(
            doc.history.len() as int,
            (doc.history.len() + payloads.len()) as int,
        ).to_multiset() == payloads.to_multiset(),
        payloads.len() > 0 ==> payloads.contains(doc.after_commits(order, instants).content),
{
    lemma_commits_extend_history(doc, order, instants);
    order.to_multiset_ensures();
    payloads.to_multiset_ensures();
    assert(order.len() == order.to_multiset().len());
    assert(payloads.len() == payloads.to_multiset().len());
    let after = doc.after_commits(order, instants);
    assert(after.history.subrange(0, doc.history.len() as int) =~= doc.history);
    assert(after.history.subrange(
        doc.history.len() as int,
        (doc.history.len() + payloads.len()) as int,
    ) =~= order);
    if payloads.len() > 0 {
        let last = order.last();
        assert(order[order.len() - 1] == last);
        assert(order.to_multiset().count(last) > 0);
        assert(payloads.contains(last));
    }
}

/// After a document was created and then took any number of commits, its
/// history has one entry more than there were commits, and the last entry is
/// the current content.
pub proof fn lemma_history_counts_commits(
    id: u128,
    name: Seq<char>,
    content: Seq<char>,
    at: Timestamp,
    contents: Seq<Seq<char>>,
    instants: Seq<Timestamp>,
)
    requires
        contents.len() == instants.len(),
    ensures
        DocumentView::created(id, name, content, at).after_commits(
            contents,
            instants,
        ).history.len() == contents.len() + 1,
        DocumentView::created(id, name, content, at).after_commits(
            contents,
            instants,
        ).history.last() == DocumentView::created(id, name, content, at).after_commits(
            contents,
            instants,
        ).content,
        DocumentView::created(id, name, content, at).after_commits(contents, instants).history[0]
            == content,
{
    let fresh = DocumentView::created(id, name, content, at);
    lemma_commits_extend_history(fresh, contents, instants);
}

/// Renaming changes the name and nothing else: content, history and the
/// instant of last change are as before.
pub proof fn lemma_rename_keeps_content(doc: DocumentView, name: Seq<char>)
    ensures
        doc.with_name(name).name == name,
        doc.with_name(name).content == doc.content,
        doc.with_name(name).history == doc.history,
        doc.with_name(name).last_modified == doc.last_modified,
        doc.with_name(name).creation_date == doc.creation_date,
        doc.with_name(name).id == doc.id,
        doc.wf() ==> doc.with_name(name).wf(),
        doc.dated() ==> doc.with_name(name).dated(),
{
}

/// A commit at an instant after the last change moves the last change
/// forward, strictly. (A commit made while the clock stands still, or after it
/// was set back, records the instant it is given all the same.)
pub proof fn lemma_commit_advances_last_change(doc: DocumentView, content: Seq<char>, at: Timestamp)
    requires
        at.is_after(doc.last_modified),
    ensures
        doc.with_content(content, at).last_modified.is_after(doc.last_modified),
{
}

/// As long as the clock does not run backwards, the last change never comes
/// before the creation.
pub proof fn lemma_commit_keeps_dates_in_order(doc: DocumentView, content: Seq<char>, at: Timestamp)
    requires
        doc.dated(),
        at.not_before(doc.last_modified),
    ensures
        doc.with_content(content, at).dated(),
{
}

/// When a document was created and when its content last changed.
#[derive(Debug)]
pub struct DocumentMetadata {
    creation_date: Timestamp,
    last_modified: Timestamp,
}

impl DocumentMetadata {
    /// The instant of creation.
    pub closed spec fn spec_creation_date(&self) -> Timestamp {
        self.creation_date
    }

    /// The instant of the last change of content.
    pub closed spec fn spec_last_modified(&self) -> Timestamp {
        self.last_modified
    }

    /// The metadata of a document created at instant `at`.
    pub fn at(at: Timestamp) -> (r: Self)
        ensures
            r.spec_creation_date() == at,
            r.spec_last_modified() == at,
    {
        DocumentMetadata { creation_date: at, last_modified: at }
    }

    /// The metadata of a document created at this moment.
    pub(crate) fn new() -> (r: Self)
        ensures
            r.spec_creation_date() == r.spec_last_modified(),
    {
        DocumentMetadata::at(now())
    }

    /// The instant of creation.
    #[verifier::when_used_as_spec(spec_creation_date)]
    pub fn creation_date(&self) -> (r: Timestamp)
        ensures
            r == self.spec_creation_date(),
    {
        self.creation_date
    }

    /// The instant of the last change of content; it is always there.
    pub fn last_modified(&self) -> (r: Result<Timestamp, DocumentError>)
        ensures
            r matches Ok(t) && t == self.spec_last_modified(),
    {
        Ok(self.last_modified)
    }

    /// Records a change of content at instant `at`.
    pub(crate) fn update_last_modified(&mut self, at: Timestamp)
        ensures
            final(self).spec_creation_date() == old(self).spec_creation_date(),
            final(self).spec_last_modified() == at,
    {
        self.last_modified = at;
    }
}

impl Default for DocumentMetadata {
    /// The metadata of a document created at this moment.
    fn default() -> (r: Self)
        ensures
            r.spec_creation_date() == r.spec_last_modified(),
    {
        DocumentMetadata::new()
    }
}

/// The state behind every handle of one document. The registry owns it; no
/// copy of it is ever made.
pub struct DocumentRecord {
    id: DocumentId,
    name: String,
    content: String,
    history: Vec<String>,
    metadata: DocumentMetadata,
}

/// Commits `content` as one step: it becomes the current content and the last
/// entry of the history together.
fn commit(current: &mut String, history: &mut Vec<String>, content: &str)
    ensures
        final(current)@ == content@,
        final(history).deep_view() == old(history).deep_view().push(content@),
{
    history.push(content.to_owned());
    *current = content.to_owned();
}

/// A copy of `entries`, text by text.
fn copy_entries(entries: &Vec<String>) -> (copy: Vec<String>)
    ensures
        copy.deep_view() == entries.deep_view(),
{
    let mut copy: Vec<String> = Vec::new();
    let mut i: usize = 0;
    while i < entries.len()
        invariant
            i <= entries.len(),
            copy@.len() == i,
            forall|j: int| 0 <= j < i ==> copy@[j]@ == entries@[j]@,
        decreases entries.len() - i,
    {
        copy.push(entries[i].clone());
        i += 1;
    }
    copy
}

impl View for DocumentRecord {
    type V = DocumentView;

    closed spec fn view(&self) -> DocumentView {
        DocumentView {
            id: self.id.value,
            name: self.name@,
            content: self.content@,
            history: self.history.deep_view(),
            creation_date: self.metadata.spec_creation_date(),
            last_modified: self.metadata.spec_last_modified(),
        }
    }
}

impl DocumentRecord {
    /// The state that `name` and `content` create under identifier `id` at
    /// instant `at`.
    pub(crate) fn with_origin(id: DocumentId, at: Timestamp, name: &str, content: &str) -> (r: Self)
        ensures
            r@ == DocumentView::created(id.value, name@, content@, at),
    {
        let mut history: Vec<String> = Vec::new();
        history.push(content.to_owned());
        assert(history.deep_view() =~= seq![content@]);
        DocumentRecord {
            id,
            name: name.to_owned(),
            content: content.to_owned(),
            history,
            metadata: DocumentMetadata::at(at),
        }
    }

    /// The instants of creation and of last change.
    pub(crate) fn metadata(&self) -> (r: &DocumentMetadata)
        ensures
            r.spec_creation_date() == self@.creation_date,
            r.spec_last_modified() == self@.last_modified,
    {
        &self.metadata
    }

    /// Commits `content` at instant `at`: it becomes the current content and
    /// the newest entry of the history, and `at` the instant of last change.
    pub(crate) fn set_content_at(&mut self, content: &str, at: Timestamp)
        ensures
            final(self)@ == old(self)@.with_content(content@, at),
    {
        commit(&mut self.content, &mut self.history, content);
        self.metadata.update_last_modified(at);
    }

    /// The current content.
    pub(crate) fn content(&self) -> (text: String)
        ensures
            text@ == self@.content,
    {
        self.content.clone()
    }

    /// The current name.
    pub(crate) fn name(&self) -> (text: String)
        ensures
            text@ == self@.name,
    {
        self.name.clone()
    }

    /// Every content the document has held, oldest first.
    pub(crate) fn history(&self) -> (entries: Vec<String>)
        ensures
            entries.deep_view() == self@.history,
    {
        copy_entries(&self.history)
    }

    /// Replaces the name and nothing else.
    pub(crate) fn set_name(&mut self, new_name: &str)
        ensures
            final(self)@ == old(self)@.with_name(new_name@),
    {
        self.name = new_name.to_owned();
    }
}

} // verus!
