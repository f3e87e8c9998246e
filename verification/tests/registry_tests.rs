use docstore::document::{Document, DocumentError};
use docstore::identifier::DocumentId;
use docstore::service::{create_doc, create_doc_with, edit_doc, edit_doc_at, get_doc};
use docstore::storage::{add_doc, find_doc, DocumentStorage, ServerError};
use docstore::timestamp::Timestamp;
use std::collections::HashMap;

const UNUSED: &str = "00000000-0000-0000-0000-000000000000";

fn history_of(storage: &DocumentStorage, text: &str) -> Vec<String> {
    find_doc(storage, text).unwrap().history(storage).unwrap()
}

fn last_modified(doc: &Document, storage: &DocumentStorage) -> Timestamp {
    doc.metadata(storage).unwrap().last_modified().unwrap()
}

#[test]
fn end_to_end() {
    let mut storage = DocumentStorage::new();
    let x = create_doc(&mut storage, Some("Doc"), Some("v1")).unwrap();
    assert_eq!(x.len(), 36);
    assert_eq!(
        get_doc(&storage, &x),
        Ok(("Doc".to_string(), "v1".to_string()))
    );
    let doc = find_doc(&storage, &x).unwrap();
    assert_eq!(doc.name(&storage).unwrap(), "Doc");
    assert_eq!(doc.content(&storage).unwrap(), "v1");
    doc.set_content(&mut storage, "v2").unwrap();
    let again = find_doc(&storage, &x).unwrap();
    assert_eq!(again.content(&storage).unwrap(), "v2");
    assert_eq!(
        again.history(&storage).unwrap(),
        vec!["v1".to_string(), "v2".to_string()]
    );
    assert_eq!(
        get_doc(&storage, &x),
        Ok(("Doc".to_string(), "v2".to_string()))
    );
    assert_eq!(get_doc(&storage, "not-a-uuid"), Err(ServerError::InvalidUuid));
    assert_eq!(find_doc(&storage, "not-a-uuid"), Err(ServerError::InvalidUuid));
    assert_eq!(get_doc(&storage, UNUSED), Err(ServerError::NotFound));
    assert_eq!(find_doc(&storage, UNUSED), Err(ServerError::NotFound));
}

#[test]
fn end_to_end_by_requests() {
    let mut storage = DocumentStorage::new();
    let x = create_doc(&mut storage, Some("Doc"), Some("v1")).unwrap();
    assert_eq!(
        edit_doc(&mut storage, &x, Some("v2"), None),
        Ok(("Doc".to_string(), "v2".to_string()))
    );
    assert_eq!(
        get_doc(&storage, &x),
        Ok(("Doc".to_string(), "v2".to_string()))
    );
    assert_eq!(
        history_of(&storage, &x),
        vec!["v1".to_string(), "v2".to_string()]
    );
}

#[test]
fn created_and_looked_up_handles_are_aliases() {
    let mut storage = DocumentStorage::new();
    let a = Document::new(&mut storage, "Doc", "v1");
    add_doc(&mut storage, a.clone()).unwrap();
    let b = find_doc(&storage, &a.id().to_text()).unwrap();
    assert_eq!(a.id(), b.id());

    a.set_content(&mut storage, "through a").unwrap();
    assert_eq!(b.content(&storage).unwrap(), "through a");
    b.set_content(&mut storage, "through b").unwrap();
    assert_eq!(a.content(&storage).unwrap(), "through b");
    assert_eq!(
        a.history(&storage).unwrap(),
        vec![
            "v1".to_string(),
            "through a".to_string(),
            "through b".to_string()
        ]
    );
    b.set_name(&mut storage, "Renamed").unwrap();
    assert_eq!(a.name(&storage).unwrap(), "Renamed");
    assert_eq!(
        find_doc(&storage, &a.id().to_text())
            .unwrap()
            .content(&storage)
            .unwrap(),
        "through b"
    );
}

#[test]
fn handles_of_one_identifier_are_aliases() {
    let mut storage = DocumentStorage::new();
    let doc = Document::new(&mut storage, "Doc", "v1");
    add_doc(&mut storage, doc).unwrap();

    let text_a = doc.id().to_text();
    let text_b = text_a.to_uppercase();
    assert_ne!(text_a, text_b);
    assert_eq!(find_doc(&storage, &text_a), Ok(doc));
    assert_eq!(find_doc(&storage, &text_b), Ok(doc));
    edit_doc(&mut storage, &text_a, Some("through a"), None).unwrap();
    assert_eq!(
        get_doc(&storage, &text_b),
        Ok(("Doc".to_string(), "through a".to_string()))
    );
    assert_eq!(doc.content(&storage).unwrap(), "through a");
    edit_doc(&mut storage, &text_b, Some("through b"), None).unwrap();
    assert_eq!(
        get_doc(&storage, &text_a),
        Ok(("Doc".to_string(), "through b".to_string()))
    );
    assert_eq!(
        history_of(&storage, &text_a),
        vec![
            "v1".to_string(),
            "through a".to_string(),
            "through b".to_string()
        ]
    );
}

#[test]
fn table_of_live_handles_aliases_the_documents() {
    let mut storage = DocumentStorage::new();
    let x = create_doc(&mut storage, Some("Doc"), Some("v1")).unwrap();
    let doc = find_doc(&storage, &x).unwrap();
    let table = storage.read_docs().unwrap();
    assert_eq!(table.len(), 1);
    let listed = table[&doc.id().value];
    assert_eq!(listed.id().value, doc.id().value);
    listed.set_content(&mut storage, "through the table").unwrap();
    assert_eq!(doc.content(&storage).unwrap(), "through the table");
    assert_eq!(
        get_doc(&storage, &x),
        Ok(("Doc".to_string(), "through the table".to_string()))
    );
    assert_eq!(storage.read_docs().unwrap().len(), 1);
}

#[test]
fn document_that_is_not_filed_is_not_looked_up() {
    let mut storage = DocumentStorage::new();
    let doc = Document::new(&mut storage, "Doc", "v1");
    let text = doc.id().to_text();
    assert_eq!(find_doc(&storage, &text), Err(ServerError::NotFound));
    assert_eq!(get_doc(&storage, &text), Err(ServerError::NotFound));
    assert_eq!(doc.content(&storage).unwrap(), "v1");
    add_doc(&mut storage, doc).unwrap();
    assert_eq!(find_doc(&storage, &text), Ok(doc));

    storage.mut_docs().remove(&doc.id().value);
    assert_eq!(find_doc(&storage, &text), Err(ServerError::NotFound));
    assert_eq!(
        edit_doc(&mut storage, &text, Some("v2"), None),
        Err(ServerError::NotFound)
    );
    doc.set_content(&mut storage, "v2").unwrap();
    assert_eq!(
        doc.history(&storage).unwrap(),
        vec!["v1".to_string(), "v2".to_string()]
    );
}

#[test]
fn create_uses_placeholders_for_missing_fields() {
    let mut storage = DocumentStorage::new();
    let x = create_doc(&mut storage, None, None).unwrap();
    assert_eq!(
        get_doc(&storage, &x),
        Ok(("Untitled".to_string(), String::new()))
    );
    assert_eq!(history_of(&storage, &x), vec![String::new()]);
    let y = create_doc(&mut storage, Some("Named"), None).unwrap();
    assert_eq!(get_doc(&storage, &y), Ok(("Named".to_string(), String::new())));
    let z = create_doc(&mut storage, None, Some("text")).unwrap();
    assert_eq!(
        get_doc(&storage, &z),
        Ok(("Untitled".to_string(), "text".to_string()))
    );
    assert_ne!(x, y);
    assert_ne!(y, z);
}

#[test]
fn create_with_given_identifier_and_instant() {
    let mut storage = DocumentStorage::new();
    let id = DocumentId {
        value: 0x550e8400_e29b_41d4_a716_446655440000,
    };
    let at = Timestamp { secs: 1_000, nanos: 1 };
    let text = create_doc_with(&mut storage, id, at, Some("Doc"), Some("v1")).unwrap();
    assert_eq!(text, "550e8400-e29b-41d4-a716-446655440000");
    assert_eq!(text.len(), 36);
    let doc = find_doc(&storage, &text).unwrap();
    assert_eq!(doc, Document { id });
    assert_eq!(storage.get(id), Some(doc));
    assert_eq!(doc.id(), id);
    assert_eq!(doc.metadata(&storage).unwrap().creation_date(), at);
    assert_eq!(last_modified(&doc, &storage), at);
    assert_eq!(doc.history(&storage).unwrap(), vec!["v1".to_string()]);
}

#[test]
fn identifier_text_round_trip() {
    let id = DocumentId {
        value: 0x0123_4567_89ab_cdef_0123_4567_89ab_cdef,
    };
    let text = id.to_text();
    assert_eq!(text, "01234567-89ab-cdef-0123-456789abcdef");
    assert_eq!(text.len(), 36);
    let mut storage = DocumentStorage::new();
    let at = Timestamp { secs: 0, nanos: 0 };
    let doc = Document::with_origin(&mut storage, id, at, "Doc", "v1");
    assert!(storage.insert(doc).is_none());
    let nil = Document::with_origin(&mut storage, DocumentId { value: 0 }, at, "Nil", "");
    assert!(storage.insert(nil).is_none());
    assert_eq!(find_doc(&storage, &text), Ok(doc));
    assert_eq!(find_doc(&storage, "0123456789ABCDEF0123456789ABCDEF"), Ok(doc));
    assert_eq!(
        find_doc(&storage, "{01234567-89ab-cdef-0123-456789abcdef}"),
        Ok(doc)
    );
    assert_eq!(
        find_doc(&storage, "urn:uuid:01234567-89ab-cdef-0123-456789abcdef"),
        Ok(doc)
    );
    assert_eq!(find_doc(&storage, UNUSED), Ok(nil));
    assert_eq!(
        find_doc(&storage, "01234567-89ab-cdef-0123-456789abcdee"),
        Err(ServerError::NotFound)
    );
    for malformed in [
        "not-a-uuid",
        "",
        "01234567-89ab-cdef-0123-456789abcde",
        "01234567-89ab-cdef-0123-456789abcdeg",
        " 01234567-89ab-cdef-0123-456789abcdef",
    ] {
        assert_eq!(find_doc(&storage, malformed), Err(ServerError::InvalidUuid));
    }
}

#[test]
fn edit_at_given_instant_is_exact() {
    let mut storage = DocumentStorage::new();
    let id = DocumentId { value: 99 };
    let created = Timestamp { secs: 1, nanos: 0 };
    let text = create_doc_with(&mut storage, id, created, Some("Doc"), Some("v1")).unwrap();
    let doc = find_doc(&storage, &text).unwrap();

    let t2 = Timestamp { secs: 2, nanos: 0 };
    assert_eq!(
        edit_doc_at(&mut storage, &text, Some("v2"), Some("Doc 2"), t2),
        Ok(("Doc 2".to_string(), "v2".to_string()))
    );
    assert_eq!(
        doc.history(&storage).unwrap(),
        vec!["v1".to_string(), "v2".to_string()]
    );
    assert_eq!(last_modified(&doc, &storage), t2);
    assert_eq!(doc.metadata(&storage).unwrap().creation_date(), created);

    let t3 = Timestamp { secs: 3, nanos: 0 };
    assert_eq!(
        edit_doc_at(&mut storage, &text, None, Some("Doc 3"), t3),
        Ok(("Doc 3".to_string(), "v2".to_string()))
    );
    assert_eq!(doc.history(&storage).unwrap().len(), 2);
    assert_eq!(last_modified(&doc, &storage), t2);

    assert_eq!(
        edit_doc_at(&mut storage, &text, None, None, t3),
        Ok(("Doc 3".to_string(), "v2".to_string()))
    );
    assert_eq!(doc.history(&storage).unwrap().len(), 2);
    assert_eq!(last_modified(&doc, &storage), t2);

    assert_eq!(
        edit_doc_at(&mut storage, &text, Some(""), None, t3),
        Ok(("Doc 3".to_string(), String::new()))
    );
    assert_eq!(
        doc.history(&storage).unwrap(),
        vec!["v1".to_string(), "v2".to_string(), String::new()]
    );
    assert_eq!(last_modified(&doc, &storage), t3);
}

#[test]
fn edit_reports_why_no_document_was_found() {
    let mut storage = DocumentStorage::new();
    let x = create_doc(&mut storage, Some("Doc"), Some("v1")).unwrap();
    assert_eq!(
        edit_doc(&mut storage, "not-a-uuid", Some("v2"), None),
        Err(ServerError::InvalidUuid)
    );
    assert_eq!(
        edit_doc(&mut storage, UNUSED, Some("v2"), Some("n")),
        Err(ServerError::NotFound)
    );
    assert_eq!(get_doc(&storage, &x), Ok(("Doc".to_string(), "v1".to_string())));
    assert_eq!(history_of(&storage, &x), vec!["v1".to_string()]);
    assert_eq!(storage.read_docs().unwrap().len(), 1);
}

#[test]
fn edit_touches_one_document_only() {
    let mut storage = DocumentStorage::new();
    let x = create_doc(&mut storage, Some("X"), Some("x1")).unwrap();
    let y = create_doc(&mut storage, Some("Y"), Some("y1")).unwrap();
    let y_doc = find_doc(&storage, &y).unwrap();
    let y_modified = last_modified(&y_doc, &storage);
    edit_doc(&mut storage, &x, Some("x2"), Some("X2")).unwrap();
    assert_eq!(get_doc(&storage, &x), Ok(("X2".to_string(), "x2".to_string())));
    assert_eq!(get_doc(&storage, &y), Ok(("Y".to_string(), "y1".to_string())));
    assert_eq!(history_of(&storage, &y), vec!["y1".to_string()]);
    assert_eq!(last_modified(&y_doc, &storage), y_modified);
    assert_eq!(storage.read_docs().unwrap().len(), 2);
}

#[test]
fn many_commits_to_one_document_are_all_recorded() {
    let mut storage = DocumentStorage::new();
    let x = create_doc(&mut storage, Some("Doc"), Some("start")).unwrap();
    let n = 40;
    for i in 0..n {
        edit_doc(&mut storage, &x, Some(&format!("payload {}", i)), None).unwrap();
    }
    let history = history_of(&storage, &x);
    assert_eq!(history.len(), n + 1);
    assert_eq!(history[0], "start");
    for i in 0..n {
        assert_eq!(history[i + 1], format!("payload {}", i));
    }
    assert_eq!(
        get_doc(&storage, &x),
        Ok(("Doc".to_string(), format!("payload {}", n - 1)))
    );
}

#[test]
fn new_registry_is_empty() {
    let storage = DocumentStorage::new();
    assert!(storage.read_docs().unwrap().is_empty());
    assert!(storage.get(DocumentId { value: 0 }).is_none());
    assert_eq!(find_doc(&storage, UNUSED), Err(ServerError::NotFound));
}

#[test]
fn insert_files_under_the_identifier_and_displaces() {
    let mut storage = DocumentStorage::new();
    let id = DocumentId { value: 3 };
    let at = Timestamp { secs: 0, nanos: 0 };
    let doc = Document::with_origin(&mut storage, id, at, "first", "a");
    assert!(storage.get(id).is_none());
    assert!(storage.insert(doc).is_none());
    assert_eq!(storage.get(id), Some(doc));
    assert_eq!(storage.insert(doc.clone()), Some(doc));
    assert_eq!(storage.read_docs().unwrap().len(), 1);
    let other = Document::with_origin(&mut storage, DocumentId { value: 4 }, at, "", "");
    assert!(add_doc(&mut storage, other).is_ok());
    assert_eq!(storage.read_docs().unwrap().len(), 2);
    assert_eq!(doc.name(&storage).unwrap(), "first");
}

#[test]
fn registry_from_table_holds_the_handles_only() {
    let at = Timestamp { secs: 5, nanos: 5 };
    let mut home = DocumentStorage::new();
    let one = Document::with_origin(&mut home, DocumentId { value: 1 }, at, "one", "1");
    let two = Document::with_origin(&mut home, DocumentId { value: 2 }, at, "two", "2");
    let mut table: HashMap<u128, Document> = HashMap::new();
    table.insert(1, one);
    table.insert(2, two);
    let mut storage = DocumentStorage::from(table);
    assert_eq!(storage.get(DocumentId { value: 1 }), Some(one));
    assert_eq!(storage.get(DocumentId { value: 2 }), Some(two));
    assert_eq!(storage.get(DocumentId { value: 3 }), None);
    assert_eq!(storage.read_docs().unwrap().len(), 2);
    let text = one.id().to_text();
    assert_eq!(find_doc(&storage, &text), Ok(one));
    assert!(matches!(one.content(&storage), Err(DocumentError::NotFound)));
    assert_eq!(get_doc(&storage, &text), Err(ServerError::NotFound));
    assert_eq!(
        edit_doc(&mut storage, &text, Some("x"), Some("y")),
        Err(ServerError::NotFound)
    );
    assert_eq!(
        edit_doc(&mut storage, &text, None, None),
        Err(ServerError::NotFound)
    );
    assert_eq!(one.content(&home).unwrap(), "1");

    let three = Document::with_origin(&mut storage, DocumentId { value: 3 }, at, "three", "3");
    storage.mut_docs().insert(3, three);
    assert_eq!(
        get_doc(&storage, &three.id().to_text()),
        Ok(("three".to_string(), "3".to_string()))
    );
}

#[test]
fn server_error_messages() {
    assert_eq!(ServerError::InvalidUuid.message(), "Invalid UUID");
    assert_eq!(ServerError::LockError.message(), "Couldn't lock documents");
    assert_eq!(ServerError::NotFound.message(), "Not found");
}

fn spelled_out(value: u128) -> String {
    let mut text = String::new();
    for i in 0..36u32 {
        if i == 8 || i == 13 || i == 18 || i == 23 {
            text.push('-');
        } else {
            let hyphens_before = [8, 13, 18, 23].iter().filter(|h| **h < i).count() as u32;
            let digit = i - hyphens_before;
            let nibble = (value >> (4 * (31 - digit))) & 0xf;
            text.push(char::from_digit(nibble as u32, 16).unwrap());
        }
    }
    text
}

#[test]
fn canonical_text_is_hex_digits_in_five_groups() {
    let mut storage = DocumentStorage::new();
    let fresh = Document::new(&mut storage, "", "").id().value;
    for value in [
        0u128,
        1,
        u128::MAX,
        0x0123_4567_89ab_cdef_0123_4567_89ab_cdef,
        0xfedc_ba98_7654_3210_0f1e_2d3c_4b5a_6978,
        1 << 127,
        fresh,
    ] {
        let text = DocumentId { value }.to_text();
        assert_eq!(text, spelled_out(value));
        assert_eq!(text.chars().count(), 36);
    }
    assert_eq!(
        DocumentId { value: 1 << 127 }.to_text(),
        "80000000-0000-0000-0000-000000000000"
    );
    assert_eq!(
        DocumentId { value: 10 }.to_text(),
        "00000000-0000-0000-0000-00000000000a"
    );
}
