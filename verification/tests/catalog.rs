//! Catalog store behaviour, through the document-level operations.

use spotify_blog::store::{create, delete, load, public_snapshot, save, set_visibility,
    PersistenceError};

fn empty_doc() -> String {
    save(&Vec::new())
}

#[test]
fn empty_catalog_saves_as_empty_array() {
    assert_eq!(empty_doc(), "[]");
}

#[test]
fn create_assigns_increasing_ids() {
    let doc0 = empty_doc();
    let (doc1, s0) = create(&doc0, "A".into(), "B".into(), "L".into(), "true".into()).unwrap();
    assert_eq!(s0.id, 0);
    assert!(!s0.public);
    let (doc2, s1) = create(&doc1, "C".into(), "D".into(), "M".into(), "false".into()).unwrap();
    assert_eq!(s1.id, 1);
    let (doc3, s2) = create(&doc2, "E".into(), "F".into(), "N".into(), "no".into()).unwrap();
    assert_eq!(s2.id, 2);
    let songs = load(&doc3).unwrap();
    assert_eq!(songs.len(), 3);
    assert!(songs[0].id < songs[1].id && songs[1].id < songs[2].id);
}

#[test]
fn id_after_deleting_all_songs_is_zero() {
    let doc0 = empty_doc();
    let (doc1, _) = create(&doc0, "A".into(), "B".into(), "L".into(), "t".into()).unwrap();
    let (doc2, _) = create(&doc1, "C".into(), "D".into(), "M".into(), "f".into()).unwrap();
    let (doc3, found0) = delete(&doc2, 0).unwrap();
    let (doc4, found1) = delete(&doc3, 1).unwrap();
    assert!(found0 && found1);
    assert_eq!(doc4, "[]");
    let (_, s) = create(&doc4, "X".into(), "Y".into(), "Z".into(), "t".into()).unwrap();
    assert_eq!(s.id, 0);
}

#[test]
fn delete_removes_exactly_one_record() {
    let doc0 = empty_doc();
    let (doc1, _) = create(&doc0, "A".into(), "B".into(), "L".into(), "t".into()).unwrap();
    let (doc2, _) = create(&doc1, "C".into(), "D".into(), "M".into(), "f".into()).unwrap();
    let (doc3, found) = delete(&doc2, 0).unwrap();
    assert!(found);
    let songs = load(&doc3).unwrap();
    assert_eq!(songs.len(), 1);
    assert_eq!(songs[0].id, 1);
    assert_eq!(songs[0].title, "C");
}

#[test]
fn delete_of_absent_id_changes_nothing() {
    let doc0 = empty_doc();
    let (doc1, _) = create(&doc0, "A".into(), "B".into(), "L".into(), "t".into()).unwrap();
    let (doc2, found) = delete(&doc1, 7).unwrap();
    assert!(!found);
    assert_eq!(doc1, doc2);
}

#[test]
fn visibility_toggle_pair_restores_document() {
    let doc0 = empty_doc();
    let (doc1, _) = create(&doc0, "A".into(), "B".into(), "L".into(), "t".into()).unwrap();
    let doc2 = set_visibility(&doc1, 0, true).unwrap();
    assert_ne!(doc1, doc2);
    let doc3 = set_visibility(&doc2, 0, false).unwrap();
    assert_eq!(doc1, doc3);
}

#[test]
fn visibility_of_absent_id_is_silent_no_op() {
    let doc0 = empty_doc();
    let (doc1, _) = create(&doc0, "A".into(), "B".into(), "L".into(), "t".into()).unwrap();
    let doc2 = set_visibility(&doc1, 9, true).unwrap();
    assert_eq!(doc1, doc2);
}

#[test]
fn public_snapshot_never_contains_private_songs() {
    let doc0 = empty_doc();
    let (doc1, _) = create(&doc0, "A".into(), "B".into(), "L".into(), "t".into()).unwrap();
    let (doc2, _) = create(&doc1, "C".into(), "D".into(), "M".into(), "f".into()).unwrap();
    let (doc3, _) = create(&doc2, "E".into(), "F".into(), "N".into(), "y".into()).unwrap();
    let doc4 = set_visibility(&doc3, 1, true).unwrap();
    let snap = public_snapshot(&doc4).unwrap();
    assert_eq!(snap.len(), 1);
    assert_eq!(snap[0].id, 1);
    assert!(snap.iter().all(|s| s.public));
    let empty_snap = public_snapshot(&doc3).unwrap();
    assert!(empty_snap.is_empty());
}

#[test]
fn save_after_load_reproduces_document() {
    let doc0 = empty_doc();
    let (doc1, _) = create(&doc0, "quote \" slash \\".into(), "line\nbreak".into(),
        "tab\tand\rcr".into(), "ctl\u{1}\u{1f}".into()).unwrap();
    let (doc2, _) = create(&doc1, "unicode \u{00e9}\u{1F174}".into(), "D".into(), "M".into(),
        "f".into()).unwrap();
    let reloaded = load(&doc2).unwrap();
    assert_eq!(save(&reloaded), doc2);
}

#[test]
fn load_after_save_reproduces_catalog() {
    let doc0 = empty_doc();
    let (doc1, s) = create(&doc0, "A \"B\"".into(), "C\\D".into(), "L1\nL2".into(),
        "true".into()).unwrap();
    let songs = load(&doc1).unwrap();
    assert_eq!(songs.len(), 1);
    assert_eq!(songs[0].id, s.id);
    assert_eq!(songs[0].title, "A \"B\"");
    assert_eq!(songs[0].artist, "C\\D");
    assert_eq!(songs[0].lyrics, "L1\nL2");
    assert_eq!(songs[0].explicit, "true");
    assert!(!songs[0].public);
}

#[test]
fn malformed_document_is_rejected() {
    assert!(matches!(load("not json"), Err(PersistenceError::Malformed)));
    assert!(matches!(load(""), Err(PersistenceError::Malformed)));
    assert!(matches!(load("{\"id\":0}"), Err(PersistenceError::Malformed)));
    assert!(matches!(load("[{\"id\":0}]"), Err(PersistenceError::Malformed)));
    let r = create("broken", "A".into(), "B".into(), "L".into(), "t".into());
    assert!(matches!(r, Err(PersistenceError::Malformed)));
    assert!(matches!(delete("broken", 0), Err(PersistenceError::Malformed)));
    assert!(matches!(set_visibility("broken", 0, true), Err(PersistenceError::Malformed)));
    assert!(matches!(public_snapshot("broken"), Err(PersistenceError::Malformed)));
}

#[test]
fn exhausted_id_space_is_reported() {
    let doc = "[{\"id\":18446744073709551615,\"title\":\"A\",\"artist\":\"B\",\"lyrics\":\"L\",\"explicit\":\"t\",\"public\":false}]";
    assert!(load(doc).is_ok());
    let r = create(doc, "X".into(), "Y".into(), "Z".into(), "t".into());
    assert_eq!(r.unwrap_err(), PersistenceError::IdSpaceExhausted);
}

#[test]
fn oversized_id_is_malformed() {
    let doc = "[{\"id\":18446744073709551616,\"title\":\"A\",\"artist\":\"B\",\"lyrics\":\"L\",\"explicit\":\"t\",\"public\":false}]";
    assert!(matches!(load(doc), Err(PersistenceError::Malformed)));
}
