use axiom_carriers::antie::skip_list::SkipList;
use axiom_carriers::antie::uncle_sink::UncleSink;

fn open_in(lines: &[&str]) -> SkipList {
    SkipList::maybe_open(Some("/d/skip_list"), Some("/d/skipped"), Some(&lines.join("\n")))
        .expect("skip-list should be enabled when both paths provided")
}

#[test]
fn disabled_when_either_path_missing() {
    assert!(SkipList::maybe_open(None, Some("/tmp/x"), None).is_none());
    assert!(SkipList::maybe_open(Some("/tmp/x"), None, None).is_none());
    assert!(SkipList::maybe_open(None, None, None).is_none());
}

#[test]
fn contains_matches_loaded_entries() {
    let sl = open_in(&[
        "treasury@bigbank.com/abc12345",
        "fx@receiverbank.com/def67890",
        "",            // blank line ignored
        "# a comment", // comment ignored
        "operating@nostro.io/aaaaaaaa",
    ]);

    assert!(sl.contains("treasury@bigbank.com/abc12345"));
    assert!(sl.contains("fx@receiverbank.com/def67890"));
    assert!(sl.contains("operating@nostro.io/aaaaaaaa"));
    assert!(!sl.contains("randomguy@example.com/zzzzzzzz"));
    // Blank line + comment line ignored — not entries.
    assert!(!sl.contains(""));
    assert!(!sl.contains("# a comment"));
}

#[test]
fn missing_skip_list_file_loads_as_empty_not_error() {
    let sl = SkipList::maybe_open(Some("/d/does_not_exist"), Some("/d/skipped"), None).unwrap();
    assert!(!sl.contains("anything"));
}

#[test]
fn reload_picks_up_added_entries() {
    let mut sl = open_in(&["initial@bank.com/aaaaaaaa"]);
    assert!(sl.contains("initial@bank.com/aaaaaaaa"));
    assert!(!sl.contains("new@bank.com/bbbbbbbb"));

    let n = sl.reload(Ok("initial@bank.com/aaaaaaaa\nnew@bank.com/bbbbbbbb\n")).unwrap();
    assert_eq!(n, 2);
    assert!(sl.contains("initial@bank.com/aaaaaaaa"));
    assert!(sl.contains("new@bank.com/bbbbbbbb"));
}

#[test]
fn unreadable_list_keeps_the_entries() {
    let mut sl = open_in(&["initial@bank.com/aaaaaaaa"]);
    let err = sl.reload(Err("permission denied".to_string())).unwrap_err();
    assert_eq!(err.to_text(), "IO error: permission denied");
    assert!(sl.contains("initial@bank.com/aaaaaaaa"));
}

#[test]
fn skipped_cheques_are_renamed_into_place() {
    let sl = open_in(&["x"]);
    let (tmp, dest) = sl.write_skipped("cheque-42.eml");
    assert_eq!(tmp, "/d/skipped/.tmp.cheque-42.eml");
    assert_eq!(dest, "/d/skipped/cheque-42.eml");
    assert_eq!(sl.skip_list_path(), "/d/skip_list");
    assert_eq!(sl.skipped_dir_path(), "/d/skipped");
}

#[test]
fn skipped_dir_count_excludes_tmp_files() {
    let sl = open_in(&["x"]);
    let names = vec!["cheque-1".to_string(), "cheque-2".to_string(), ".tmp.cheque-3".to_string()];
    assert_eq!(sl.skipped_dir_count(&names), 2);
}

#[test]
fn copies_are_named_after_the_transaction() {
    let sink = UncleSink::new("/d/witness_outbox".into());
    let (tmp, dest) = sink.tee(&[0xABu8; 32], 7, 8);
    assert_eq!(dest, format!("/d/witness_outbox/{}.cbor", "ab".repeat(32)));
    assert!(tmp.starts_with("/d/witness_outbox/.uncle_tee.tmp."));
    assert_eq!(sink.outbox_path(), "/d/witness_outbox");
    // A second copy of the same transaction replaces the first.
    assert_eq!(sink.tee(&[0xABu8; 32], 9, 10).1, dest);
}
