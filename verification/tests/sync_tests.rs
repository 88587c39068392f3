use plato_calibre::error::PlatoCalibreError;
use plato_calibre::keys::content_key;
use plato_calibre::protocol::{FileInfo, Info};
use plato_calibre::sync::decide_for_record;
use plato_calibre::sync::{
    added_fields_for, completion_event, completion_info, decide, epub_name, epub_path,
    interpret_metadata, network_preamble, path_join, replay_run, search_event,
    strip_path_prefix, BookInput, NetworkStep, RunMessage, Settings, SyncDecision,
    finished_notification,
};

#[test]
fn decision_table() {
    let t2: i64 = 1704067200;
    assert_eq!(decide(None, t2), SyncDecision::FetchNew);
    assert_eq!(decide(Some(t2), t2), SyncDecision::Skip);
    assert_eq!(decide(Some(t2 - 1), t2), SyncDecision::FetchOverwrite);
    assert_eq!(decide(Some(t2 + 1), t2), SyncDecision::FetchOverwrite);
}

#[test]
fn resync_of_unchanged_library_downloads_nothing() {
    let run: Vec<BookInput> = (0..10)
        .map(|i| BookInput {
            modified_at: 1000 + i,
            existing_added: Some(1000 + i),
            download_ok: true,
        })
        .collect();
    let msgs = replay_run(&run, None);
    assert_eq!(msgs, vec![RunMessage::Finished]);
}

#[test]
fn one_failed_download_does_not_stop_the_others() {
    let a = BookInput { modified_at: 1, existing_added: None, download_ok: true };
    let b = BookInput { modified_at: 2, existing_added: None, download_ok: false };
    let c = BookInput { modified_at: 3, existing_added: Some(0), download_ok: true };
    let msgs = replay_run(&vec![a, b, c], None);
    assert_eq!(
        msgs,
        vec![
            RunMessage::Added,
            RunMessage::FailedDownload,
            RunMessage::Updated,
            RunMessage::Finished,
        ]
    );
}

#[test]
fn cancellation_after_three_of_ten_still_finishes() {
    let run: Vec<BookInput> = (0..10)
        .map(|i| BookInput { modified_at: i, existing_added: None, download_ok: true })
        .collect();
    let msgs = replay_run(&run, Some(3));
    assert_eq!(
        msgs,
        vec![
            RunMessage::Added,
            RunMessage::Added,
            RunMessage::Added,
            RunMessage::Finished,
        ]
    );
    assert_eq!(*msgs.last().unwrap(), RunMessage::Finished);
}

#[test]
fn cancel_at_zero_processes_nothing() {
    let run: Vec<BookInput> = (0..4)
        .map(|i| BookInput { modified_at: i, existing_added: None, download_ok: true })
        .collect();
    assert_eq!(replay_run(&run, Some(0)), vec![RunMessage::Finished]);
}

#[test]
fn cancel_beyond_the_end_processes_everything() {
    let run: Vec<BookInput> = (0..3)
        .map(|i| BookInput { modified_at: i, existing_added: None, download_ok: true })
        .collect();
    assert_eq!(
        replay_run(&run, Some(99)),
        vec![
            RunMessage::Added,
            RunMessage::Added,
            RunMessage::Added,
            RunMessage::Finished,
        ]
    );
}

#[test]
fn metadata_interpretation_scenario() {
    let authors = vec!["A".to_string(), "B".to_string()];
    let identifiers = vec![("url".to_string(), "http://example.com/42".to_string())];
    let m = interpret_metadata(
        "Foo".to_string(),
        &authors,
        &identifiers,
        "2024-01-01T00:00:00Z",
        &Some("url".to_string()),
    )
    .expect("metadata should interpret");
    assert_eq!(m.title, "Foo");
    assert_eq!(m.author, "A, B");
    assert_eq!(m.stable_identifier, "http://example.com/42");
    assert_eq!(m.modified_at, 1704067200);
}

#[test]
fn metadata_falls_back_to_title_without_a_configured_field() {
    let authors = vec!["A".to_string()];
    let identifiers = vec![("url".to_string(), "http://example.com/42".to_string())];
    let m = interpret_metadata(
        "Foo".to_string(),
        &authors,
        &identifiers,
        "2024-06-01T10:00:00+02:00",
        &None,
    )
    .expect("metadata should interpret");
    assert_eq!(m.stable_identifier, "Foo");
    assert_eq!(m.modified_at, 1717228800);
}

#[test]
fn metadata_fails_when_the_configured_field_is_absent() {
    let authors = vec!["A".to_string()];
    let identifiers = vec![("url".to_string(), "http://example.com/42".to_string())];
    let r = interpret_metadata(
        "Foo".to_string(),
        &authors,
        &identifiers,
        "2024-01-01T00:00:00Z",
        &Some("isbn".to_string()),
    );
    let e = r.err().expect("an error");
    assert_eq!(e.message(), "Unable to find identifier");
}

#[test]
fn metadata_fails_on_an_unreadable_timestamp() {
    let authors = vec!["A".to_string()];
    let identifiers = vec![];
    let r = interpret_metadata(
        "Foo".to_string(),
        &authors,
        &identifiers,
        "yesterday at noon",
        &None,
    );
    assert!(r.is_err());
}

#[test]
fn end_to_end_one_new_book() {
    let authors = vec!["A".to_string(), "B".to_string()];
    let identifiers = vec![("url".to_string(), "http://example.com/42".to_string())];
    let meta = interpret_metadata(
        "Foo".to_string(),
        &authors,
        &identifiers,
        "2024-01-01T00:00:00Z",
        &Some("url".to_string()),
    )
    .expect("metadata should interpret");

    let key = content_key(&meta.stable_identifier);
    assert_eq!(key, fxhash::hash64("http://example.com/42").to_string());

    let search = search_event("/library/save", &key);
    assert_eq!(
        search.encode(),
        format!(
            "{{\"type\":\"search\",\"path\":\"/library/save\",\"query\":\"'i ^{}$\"}}",
            key
        )
    );

    let decision = decide(None, meta.modified_at);
    assert_eq!(decision, SyncDecision::FetchNew);

    let full = epub_path("/library/save", &key);
    assert_eq!(full, format!("/library/save/{}.epub", key));
    let rel = strip_path_prefix(&full, "/library").expect("path under library");
    assert_eq!(rel, format!("save/{}.epub", key));

    let added = added_fields_for(meta.modified_at).expect("a local wall-clock time");
    let info = completion_info(&meta, &key, rel.clone(), 4096, added);
    let event = completion_event(false, &rel, info);
    let line = event.encode();
    let added_text = format!(
        "{:04}-{:02}-{:02} {:02}:{:02}:{:02}",
        added.year, added.month, added.day, added.hour, added.minute, added.second
    );
    assert_eq!(
        line,
        format!(
            "{{\"type\":\"addDocument\",\"info\":{{\"title\":\"Foo\",\"author\":\"A, B\",\
             \"identifier\":\"{key}\",\"file\":{{\"path\":\"save/{key}.epub\",\"kind\":\"epub\",\
             \"size\":4096}},\"added\":\"{added_text}\"}}}}"
        )
    );
}

#[test]
fn record_written_then_seen_again_is_skipped() {
    let t: i64 = 1704067200;
    let added = added_fields_for(t).expect("a local wall-clock time");
    let info = Info {
        title: "Foo".to_string(),
        author: "A, B".to_string(),
        identifier: "123".to_string(),
        file: FileInfo {
            path: "save/123.epub".to_string(),
            kind: "epub".to_string(),
            size: 1,
        },
        added,
    };
    assert_eq!(decide_for_record(Some(&info), t), SyncDecision::Skip);
    assert_eq!(decide_for_record(Some(&info), t + 1), SyncDecision::FetchOverwrite);
    assert_eq!(decide_for_record(None, t), SyncDecision::FetchNew);
}

#[test]
fn network_preamble_table() {
    assert_eq!(network_preamble(true, true), NetworkStep::Proceed);
    assert_eq!(network_preamble(false, true), NetworkStep::Proceed);
    assert_eq!(network_preamble(false, false), NetworkStep::EnableWifi);
    assert_eq!(network_preamble(true, false), NetworkStep::AwaitReady);
}

#[test]
fn finished_notification_line() {
    let e = finished_notification();
    assert_eq!(
        e.encode(),
        "{\"type\":\"notify\",\"message\":\"Finished syncing books!\"}"
    );
    assert!(!e.awaits_response());
}

#[test]
fn path_helpers() {
    assert_eq!(epub_name("123"), "123.epub");
    assert_eq!(path_join("/a/b", "c.epub"), "/a/b/c.epub");
    assert_eq!(path_join("/a/b/", "c.epub"), "/a/b/c.epub");
    assert_eq!(path_join("", "c.epub"), "c.epub");
    assert_eq!(strip_path_prefix("/lib/save/1.epub", "/lib"), Some("save/1.epub".to_string()));
    assert_eq!(strip_path_prefix("/lib/save/1.epub", "/lib/"), Some("save/1.epub".to_string()));
    assert_eq!(strip_path_prefix("/lib", "/lib"), Some("".to_string()));
    assert_eq!(strip_path_prefix("/other/1.epub", "/lib"), None);
    assert_eq!(strip_path_prefix("/library2/1.epub", "/library"), None);
    assert_eq!(strip_path_prefix("x", ""), Some("x".to_string()));
}

#[test]
fn update_event_for_overwrite_decision() {
    let authors = vec!["A".to_string()];
    let identifiers = vec![];
    let meta = interpret_metadata(
        "Foo".to_string(),
        &authors,
        &identifiers,
        "2024-01-01T00:00:00Z",
        &None,
    )
    .expect("metadata should interpret");
    let key = content_key(&meta.stable_identifier);
    let added = added_fields_for(meta.modified_at).expect("a local wall-clock time");
    let info = completion_info(&meta, &key, "save/x.epub".to_string(), 10, added);
    let event = completion_event(true, "save/x.epub", info);
    let line = event.encode();
    assert!(line.starts_with("{\"type\":\"updateDocument\",\"path\":\"save/x.epub\","));
}

#[test]
fn settings_default_levels() {
    let s: Settings = Default::default();
    assert_eq!(s.log, 1);
    assert_eq!(s.base_url, "");
    assert!(s.username.is_none());
    assert!(s.identifier.is_none());
    assert_eq!(s.category, 0);
}

#[test]
fn error_carries_its_message() {
    let e = PlatoCalibreError::new("something went wrong");
    assert_eq!(e.message(), "something went wrong");
}
