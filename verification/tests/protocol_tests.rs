use plato_calibre::datetime::DateTimeFields;
use plato_calibre::logger::Logger;
use plato_calibre::protocol::{Event, FileInfo, Info, NetworkResults, Response, SearchResults};
use plato_calibre::protocol::first_search_result;

fn sample_info(added: DateTimeFields) -> Info {
    Info {
        title: "Foo".to_string(),
        author: "A, B".to_string(),
        identifier: "123".to_string(),
        file: FileInfo {
            path: "save/123.epub".to_string(),
            kind: "epub".to_string(),
            size: 4096,
        },
        added,
    }
}

fn midnight() -> DateTimeFields {
    DateTimeFields { year: 2024, month: 1, day: 1, hour: 0, minute: 0, second: 0 }
}

#[test]
fn notify_encoding_exact() {
    let e = Event::Notify("Finished syncing books!".to_string());
    assert_eq!(
        e.encode(),
        "{\"type\":\"notify\",\"message\":\"Finished syncing books!\"}"
    );
}

#[test]
fn notify_escapes_quotes_backslashes_and_controls() {
    let e = Event::Notify("a\"b\\c\nd\te\r\u{8}\u{c}\u{1}".to_string());
    assert_eq!(
        e.encode(),
        "{\"type\":\"notify\",\"message\":\"a\\\"b\\\\c\\nd\\te\\r\\b\\f\\u0001\"}"
    );
}

#[test]
fn set_wifi_encoding_exact() {
    assert_eq!(
        Event::SetWifi(true).encode(),
        "{\"type\":\"setWifi\",\"enable\":true}"
    );
    assert_eq!(
        Event::SetWifi(false).encode(),
        "{\"type\":\"setWifi\",\"enable\":false}"
    );
}

#[test]
fn search_encoding_exact() {
    let e = Event::Search {
        path: "/mnt/library/save".to_string(),
        query: "'i ^123$".to_string(),
    };
    assert_eq!(
        e.encode(),
        "{\"type\":\"search\",\"path\":\"/mnt/library/save\",\"query\":\"'i ^123$\"}"
    );
}

#[test]
fn add_document_encoding_exact() {
    let e = Event::AddDocument(sample_info(midnight()));
    assert_eq!(
        e.encode(),
        "{\"type\":\"addDocument\",\"info\":{\"title\":\"Foo\",\"author\":\"A, B\",\
         \"identifier\":\"123\",\"file\":{\"path\":\"save/123.epub\",\"kind\":\"epub\",\
         \"size\":4096},\"added\":\"2024-01-01 00:00:00\"}}"
    );
}

#[test]
fn update_document_encoding_exact() {
    let e = Event::UpdateDocument("save/123.epub".to_string(), sample_info(midnight()));
    assert_eq!(
        e.encode(),
        "{\"type\":\"updateDocument\",\"path\":\"save/123.epub\",\"info\":{\"title\":\"Foo\",\
         \"author\":\"A, B\",\"identifier\":\"123\",\"file\":{\"path\":\"save/123.epub\",\
         \"kind\":\"epub\",\"size\":4096},\"added\":\"2024-01-01 00:00:00\"}}"
    );
}

#[test]
fn only_search_and_set_wifi_await_a_response() {
    assert!(Event::SetWifi(true).awaits_response());
    let search = Event::Search { path: "p".to_string(), query: "q".to_string() };
    assert!(search.awaits_response());
    assert!(!Event::Notify("m".to_string()).awaits_response());
    assert!(!Event::AddDocument(sample_info(midnight())).awaits_response());
    assert!(!Event::UpdateDocument("p".to_string(), sample_info(midnight())).awaits_response());
}

#[test]
fn first_search_result_reads_only_search_answers() {
    let none: Option<Response> = None;
    assert!(first_search_result(&none).is_none());

    let empty = Some(Response::Search(SearchResults {
        event_type: "search".to_string(),
        results: vec![],
    }));
    assert!(first_search_result(&empty).is_none());

    let network = Some(Response::NetworkStatus(NetworkResults {
        event_type: "network".to_string(),
        status: "up".to_string(),
    }));
    assert!(first_search_result(&network).is_none());

    let hit = Some(Response::Search(SearchResults {
        event_type: "search".to_string(),
        results: vec![sample_info(midnight()), sample_info(midnight())],
    }));
    let first = first_search_result(&hit).expect("a result");
    assert_eq!(first.title, "Foo");
}

#[test]
fn logger_gates_by_level() {
    let quiet = Logger::new(1);
    assert!(quiet.debug("hidden").is_none());
    assert!(quiet.verbose("hidden").is_none());
    assert_eq!(
        quiet.status("shown").unwrap(),
        "{\"type\":\"notify\",\"message\":\"shown\"}"
    );
    assert_eq!(
        quiet.error("bad").unwrap(),
        "{\"type\":\"notify\",\"message\":\"bad\"}"
    );

    let chatty = Logger::new(3);
    assert!(chatty.debug("shown").is_some());
    assert!(chatty.verbose("shown").is_some());

    let silent = Logger::new(0);
    assert!(silent.status("hidden").is_none());
    assert!(silent.error("still shown").is_some());
    assert_eq!(silent.log("hello", 0).unwrap(), "{\"type\":\"notify\",\"message\":\"hello\"}");
}
