//! Wire encoding: exact payloads, escaping, and agreement with a stock
//! JSON parser.

use spotify_blog::protocol::{ChatMessage, ListMode, ListRequest, ListResponse};
use spotify_blog::song::Song;
use spotify_blog::store::{create, save};
use spotify_blog::wire::{encode_catalog, encode_chat, encode_request, encode_response};

fn sample_song() -> Song {
    Song {
        id: 3,
        title: "He\"llo".to_string(),
        artist: "A\\B".to_string(),
        lyrics: "line1\nline2\ttab\u{1}".to_string(),
        explicit: "true".to_string(),
        public: true,
    }
}

#[test]
fn request_payloads_are_exact() {
    let all = encode_request(&ListRequest { mode: ListMode::All });
    assert_eq!(all, "{\"mode\":\"ALL\"}");
    let one = encode_request(&ListRequest { mode: ListMode::One("peer-7".to_string()) });
    assert_eq!(one, "{\"mode\":{\"One\":\"peer-7\"}}");
}

#[test]
fn chat_payload_is_exact() {
    let msg = encode_chat(&ChatMessage { msg: "hi \"you\"".to_string() });
    assert_eq!(msg, "{\"msg\":\"hi \\\"you\\\"\"}");
}

#[test]
fn song_encoding_escapes_exactly() {
    let doc = encode_catalog(&vec![sample_song()]);
    assert_eq!(
        doc,
        "[{\"id\":3,\"title\":\"He\\\"llo\",\"artist\":\"A\\\\B\",\"lyrics\":\"line1\\nline2\\ttab\\u0001\",\"explicit\":\"true\",\"public\":true}]"
    );
}

#[test]
fn response_payload_holds_data_and_receiver() {
    let resp = ListResponse {
        mode: ListMode::All,
        data: vec![sample_song()],
        receiver: "node-1".to_string(),
    };
    let payload = encode_response(&resp);
    assert!(payload.starts_with("{\"mode\":\"ALL\",\"data\":["));
    assert!(payload.ends_with(",\"receiver\":\"node-1\"}"));
}

#[test]
fn stock_json_parser_accepts_the_encoding() {
    let doc0 = save(&Vec::new());
    let (doc1, _) = create(&doc0, "Ti \"tle\"".into(), "Art\\ist".into(), "ly\nrics".into(),
        "yes".into()).unwrap();
    let v: serde_json::Value = serde_json::from_str(&doc1).unwrap();
    let arr = v.as_array().unwrap();
    assert_eq!(arr.len(), 1);
    let obj = arr[0].as_object().unwrap();
    assert_eq!(obj.get("id").unwrap().as_u64().unwrap(), 0);
    assert_eq!(obj.get("title").unwrap().as_str().unwrap(), "Ti \"tle\"");
    assert_eq!(obj.get("artist").unwrap().as_str().unwrap(), "Art\\ist");
    assert_eq!(obj.get("lyrics").unwrap().as_str().unwrap(), "ly\nrics");
    assert_eq!(obj.get("explicit").unwrap().as_str().unwrap(), "yes");
    assert_eq!(obj.get("public").unwrap().as_bool().unwrap(), false);
}
