//! The coordinator's decisions: command dispatch, inbound
//! classification, targeting, and the serialization of store cycles.

use spotify_blog::coordinator::{handle_event, Directive, Event};
use spotify_blog::commands::CommandInputError;
use spotify_blog::protocol::{produce_response, ListMode, ListRequest};
use spotify_blog::store::{create, load, public_snapshot, save, set_visibility};
use spotify_blog::wire::{encode_chat, encode_request, encode_response};
use spotify_blog::protocol::ChatMessage;

fn me() -> String {
    "node-self".to_string()
}

fn inbound(payload: String) -> Event {
    Event::Inbound { source: "node-peer".to_string(), payload }
}

#[test]
fn commands_dispatch_to_directives() {
    assert!(matches!(handle_event(&me(), Event::Input("list peers".into())),
        Directive::ShowPeers));
    assert!(matches!(handle_event(&me(), Event::Input("  list songs  ".into())),
        Directive::ShowLocalCatalog));
    assert!(matches!(handle_event(&me(), Event::Input("chat".into())), Directive::PromptChat));
    assert!(matches!(handle_event(&me(), Event::Input("create song".into())),
        Directive::PromptCreate));
    match handle_event(&me(), Event::Input("delete song 5".into())) {
        Directive::DoDelete(id) => assert_eq!(id, 5),
        _ => panic!("wrong directive"),
    }
    match handle_event(&me(), Event::Input("publish song 0".into())) {
        Directive::DoPublish(id) => assert_eq!(id, 0),
        _ => panic!("wrong directive"),
    }
    match handle_event(&me(), Event::Input("private song 2".into())) {
        Directive::DoPrivate(id) => assert_eq!(id, 2),
        _ => panic!("wrong directive"),
    }
}

#[test]
fn list_songs_all_publishes_a_request() {
    match handle_event(&me(), Event::Input("list songs all".into())) {
        Directive::Publish(payload) => assert_eq!(payload, "{\"mode\":\"ALL\"}"),
        _ => panic!("wrong directive"),
    }
    match handle_event(&me(), Event::Input("list songs node-9".into())) {
        Directive::Publish(payload) => assert_eq!(payload, "{\"mode\":{\"One\":\"node-9\"}}"),
        _ => panic!("wrong directive"),
    }
}

#[test]
fn bad_input_is_reported_not_applied() {
    assert!(matches!(handle_event(&me(), Event::Input("delete song five".into())),
        Directive::ReportCommandError(CommandInputError::InvalidId)));
    assert!(matches!(handle_event(&me(), Event::Input("publish song".into())),
        Directive::ReportCommandError(CommandInputError::InvalidId)));
    assert!(matches!(handle_event(&me(), Event::Input("frobnicate".into())),
        Directive::ReportCommandError(CommandInputError::UnknownCommand)));
}

#[test]
fn all_request_reaches_every_node() {
    let payload = encode_request(&ListRequest { mode: ListMode::All });
    match handle_event(&me(), inbound(payload)) {
        Directive::Produce { requester } => assert_eq!(requester, "node-peer"),
        _ => panic!("wrong directive"),
    }
}

#[test]
fn targeted_request_only_reaches_its_target() {
    let to_me = encode_request(&ListRequest { mode: ListMode::One(me()) });
    assert!(matches!(handle_event(&me(), inbound(to_me)), Directive::Produce { .. }));
    let to_other = encode_request(&ListRequest { mode: ListMode::One("node-else".into()) });
    assert!(matches!(handle_event(&me(), inbound(to_other)), Directive::Ignore));
}

#[test]
fn response_is_shown_only_to_its_receiver() {
    let doc0 = save(&Vec::new());
    let (doc1, _) = create(&doc0, "A".into(), "B".into(), "L".into(), "t".into()).unwrap();
    let doc2 = set_visibility(&doc1, 0, true).unwrap();
    let snap = public_snapshot(&doc2).unwrap();
    let mine = encode_response(&produce_response(snap, &me()));
    match handle_event(&me(), inbound(mine)) {
        Directive::ShowResponse { source, resp } => {
            assert_eq!(source, "node-peer");
            assert_eq!(resp.receiver, me());
            assert_eq!(resp.data.len(), 1);
        },
        _ => panic!("wrong directive"),
    }
    let snap2 = public_snapshot(&doc2).unwrap();
    let other = encode_response(&produce_response(snap2, &"node-else".to_string()));
    assert!(matches!(handle_event(&me(), inbound(other)), Directive::Ignore));
}

#[test]
fn chat_is_shown_and_noise_is_dropped() {
    let payload = encode_chat(&ChatMessage { msg: "hello all".to_string() });
    match handle_event(&me(), inbound(payload)) {
        Directive::ShowChat { source, msg } => {
            assert_eq!(source, "node-peer");
            assert_eq!(msg, "hello all");
        },
        _ => panic!("wrong directive"),
    }
    assert!(matches!(handle_event(&me(), inbound("garbage ]] {{".into())), Directive::Ignore));
    assert!(matches!(handle_event(&me(), inbound("{\"other\":1}".into())), Directive::Ignore));
}

#[test]
fn empty_catalog_then_two_creates_then_publish_then_all_request() {
    let doc0 = save(&Vec::new());
    let (doc1, s0) = create(&doc0, "A".into(), "B".into(), "L".into(), "true".into()).unwrap();
    assert_eq!(s0.id, 0);
    assert!(!s0.public);
    let (doc2, s1) = create(&doc1, "C".into(), "D".into(), "M".into(), "false".into()).unwrap();
    assert_eq!(s1.id, 1);
    let doc3 = set_visibility(&doc2, 1, true).unwrap();

    let payload = encode_request(&ListRequest { mode: ListMode::All });
    let requester = match handle_event(&me(), inbound(payload)) {
        Directive::Produce { requester } => requester,
        _ => panic!("request not accepted"),
    };
    let snap = public_snapshot(&doc3).unwrap();
    let resp = produce_response(snap, &requester);
    assert_eq!(resp.data.len(), 1);
    assert_eq!(resp.data[0].id, 1);
    assert_eq!(resp.data[0].title, "C");
    assert_eq!(resp.receiver, "node-peer");
}

#[test]
fn republished_response_survives_reclassification() {
    let resp = produce_response(Vec::new(), &me());
    let directive = handle_event(&me(), Event::ResponseReady(resp));
    let payload = match directive {
        Directive::Publish(p) => p,
        _ => panic!("response not republished"),
    };
    match handle_event(&me(), inbound(payload)) {
        Directive::ShowResponse { resp, .. } => assert_eq!(resp.receiver, me()),
        _ => panic!("republished response lost"),
    }
}

#[test]
fn two_mutating_commands_never_interleave_their_cycles() {
    // A harness around the store: the "file" is one document plus a
    // version counter bumped on every save; each load records the
    // version it saw.
    let mut file: (String, u64) = (save(&Vec::new()), 0);
    let mut log: Vec<(u64, u64)> = Vec::new();

    let mut run = |cmd: &str, file: &mut (String, u64), log: &mut Vec<(u64, u64)>| {
        let loaded_version = file.1;
        let new_doc = match handle_event(&me(), Event::Input(cmd.to_string())) {
            Directive::DoDelete(id) => spotify_blog::store::delete(&file.0, id).unwrap().0,
            Directive::DoPublish(id) => set_visibility(&file.0, id, true).unwrap(),
            Directive::DoPrivate(id) => set_visibility(&file.0, id, false).unwrap(),
            _ => panic!("not a store mutation"),
        };
        file.0 = new_doc;
        file.1 += 1;
        log.push((loaded_version, file.1));
    };

    let (doc1, _) = create(&file.0, "A".into(), "B".into(), "L".into(), "t".into()).unwrap();
    file.0 = doc1;
    file.1 = 1;

    run("publish song 0", &mut file, &mut log);
    run("private song 0", &mut file, &mut log);

    // The second command's load saw exactly the first command's save:
    // whole cycles, in submission order, never interleaved.
    assert_eq!(log, vec![(1, 2), (2, 3)]);
    let songs = load(&file.0).unwrap();
    assert!(!songs[0].public);
}
