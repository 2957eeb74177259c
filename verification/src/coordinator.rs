//! The event coordinator's decision rules: one event in, one directive
//! out.  The binary runs the loop, waits on input, completed responses
//! and inbound payloads, performs each directive, and hands the next
//! event back; every decision is made here.

use crate::codec::{enc_request, enc_response, ModeView, ResponseView};
use crate::commands::{parse_command, parse_command_spec, Command, CommandInputError, CommandView};
use crate::parse::{parse_chat_doc, parse_request_doc, parse_response_doc};
use crate::codec::{p_chat_doc, p_request_doc, p_response_doc};
use crate::protocol::{ListMode, ListRequest, ListResponse};
use crate::text::str_chars;
use crate::wire::{encode_request, encode_response};
use vstd::prelude::*;

verus! {

/// One occurrence the coordinator waits on: a line of operator input, a
/// response a producer completed, or an inbound broadcast payload.
pub enum Event {
    Input(String),
    ResponseReady(ListResponse),
    Inbound { source: String, payload: String },
}

/// The mathematical value of an event.
pub ghost enum EventView {
    Input(Seq<char>),
    ResponseReady(ResponseView),
    Inbound { source: Seq<char>, payload: Seq<char> },
}

impl View for Event {
    type V = EventView;

    open spec fn view(&self) -> EventView {
        match self {
            Event::Input(line) => EventView::Input(line@),
            Event::ResponseReady(r) => EventView::ResponseReady(r@),
            Event::Inbound { source, payload } => EventView::Inbound {
                source: source@,
                payload: payload@,
            },
        }
    }
}

/// What the coordinator decides to do with one event.  Only `Publish`
/// puts traffic on the channel.
pub enum Directive {
    ShowPeers,
    ShowLocalCatalog,
    Publish(String),
    PromptChat,
    PromptCreate,
    DoDelete(usize),
    DoPublish(usize),
    DoPrivate(usize),
    ReportCommandError(CommandInputError),
    ShowResponse { source: String, resp: ListResponse },
    ShowChat { source: String, msg: String },
    Produce { requester: String },
    Ignore,
}

/// The mathematical value of a directive.
pub ghost enum DirectiveView {
    ShowPeers,
    ShowLocalCatalog,
    Publish(Seq<char>),
    PromptChat,
    PromptCreate,
    DoDelete(int),
    DoPublish(int),
    DoPrivate(int),
    ReportCommandError(CommandInputError),
    ShowResponse { source: Seq<char>, resp: ResponseView },
    ShowChat { source: Seq<char>, msg: Seq<char> },
    Produce { requester: Seq<char> },
    Ignore,
}

impl View for Directive {
    type V = DirectiveView;

    open spec fn view(&self) -> DirectiveView {
        match self {
            Directive::ShowPeers => DirectiveView::ShowPeers,
            Directive::ShowLocalCatalog => DirectiveView::ShowLocalCatalog,
            Directive::Publish(p) => DirectiveView::Publish(p@),
            Directive::PromptChat => DirectiveView::PromptChat,
            Directive::PromptCreate => DirectiveView::PromptCreate,
            Directive::DoDelete(id) => DirectiveView::DoDelete(*id as int),
            Directive::DoPublish(id) => DirectiveView::DoPublish(*id as int),
            Directive::DoPrivate(id) => DirectiveView::DoPrivate(*id as int),
            Directive::ReportCommandError(e) => DirectiveView::ReportCommandError(*e),
            Directive::ShowResponse { source, resp } => DirectiveView::ShowResponse {
                source: source@,
                resp: resp@,
            },
            Directive::ShowChat { source, msg } => DirectiveView::ShowChat {
                source: source@,
                msg: msg@,
            },
            Directive::Produce { requester } => DirectiveView::Produce { requester: requester@ },
            Directive::Ignore => DirectiveView::Ignore,
        }
    }
}

/// What each operator command becomes: a print, a published request, a
/// prompt, a store mutation, or a reported input error.
pub open spec fn dispatch_spec(line: Seq<char>) -> DirectiveView {
    match parse_command_spec(line) {
        Ok(CommandView::ListPeers) => DirectiveView::ShowPeers,
        Ok(CommandView::Chat) => DirectiveView::PromptChat,
        Ok(CommandView::ListLocal) => DirectiveView::ShowLocalCatalog,
        Ok(CommandView::ListAll) => DirectiveView::Publish(enc_request(ModeView::All)),
        Ok(CommandView::ListOne(t)) => DirectiveView::Publish(enc_request(ModeView::One(t))),
        Ok(CommandView::CreateSong) => DirectiveView::PromptCreate,
        Ok(CommandView::DeleteSong(n)) => DirectiveView::DoDelete(n),
        Ok(CommandView::PublishSong(n)) => DirectiveView::DoPublish(n),
        Ok(CommandView::PrivateSong(n)) => DirectiveView::DoPrivate(n),
        Err(e) => DirectiveView::ReportCommandError(e),
    }
}

/// How an inbound payload is classified and filtered: response first,
/// then request, then free text; a response is shown only when addressed
/// to this node, a targeted request produces a response only at its
/// target, and anything else is expected background noise.
pub open spec fn classify_spec(
    self_id: Seq<char>,
    source: Seq<char>,
    payload: Seq<char>,
) -> DirectiveView {
    if p_response_doc(payload) is Some {
        let r = p_response_doc(payload)->Some_0;
        if r.receiver == self_id {
            DirectiveView::ShowResponse { source, resp: r }
        } else {
            DirectiveView::Ignore
        }
    } else if p_request_doc(payload) is Some {
        match p_request_doc(payload)->Some_0 {
            ModeView::All => DirectiveView::Produce { requester: source },
            ModeView::One(t) => if t == self_id {
                DirectiveView::Produce { requester: source }
            } else {
                DirectiveView::Ignore
            },
        }
    } else if p_chat_doc(payload) is Some {
        DirectiveView::ShowChat { source, msg: p_chat_doc(payload)->Some_0 }
    } else {
        DirectiveView::Ignore
    }
}

/// The coordinator's whole decision function.  A completed response is
/// re-published as its canonical payload, unaltered.
pub open spec fn handle_event_spec(self_id: Seq<char>, ev: EventView) -> DirectiveView {
    match ev {
        EventView::Input(line) => dispatch_spec(line),
        EventView::ResponseReady(r) => DirectiveView::Publish(enc_response(r)),
        EventView::Inbound { source, payload } => classify_spec(self_id, source, payload),
    }
}

/// Decides one event.
pub fn handle_event(self_id: &String, ev: Event) -> (r: Directive)
    ensures
        r@ == handle_event_spec(self_id@, ev@),
{
    match ev {
        Event::Input(line) => match parse_command(line.as_str()) {
            Ok(Command::ListPeers) => Directive::ShowPeers,
            Ok(Command::Chat) => Directive::PromptChat,
            Ok(Command::ListLocal) => Directive::ShowLocalCatalog,
            Ok(Command::ListAll) => Directive::Publish(
                encode_request(&ListRequest { mode: ListMode::All }),
            ),
            Ok(Command::ListOne(t)) => Directive::Publish(
                encode_request(&ListRequest { mode: ListMode::One(t) }),
            ),
            Ok(Command::CreateSong) => Directive::PromptCreate,
            Ok(Command::DeleteSong(n)) => Directive::DoDelete(n),
            Ok(Command::PublishSong(n)) => Directive::DoPublish(n),
            Ok(Command::PrivateSong(n)) => Directive::DoPrivate(n),
            Err(e) => Directive::ReportCommandError(e),
        },
        Event::ResponseReady(resp) => Directive::Publish(encode_response(&resp)),
        Event::Inbound { source, payload } => {
            let cs = str_chars(payload.as_str());
            match parse_response_doc(&cs) {
                Some(resp) => {
                    if resp.receiver == *self_id {
                        Directive::ShowResponse { source, resp }
                    } else {
                        Directive::Ignore
                    }
                },
                None => match parse_request_doc(&cs) {
                    Some(req) => match req.mode {
                        ListMode::All => Directive::Produce { requester: source },
                        ListMode::One(t) => {
                            if t == *self_id {
                                Directive::Produce { requester: source }
                            } else {
                                Directive::Ignore
                            }
                        },
                    },
                    None => match parse_chat_doc(&cs) {
                        Some(chat) => Directive::ShowChat { source, msg: chat.msg },
                        None => Directive::Ignore,
                    },
                },
            }
        },
    }
}

} // verus!
