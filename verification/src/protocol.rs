//! The three wire message shapes and the rules that say which inbound
//! messages a node acts on.

use crate::codec::{ModeView, ResponseView};
use crate::song::{catalog_view, Song};
use vstd::prelude::*;

verus! {

/// Whose songs a request asks for: every peer's, or one peer's.
pub enum ListMode {
    All,
    One(String),
}

impl View for ListMode {
    type V = ModeView;

    open spec fn view(&self) -> ModeView {
        match self {
            ListMode::All => ModeView::All,
            ListMode::One(t) => ModeView::One(t@),
        }
    }
}

/// A request for public songs, broadcast to every peer.
pub struct ListRequest {
    pub mode: ListMode,
}

impl View for ListRequest {
    type V = ModeView;

    open spec fn view(&self) -> ModeView {
        self.mode@
    }
}

/// A response carrying public songs, addressed to one requester.
pub struct ListResponse {
    pub mode: ListMode,
    pub data: Vec<Song>,
    pub receiver: String,
}

impl View for ListResponse {
    type V = ResponseView;

    open spec fn view(&self) -> ResponseView {
        ResponseView { mode: self.mode@, data: catalog_view(self.data@), receiver: self.receiver@ }
    }
}

/// Builds the response a producer completes for one accepted request:
/// the given public snapshot, mode `All`, addressed to the requester by
/// identity.
pub fn produce_response(public_songs: Vec<Song>, requester: &String) -> (r: ListResponse)
    ensures
        r@.mode == ModeView::All,
        r@.data == catalog_view(public_songs@),
        r@.receiver == requester@,
{
    ListResponse { mode: ListMode::All, data: public_songs, receiver: requester.clone() }
}

/// An unaddressed free-text message, shown by every subscriber.
pub struct ChatMessage {
    pub msg: String,
}

impl View for ChatMessage {
    type V = Seq<char>;

    open spec fn view(&self) -> Seq<char> {
        self.msg@
    }
}

} // verus!
