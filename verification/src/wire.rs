//! Executable encoding and parsing of the catalog document and the wire
//! messages, proved equal to the grammar in `codec`.

use crate::codec::{
    all_lit, digit_char, enc_bool, enc_catalog, enc_chat, enc_items, enc_items_rest, enc_mode,
    enc_nat, enc_request, enc_response, enc_song, enc_str_body, enc_string, esc_char, hex_char,
    lemma_enc_items_concat, lemma_enc_str_body_concat, lit_artist, lit_data, lit_explicit,
    lit_lyrics, lit_mode_open, lit_msg_open, lit_one_open, lit_public, lit_receiver,
    lit_song_open, lit_title, ModeView,
};
use crate::protocol::{ChatMessage, ListMode, ListRequest, ListResponse};
use crate::song::{catalog_view, Song, SongView};
use crate::text::{chars_to_string, str_chars};
use vstd::prelude::*;

verus! {

// ---------------------------------------------------------------------
// Encoders
// ---------------------------------------------------------------------

fn digit_char_exec(d: usize) -> (r: char)
    requires
        d < 10,
    ensures
        r == digit_char(d as int),
{
    if d == 0 {
        '0'
    } else if d == 1 {
        '1'
    } else if d == 2 {
        '2'
    } else if d == 3 {
        '3'
    } else if d == 4 {
        '4'
    } else if d == 5 {
        '5'
    } else if d == 6 {
        '6'
    } else if d == 7 {
        '7'
    } else if d == 8 {
        '8'
    } else {
        '9'
    }
}

fn hex_char_exec(d: u32) -> (r: char)
    requires
        d < 16,
    ensures
        r == hex_char(d as int),
{
    if d < 10 {
        digit_char_exec(d as usize)
    } else if d == 10 {
        'a'
    } else if d == 11 {
        'b'
    } else if d == 12 {
        'c'
    } else if d == 13 {
        'd'
    } else if d == 14 {
        'e'
    } else {
        'f'
    }
}

/// Appends the characters of `s`.
fn push_str_chars(out: &mut Vec<char>, s: &str)
    ensures
        final(out)@ == old(out)@ + s@,
{
    let cs = str_chars(s);
    let mut i: usize = 0;
    while i < cs.len()
        invariant
            i <= cs.len(),
            cs@ == s@,
            out@ == old(out)@ + s@.take(i as int),
        decreases cs.len() - i,
    {
        out.push(cs[i]);
        i = i + 1;
        proof {
            assert(old(out)@ + s@.take(i as int) =~= (old(out)@ + s@.take(i - 1)).push(s@[i - 1]));
        }
    }
    proof {
        assert(out@ =~= old(out)@ + s@);
    }
}

/// Appends the JSON escape of one character.
fn push_esc(out: &mut Vec<char>, c: char)
    ensures
        final(out)@ == old(out)@ + esc_char(c),
{
    if c == '"' {
        out.push('\\');
        out.push('"');
    } else if c == '\\' {
        out.push('\\');
        out.push('\\');
    } else if c == '\u{8}' {
        out.push('\\');
        out.push('b');
    } else if c == '\u{c}' {
        out.push('\\');
        out.push('f');
    } else if c == '\n' {
        out.push('\\');
        out.push('n');
    } else if c == '\r' {
        out.push('\\');
        out.push('r');
    } else if c == '\t' {
        out.push('\\');
        out.push('t');
    } else {
        let v: u32 = c as u32;
        if v < 32 {
            out.push('\\');
            out.push('u');
            out.push('0');
            out.push('0');
            out.push(hex_char_exec(v / 16));
            out.push(hex_char_exec(v % 16));
        } else {
            out.push(c);
        }
    }
    proof {
        assert(out@ =~= old(out)@ + esc_char(c));
    }
}

/// Appends the body of a JSON string literal.
fn push_str_body(out: &mut Vec<char>, s: &Vec<char>)
    ensures
        final(out)@ == old(out)@ + enc_str_body(s@),
{
    let mut i: usize = 0;
    proof {
        assert(s@.take(0) =~= Seq::<char>::empty());
    }
    while i < s.len()
        invariant
            i <= s.len(),
            out@ == old(out)@ + enc_str_body(s@.take(i as int)),
        decreases s.len() - i,
    {
        push_esc(out, s[i]);
        i = i + 1;
        proof {
            let a = s@.take(i - 1);
            let b = seq![s@[i - 1]];
            lemma_enc_str_body_concat(a, b);
            assert(b.drop_first() =~= Seq::<char>::empty());
            assert(enc_str_body(Seq::<char>::empty()) == Seq::<char>::empty());
            assert(enc_str_body(b) =~= esc_char(s@[i - 1]));
            assert(s@.take(i as int) =~= a + b);
        }
    }
    proof {
        assert(s@.take(s@.len() as int) =~= s@);
    }
}

/// Appends a JSON string literal.
fn push_string(out: &mut Vec<char>, s: &Vec<char>)
    ensures
        final(out)@ == old(out)@ + enc_string(s@),
{
    out.push('"');
    push_str_body(out, s);
    out.push('"');
    proof {
        assert(out@ =~= old(out)@ + enc_string(s@));
    }
}

/// Appends a non-negative decimal number.
pub(crate) fn push_nat(out: &mut Vec<char>, n: usize)
    ensures
        final(out)@ == old(out)@ + enc_nat(n as int),
    decreases n,
{
    if n < 10 {
        out.push(digit_char_exec(n));
        proof {
            assert(out@ =~= old(out)@ + enc_nat(n as int));
        }
    } else {
        push_nat(out, n / 10);
        out.push(digit_char_exec(n % 10));
        proof {
            assert(out@ =~= old(out)@ + enc_nat(n as int));
        }
    }
}

/// Appends a JSON boolean.
fn push_bool(out: &mut Vec<char>, b: bool)
    ensures
        final(out)@ == old(out)@ + enc_bool(b),
{
    if b {
        push_str_chars(out, "true");
        proof {
            reveal_strlit("true");
            assert(out@ =~= old(out)@ + enc_bool(b));
        }
    } else {
        push_str_chars(out, "false");
        proof {
            reveal_strlit("false");
            assert(out@ =~= old(out)@ + enc_bool(b));
        }
    }
}

/// Appends one song object.
#[verifier::rlimit(100)]
fn push_song(out: &mut Vec<char>, song: &Song)
    ensures
        final(out)@ == old(out)@ + enc_song(song@),
{
    push_str_chars(out, "{\"id\":");
    push_nat(out, song.id);
    push_str_chars(out, ",\"title\":");
    let tc = str_chars(song.title.as_str());
    push_string(out, &tc);
    push_str_chars(out, ",\"artist\":");
    let ac = str_chars(song.artist.as_str());
    push_string(out, &ac);
    push_str_chars(out, ",\"lyrics\":");
    let lc = str_chars(song.lyrics.as_str());
    push_string(out, &lc);
    push_str_chars(out, ",\"explicit\":");
    let ec = str_chars(song.explicit.as_str());
    push_string(out, &ec);
    push_str_chars(out, ",\"public\":");
    push_bool(out, song.public);
    out.push('}');
    proof {
        reveal_strlit("{\"id\":");
        reveal_strlit(",\"title\":");
        reveal_strlit(",\"artist\":");
        reveal_strlit(",\"lyrics\":");
        reveal_strlit(",\"explicit\":");
        reveal_strlit(",\"public\":");
        assert("{\"id\":"@ =~= lit_song_open());
        assert(",\"title\":"@ =~= lit_title());
        assert(",\"artist\":"@ =~= lit_artist());
        assert(",\"lyrics\":"@ =~= lit_lyrics());
        assert(",\"explicit\":"@ =~= lit_explicit());
        assert(",\"public\":"@ =~= lit_public());
        assert(out@ =~= old(out)@ + enc_song(song@));
    }
}

/// Appends a catalog document.
fn push_catalog(out: &mut Vec<char>, songs: &Vec<Song>)
    ensures
        final(out)@ == old(out)@ + enc_catalog(catalog_view(songs@)),
{
    let ghost views = catalog_view(songs@);
    out.push('[');
    if songs.len() > 0 {
        push_song(out, &songs[0]);
        proof {
            assert(views.take(1) =~= seq![views[0]]);
            assert(views.take(1).drop_first() =~= Seq::<SongView>::empty());
            assert(enc_items(views.take(1)) =~= enc_song(views[0]));
            assert(out@ =~= old(out)@ + seq!['['] + enc_items(views.take(1)));
        }
        let mut i: usize = 1;
        while i < songs.len()
            invariant
                1 <= i <= songs.len(),
                views == catalog_view(songs@),
                views.len() == songs@.len(),
                out@ == old(out)@ + seq!['['] + enc_items(views.take(i as int)),
            decreases songs.len() - i,
        {
            out.push(',');
            push_song(out, &songs[i]);
            proof {
                let a = views.take(i as int);
                let b = seq![views[i as int]];
                lemma_enc_items_concat(a, b);
                assert(b.drop_first() =~= Seq::<SongView>::empty());
                assert(enc_items_rest(Seq::<SongView>::empty()) == Seq::<char>::empty());
                assert(enc_items_rest(b) =~= seq![','] + enc_song(views[i as int]));
                assert(views.take(i as int + 1) =~= a + b);
                assert(out@ =~= old(out)@ + seq!['['] + enc_items(views.take(i as int + 1)));
            }
            i = i + 1;
        }
        proof {
            assert(views.take(views.len() as int) =~= views);
        }
    }
    out.push(']');
    proof {
        assert(out@ =~= old(out)@ + enc_catalog(views));
    }
}

/// The persisted catalog document for `songs`: a JSON array of songs.
pub fn encode_catalog(songs: &Vec<Song>) -> (r: String)
    ensures
        r@ == enc_catalog(catalog_view(songs@)),
{
    let mut out: Vec<char> = Vec::new();
    push_catalog(&mut out, songs);
    proof {
        assert(out@ =~= enc_catalog(catalog_view(songs@)));
    }
    chars_to_string(&out)
}

/// Appends a request mode.
fn push_mode(out: &mut Vec<char>, mode: &ListMode)
    ensures
        final(out)@ == old(out)@ + enc_mode(mode@),
{
    match mode {
        ListMode::All => {
            push_str_chars(out, "\"ALL\"");
            proof {
                reveal_strlit("\"ALL\"");
                assert("\"ALL\""@ =~= all_lit());
                assert(out@ =~= old(out)@ + enc_mode(mode@));
            }
        },
        ListMode::One(t) => {
            push_str_chars(out, "{\"One\":");
            let tc = str_chars(t.as_str());
            push_string(out, &tc);
            out.push('}');
            proof {
                reveal_strlit("{\"One\":");
                assert("{\"One\":"@ =~= lit_one_open());
                assert(out@ =~= old(out)@ + enc_mode(mode@));
            }
        },
    }
}

/// The wire payload of a request.
pub fn encode_request(req: &ListRequest) -> (r: String)
    ensures
        r@ == enc_request(req@),
{
    let mut out: Vec<char> = Vec::new();
    push_str_chars(&mut out, "{\"mode\":");
    push_mode(&mut out, &req.mode);
    out.push('}');
    proof {
        reveal_strlit("{\"mode\":");
        assert("{\"mode\":"@ =~= lit_mode_open());
        assert(out@ =~= enc_request(req@));
    }
    chars_to_string(&out)
}

/// The wire payload of a response.
#[verifier::rlimit(100)]
pub fn encode_response(resp: &ListResponse) -> (r: String)
    ensures
        r@ == enc_response(resp@),
{
    let mut out: Vec<char> = Vec::new();
    push_str_chars(&mut out, "{\"mode\":");
    push_mode(&mut out, &resp.mode);
    push_str_chars(&mut out, ",\"data\":");
    push_catalog(&mut out, &resp.data);
    push_str_chars(&mut out, ",\"receiver\":");
    let rc = str_chars(resp.receiver.as_str());
    push_string(&mut out, &rc);
    out.push('}');
    proof {
        reveal_strlit("{\"mode\":");
        reveal_strlit(",\"data\":");
        reveal_strlit(",\"receiver\":");
        assert("{\"mode\":"@ =~= lit_mode_open());
        assert(",\"data\":"@ =~= lit_data());
        assert(",\"receiver\":"@ =~= lit_receiver());
        assert(out@ =~= enc_response(resp@));
    }
    chars_to_string(&out)
}

/// The wire payload of a free-text message.
pub fn encode_chat(chat: &ChatMessage) -> (r: String)
    ensures
        r@ == enc_chat(chat@),
{
    let mut out: Vec<char> = Vec::new();
    push_str_chars(&mut out, "{\"msg\":");
    let mc = str_chars(chat.msg.as_str());
    push_string(&mut out, &mc);
    out.push('}');
    proof {
        reveal_strlit("{\"msg\":");
        assert("{\"msg\":"@ =~= lit_msg_open());
        assert(out@ =~= enc_chat(chat@));
    }
    chars_to_string(&out)
}

} // verus!
