//! Executable parsers for the catalog document and the wire messages,
//! proved equal to the grammar in `codec`.

use crate::codec::{
    digits_len, digits_val, is_digit, p_bool, p_catalog, p_catalog_doc, p_chat_doc, p_lit,
    p_mode, p_request_doc, p_response_doc, p_song, p_str_body, p_string, p_usize, p_items,
    hex_val, named_esc,
};
use crate::protocol::{ChatMessage, ListMode, ListRequest, ListResponse};
use crate::song::{catalog_view, Song};
use crate::text::{chars_to_string, str_chars};
use vstd::prelude::*;

verus! {

fn is_ctl_exec(c: char) -> (r: bool)
    ensures
        r == (0 <= (c as int) && (c as int) < 32),
{
    (c as u32) < 32
}

pub(crate) fn is_digit_exec(c: char) -> (r: bool)
    ensures
        r == is_digit(c),
{
    let u: u32 = c as u32;
    48 <= u && u <= 57
}

fn hex_val_exec(c: char) -> (r: Option<u32>)
    ensures
        match r {
            Some(x) => hex_val(c) == x as int && x < 16,
            None => hex_val(c) < 0,
        },
{
    let u: u32 = c as u32;
    if 48 <= u && u <= 57 {
        Some(u - 48)
    } else if 97 <= u && u <= 102 {
        Some(u - 87)
    } else if 65 <= u && u <= 70 {
        Some(u - 55)
    } else {
        None
    }
}

/// Consumes the literal `lit` at position `i`, or fails.
#[verifier::loop_isolation(false)]
fn p_lit_exec(v: &Vec<char>, i: usize, lit: &str) -> (r: Option<usize>)
    requires
        i <= v@.len(),
    ensures
        match r {
            Some(j) => i <= j <= v@.len() && p_lit(v@.skip(i as int), lit@) == Some(
                v@.skip(j as int),
            ),
            None => p_lit(v@.skip(i as int), lit@) is None,
        },
{
    let lc = str_chars(lit);
    if v.len() - i < lc.len() {
        return None;
    }
    let mut k: usize = 0;
    while k < lc.len()
        invariant
            k <= lc.len(),
            lc.len() <= v@.len() - i,
            i <= v@.len(),
            lc@ == lit@,
            forall|m: int| 0 <= m < k ==> v@[i + m] == lit@[m],
        decreases lc.len() - k,
    {
        if v[i + k] != lc[k] {
            proof {
                let input = v@.skip(i as int);
                if input.len() >= lit@.len() && input.take(lit@.len() as int) == lit@ {
                    assert(input.take(lit@.len() as int)[k as int] == lit@[k as int]);
                    assert(input[k as int] == v@[i + k]);
                    assert(false);
                }
            }
            return None;
        }
        k = k + 1;
    }
    proof {
        let input = v@.skip(i as int);
        assert(input.take(lit@.len() as int) =~= lit@);
        assert(input.skip(lit@.len() as int) =~= v@.skip(i + lit@.len()));
    }
    Some(i + lc.len())
}

/// Parses a number at position `i`.
#[verifier::loop_isolation(false)]
fn p_usize_exec(v: &Vec<char>, i: usize) -> (r: Option<(usize, usize)>)
    requires
        i <= v@.len(),
    ensures
        match r {
            Some((n, j)) => i <= j <= v@.len() && p_usize(v@.skip(i as int)) == Some(
                (n as int, v@.skip(j as int)),
            ),
            None => p_usize(v@.skip(i as int)) is None,
        },
{
    let ghost input = v@.skip(i as int);
    let mut j: usize = i;
    let mut acc: usize = 0;
    let mut overflow: bool = false;
    while j < v.len() && is_digit_exec(v[j])
        invariant
            i <= j <= v@.len(),
            input == v@.skip(i as int),
            digits_len(input) == (j - i) + digits_len(v@.skip(j as int)),
            forall|m: int| 0 <= m < j - i ==> is_digit(#[trigger] input[m]),
            !overflow ==> acc == digits_val(input.take(j - i)),
            overflow ==> digits_val(input.take(j - i)) > usize::MAX as int,
        decreases v@.len() - j,
    {
        let d: usize = ((v[j] as u32) - 48) as usize;
        proof {
            assert(input[j - i] == v@[j as int]);
            assert(input.take(j - i + 1).drop_last() =~= input.take(j - i));
            assert(input.take(j - i + 1).last() == v@[j as int]);
            assert(digits_val(input.take(j - i + 1)) == digits_val(input.take(j - i)) * 10 + (
            d as int));
            assert(v@.skip(j as int).drop_first() =~= v@.skip(j as int + 1));
            assert(v@.skip(j as int)[0] == v@[j as int]);
        }
        if !overflow {
            if acc <= (usize::MAX - d) / 10 {
                proof {
                    vstd::arithmetic::div_mod::lemma_fundamental_div_mod(
                        (usize::MAX - d) as int,
                        10,
                    );
                }
                acc = acc * 10 + d;
            } else {
                proof {
                    vstd::arithmetic::div_mod::lemma_fundamental_div_mod(
                        (usize::MAX - d) as int,
                        10,
                    );
                    assert(acc * 10 + d > usize::MAX as int);
                }
                overflow = true;
            }
        } else {
            proof {
                let prev = digits_val(input.take(j - i));
                assert(prev * 10 + (d as int) > usize::MAX as int) by (nonlinear_arith)
                    requires
                        prev > usize::MAX as int,
                        d as int >= 0,
                ;
            }
        }
        j = j + 1;
    }
    proof {
        assert(digits_len(v@.skip(j as int)) == 0);
        assert(digits_len(input) == j - i);
    }
    if j == i {
        return None;
    }
    if overflow {
        return None;
    }
    proof {
        assert(input.skip(j - i) =~= v@.skip(j as int));
    }
    Some((acc, j))
}

/// Parses a string literal at position `i`.
#[verifier::loop_isolation(false)]
fn p_string_exec(v: &Vec<char>, i: usize) -> (r: Option<(Vec<char>, usize)>)
    requires
        i <= v@.len(),
    ensures
        match r {
            Some((s, j)) => i <= j <= v@.len() && p_string(v@.skip(i as int)) == Some(
                (s@, v@.skip(j as int)),
            ),
            None => p_string(v@.skip(i as int)) is None,
        },
{
    if i == v.len() || v[i] != '"' {
        proof {
            if i < v@.len() {
                assert(v@.skip(i as int)[0] == v@[i as int]);
            }
        }
        return None;
    }
    proof {
        assert(v@.skip(i as int)[0] == '"');
        assert(v@.skip(i as int).drop_first() =~= v@.skip(i as int + 1));
    }
    let mut cur: usize = i + 1;
    let mut out: Vec<char> = Vec::new();
    proof {
        match p_str_body(v@.skip(i as int + 1)) {
            Some((s, rem)) => {
                assert(Seq::<char>::empty() + s =~= s);
            },
            None => {},
        }
    }
    loop
        invariant
            i + 1 <= cur <= v@.len(),
            p_str_body(v@.skip(i as int + 1)) == match p_str_body(v@.skip(cur as int)) {
                Some((s, rem)) => Some((out@ + s, rem)),
                None => None::<(Seq<char>, Seq<char>)>,
            },
        decreases v@.len() - cur,
    {
        if cur == v.len() {
            return None;
        }
        let c = v[cur];
        proof {
            assert(v@.skip(cur as int)[0] == c);
        }
        if c == '"' {
            proof {
                assert(v@.skip(cur as int).drop_first() =~= v@.skip(cur as int + 1));
                assert(out@ + Seq::<char>::empty() =~= out@);
            }
            return Some((out, cur + 1));
        } else if c == '\\' {
            if v.len() - cur < 2 {
                return None;
            }
            let e = v[cur + 1];
            proof {
                assert(v@.skip(cur as int)[1] == e);
            }
            if e == 'u' {
                if v.len() - cur < 6 {
                    return None;
                }
                proof {
                    assert(v@.skip(cur as int)[2] == v@[cur + 2]);
                    assert(v@.skip(cur as int)[3] == v@[cur + 3]);
                    assert(v@.skip(cur as int)[4] == v@[cur + 4]);
                    assert(v@.skip(cur as int)[5] == v@[cur + 5]);
                }
                let h2 = hex_val_exec(v[cur + 2]);
                let h3 = hex_val_exec(v[cur + 3]);
                let h4 = hex_val_exec(v[cur + 4]);
                let h5 = hex_val_exec(v[cur + 5]);
                match (h2, h3, h4, h5) {
                    (Some(a), Some(b), Some(cc), Some(dd)) => {
                        let val: u32 = a * 4096 + b * 256 + cc * 16 + dd;
                        if val < 128 {
                            let dc: char = (val as u8) as char;
                            let ghost out0 = out@;
                            out.push(dc);
                            proof {
                                assert(v@.skip(cur as int).skip(6) =~= v@.skip(cur as int + 6));
                                match p_str_body(v@.skip(cur as int + 6)) {
                                    Some((s2, rem)) => {
                                        assert(out0 + (seq![dc] + s2) =~= out@ + s2);
                                    },
                                    None => {},
                                }
                            }
                            cur = cur + 6;
                        } else {
                            return None;
                        }
                    },
                    _ => {
                        return None;
                    },
                }
            } else {
                let dc: char = match e {
                    '"' => '"',
                    '\\' => '\\',
                    '/' => '/',
                    'b' => '\u{8}',
                    'f' => '\u{c}',
                    'n' => '\n',
                    'r' => '\r',
                    't' => '\t',
                    _ => {
                        proof {
                            assert(named_esc(e) is None);
                        }
                        return None;
                    },
                };
                proof {
                    assert(named_esc(e) == Some(dc));
                }
                let ghost out0 = out@;
                out.push(dc);
                proof {
                    assert(v@.skip(cur as int).skip(2) =~= v@.skip(cur as int + 2));
                    match p_str_body(v@.skip(cur as int + 2)) {
                        Some((s2, rem)) => {
                            assert(out0 + (seq![dc] + s2) =~= out@ + s2);
                        },
                        None => {},
                    }
                }
                cur = cur + 2;
            }
        } else if is_ctl_exec(c) {
            return None;
        } else {
            let ghost out0 = out@;
            out.push(c);
            proof {
                assert(v@.skip(cur as int).skip(1) =~= v@.skip(cur as int + 1));
                match p_str_body(v@.skip(cur as int + 1)) {
                    Some((s2, rem)) => {
                        assert(out0 + (seq![c] + s2) =~= out@ + s2);
                    },
                    None => {},
                }
            }
            cur = cur + 1;
        }
    }
}

/// Parses a boolean at position `i`.
fn p_bool_exec(v: &Vec<char>, i: usize) -> (r: Option<(bool, usize)>)
    requires
        i <= v@.len(),
    ensures
        match r {
            Some((b, j)) => i <= j <= v@.len() && p_bool(v@.skip(i as int)) == Some(
                (b, v@.skip(j as int)),
            ),
            None => p_bool(v@.skip(i as int)) is None,
        },
{
    proof {
        reveal_strlit("true");
        reveal_strlit("false");
        assert("true"@ =~= crate::codec::true_lit());
        assert("false"@ =~= crate::codec::false_lit());
    }
    match p_lit_exec(v, i, "true") {
        Some(j) => Some((true, j)),
        None => match p_lit_exec(v, i, "false") {
            Some(j) => Some((false, j)),
            None => None,
        },
    }
}

/// Parses a request mode at position `i`.
fn p_mode_exec(v: &Vec<char>, i: usize) -> (r: Option<(ListMode, usize)>)
    requires
        i <= v@.len(),
    ensures
        match r {
            Some((m, j)) => i <= j <= v@.len() && p_mode(v@.skip(i as int)) == Some(
                (m@, v@.skip(j as int)),
            ),
            None => p_mode(v@.skip(i as int)) is None,
        },
{
    proof {
        reveal_strlit("\"ALL\"");
        reveal_strlit("{\"One\":");
        reveal_strlit("}");
        assert("\"ALL\""@ =~= crate::codec::all_lit());
        assert("{\"One\":"@ =~= crate::codec::lit_one_open());
        assert("}"@ =~= seq!['}']);
    }
    match p_lit_exec(v, i, "\"ALL\"") {
        Some(j) => Some((ListMode::All, j)),
        None => match p_lit_exec(v, i, "{\"One\":") {
            None => None,
            Some(r1) => match p_string_exec(v, r1) {
                None => None,
                Some((t, r2)) => match p_lit_exec(v, r2, "}") {
                    None => None,
                    Some(j) => {
                        let s = chars_to_string(&t);
                        Some((ListMode::One(s), j))
                    },
                },
            },
        },
    }
}

/// Parses one song object at position `i`.
fn p_song_exec(v: &Vec<char>, i: usize) -> (r: Option<(Song, usize)>)
    requires
        i <= v@.len(),
    ensures
        match r {
            Some((song, j)) => i <= j <= v@.len() && p_song(v@.skip(i as int)) == Some(
                (song@, v@.skip(j as int)),
            ),
            None => p_song(v@.skip(i as int)) is None,
        },
{
    proof {
        reveal_strlit("{\"id\":");
        reveal_strlit(",\"title\":");
        reveal_strlit(",\"artist\":");
        reveal_strlit(",\"lyrics\":");
        reveal_strlit(",\"explicit\":");
        reveal_strlit(",\"public\":");
        reveal_strlit("}");
        assert("{\"id\":"@ =~= crate::codec::lit_song_open());
        assert(",\"title\":"@ =~= crate::codec::lit_title());
        assert(",\"artist\":"@ =~= crate::codec::lit_artist());
        assert(",\"lyrics\":"@ =~= crate::codec::lit_lyrics());
        assert(",\"explicit\":"@ =~= crate::codec::lit_explicit());
        assert(",\"public\":"@ =~= crate::codec::lit_public());
        assert("}"@ =~= seq!['}']);
    }
    match p_lit_exec(v, i, "{\"id\":") {
        None => None,
        Some(r1) => match p_usize_exec(v, r1) {
            None => None,
            Some((id, r2)) => match p_lit_exec(v, r2, ",\"title\":") {
                None => None,
                Some(r3) => match p_string_exec(v, r3) {
                    None => None,
                    Some((title, r4)) => match p_lit_exec(v, r4, ",\"artist\":") {
                        None => None,
                        Some(r5) => match p_string_exec(v, r5) {
                            None => None,
                            Some((artist, r6)) => match p_lit_exec(v, r6, ",\"lyrics\":") {
                                None => None,
                                Some(r7) => match p_string_exec(v, r7) {
                                    None => None,
                                    Some((lyrics, r8)) => match p_lit_exec(v, r8, ",\"explicit\":") {
                                        None => None,
                                        Some(r9) => match p_string_exec(v, r9) {
                                            None => None,
                                            Some((explicit, r10)) => match p_lit_exec(
                                                v,
                                                r10,
                                                ",\"public\":",
                                            ) {
                                                None => None,
                                                Some(r11) => match p_bool_exec(v, r11) {
                                                    None => None,
                                                    Some((public, r12)) => match p_lit_exec(
                                                        v,
                                                        r12,
                                                        "}",
                                                    ) {
                                                        None => None,
                                                        Some(j) => {
                                                            let song = Song {
                                                                id,
                                                                title: chars_to_string(&title),
                                                                artist: chars_to_string(&artist),
                                                                lyrics: chars_to_string(&lyrics),
                                                                explicit: chars_to_string(
                                                                    &explicit,
                                                                ),
                                                                public,
                                                            };
                                                            Some((song, j))
                                                        },
                                                    },
                                                },
                                            },
                                        },
                                    },
                                },
                            },
                        },
                    },
                },
            },
        },
    }
}

/// Parses a catalog document at position `i`.
#[verifier::rlimit(100)]
#[verifier::spinoff_prover]
#[verifier::loop_isolation(false)]
fn p_catalog_exec(v: &Vec<char>, i: usize) -> (r: Option<(Vec<Song>, usize)>)
    requires
        i <= v@.len(),
    ensures
        match r {
            Some((songs, j)) => i <= j <= v@.len() && p_catalog(v@.skip(i as int)) == Some(
                (catalog_view(songs@), v@.skip(j as int)),
            ),
            None => p_catalog(v@.skip(i as int)) is None,
        },
{
    proof {
        reveal_strlit("[");
        assert("["@ =~= seq!['[']);
    }
    match p_lit_exec(v, i, "[") {
        None => None,
        Some(r1) => {
            if r1 < v.len() && v[r1] == ']' {
                proof {
                    assert(v@.skip(r1 as int)[0] == ']');
                    assert(v@.skip(r1 as int).drop_first() =~= v@.skip(r1 as int + 1));
                    assert(catalog_view(Seq::<Song>::empty()) =~= Seq::<crate::song::SongView>::empty());
                }
                let songs: Vec<Song> = Vec::new();
                return Some((songs, r1 + 1));
            }
            proof {
                if v@.skip(r1 as int).len() > 0 {
                    assert(v@.skip(r1 as int)[0] == v@[r1 as int]);
                }
            }
            let mut songs: Vec<Song> = Vec::new();
            let mut cur: usize = r1;
            proof {
                match p_items(v@.skip(r1 as int)) {
                    Some((ss, rem)) => {
                        assert(catalog_view(songs@) + ss =~= ss);
                    },
                    None => {},
                }
            }
            loop
                invariant
                    i <= r1 <= cur <= v@.len(),
                    p_items(v@.skip(r1 as int)) == match p_items(v@.skip(cur as int)) {
                        Some((ss, rem)) => Some((catalog_view(songs@) + ss, rem)),
                        None => None::<(Seq<crate::song::SongView>, Seq<char>)>,
                    },
                    p_catalog(v@.skip(i as int)) == p_items(v@.skip(r1 as int)),
                decreases v@.len() - cur,
            {
                match p_song_exec(v, cur) {
                    None => {
                        return None;
                    },
                    Some((song, j)) => {
                        if j < v.len() && v[j] == ',' {
                            proof {
                                assert(v@.skip(j as int)[0] == ',');
                                assert(v@.skip(j as int).drop_first() =~= v@.skip(j as int + 1));
                            }
                            let ghost songs0 = songs@;
                            songs.push(song);
                            proof {
                                match p_items(v@.skip(j as int + 1)) {
                                    Some((ss, rem)) => {
                                        assert(catalog_view(songs0) + (seq![song@] + ss)
                                            =~= catalog_view(songs@) + ss);
                                    },
                                    None => {},
                                }
                            }
                            cur = j + 1;
                        } else if j < v.len() && v[j] == ']' {
                            proof {
                                assert(v@.skip(j as int)[0] == ']');
                                assert(v@.skip(j as int).drop_first() =~= v@.skip(j as int + 1));
                            }
                            let ghost songs0 = songs@;
                            songs.push(song);
                            proof {
                                assert(catalog_view(songs0) + seq![song@] =~= catalog_view(
                                    songs@,
                                ));
                            }
                            return Some((songs, j + 1));
                        } else {
                            proof {
                                if v@.skip(j as int).len() > 0 {
                                    assert(v@.skip(j as int)[0] == v@[j as int]);
                                }
                            }
                            return None;
                        }
                    },
                }
            }
        },
    }
}

/// Reads a persisted catalog document; fails on anything but one whole,
/// well-formed catalog.
pub fn parse_catalog_doc(doc: &str) -> (r: Option<Vec<Song>>)
    ensures
        match r {
            Some(songs) => p_catalog_doc(doc@) == Some(catalog_view(songs@)),
            None => p_catalog_doc(doc@) is None,
        },
{
    let cs = str_chars(doc);
    proof {
        assert(cs@.skip(0) =~= doc@);
    }
    match p_catalog_exec(&cs, 0) {
        None => None,
        Some((songs, j)) => {
            if j == cs.len() {
                proof {
                    assert(cs@.skip(j as int).len() == 0);
                }
                Some(songs)
            } else {
                proof {
                    assert(cs@.skip(j as int).len() > 0);
                }
                None
            }
        },
    }
}

/// Reads a payload that is exactly one request.
pub fn parse_request_doc(v: &Vec<char>) -> (r: Option<ListRequest>)
    ensures
        match r {
            Some(req) => p_request_doc(v@) == Some(req@),
            None => p_request_doc(v@) is None,
        },
{
    proof {
        reveal_strlit("{\"mode\":");
        reveal_strlit("}");
        assert("{\"mode\":"@ =~= crate::codec::lit_mode_open());
        assert("}"@ =~= seq!['}']);
        assert(v@.skip(0) =~= v@);
    }
    match p_lit_exec(v, 0, "{\"mode\":") {
        None => None,
        Some(r1) => match p_mode_exec(v, r1) {
            None => None,
            Some((mode, r2)) => match p_lit_exec(v, r2, "}") {
                None => None,
                Some(j) => {
                    if j == v.len() {
                        proof {
                            assert(v@.skip(j as int).len() == 0);
                        }
                        Some(ListRequest { mode })
                    } else {
                        proof {
                            assert(v@.skip(j as int).len() > 0);
                        }
                        None
                    }
                },
            },
        },
    }
}

/// Reads a payload that is exactly one response.
#[verifier::rlimit(100)]
#[verifier::spinoff_prover]
pub fn parse_response_doc(v: &Vec<char>) -> (r: Option<ListResponse>)
    ensures
        match r {
            Some(resp) => p_response_doc(v@) == Some(resp@),
            None => p_response_doc(v@) is None,
        },
{
    proof {
        reveal_strlit("{\"mode\":");
        reveal_strlit(",\"data\":");
        reveal_strlit(",\"receiver\":");
        reveal_strlit("}");
        assert("{\"mode\":"@ =~= crate::codec::lit_mode_open());
        assert(",\"data\":"@ =~= crate::codec::lit_data());
        assert(",\"receiver\":"@ =~= crate::codec::lit_receiver());
        assert("}"@ =~= seq!['}']);
        assert(v@.skip(0) =~= v@);
    }
    match p_lit_exec(v, 0, "{\"mode\":") {
        None => None,
        Some(r1) => match p_mode_exec(v, r1) {
            None => None,
            Some((mode, r2)) => match p_lit_exec(v, r2, ",\"data\":") {
                None => None,
                Some(r3) => match p_catalog_exec(v, r3) {
                    None => None,
                    Some((data, r4)) => match p_lit_exec(v, r4, ",\"receiver\":") {
                        None => None,
                        Some(r5) => match p_string_exec(v, r5) {
                            None => None,
                            Some((recv, r6)) => match p_lit_exec(v, r6, "}") {
                                None => None,
                                Some(j) => {
                                    if j == v.len() {
                                        proof {
                                            assert(v@.skip(j as int).len() == 0);
                                        }
                                        let receiver = chars_to_string(&recv);
                                        Some(ListResponse { mode, data, receiver })
                                    } else {
                                        proof {
                                            assert(v@.skip(j as int).len() > 0);
                                        }
                                        None
                                    }
                                },
                            },
                        },
                    },
                },
            },
        },
    }
}

/// Reads a payload that is exactly one free-text message.
pub fn parse_chat_doc(v: &Vec<char>) -> (r: Option<ChatMessage>)
    ensures
        match r {
            Some(chat) => p_chat_doc(v@) == Some(chat@),
            None => p_chat_doc(v@) is None,
        },
{
    proof {
        reveal_strlit("{\"msg\":");
        reveal_strlit("}");
        assert("{\"msg\":"@ =~= crate::codec::lit_msg_open());
        assert("}"@ =~= seq!['}']);
        assert(v@.skip(0) =~= v@);
    }
    match p_lit_exec(v, 0, "{\"msg\":") {
        None => None,
        Some(r1) => match p_string_exec(v, r1) {
            None => None,
            Some((msg, r2)) => match p_lit_exec(v, r2, "}") {
                None => None,
                Some(j) => {
                    if j == v.len() {
                        proof {
                            assert(v@.skip(j as int).len() == 0);
                        }
                        Some(ChatMessage { msg: chars_to_string(&msg) })
                    } else {
                        proof {
                            assert(v@.skip(j as int).len() > 0);
                        }
                        None
                    }
                },
            },
        },
    }
}

} // verus!
