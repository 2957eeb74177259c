//! The JSON grammar of the persisted catalog document and of the three
//! wire message shapes, at the mathematical level.
//!
//! `enc_*` gives the one canonical document for a value: compact JSON,
//! object fields in declared order, strings escaped as JSON asks.  `p_*`
//! parses that grammar from the front of a character sequence and returns
//! the value together with the remaining input.  The executable encoders
//! and parsers elsewhere in the crate are proved equal to these functions,
//! and the round-trip lemmas here show that parsing inverts encoding.

use crate::song::SongView;
use vstd::prelude::*;

verus! {

/// The mathematical value of a request's mode: every public song of every
/// peer, or the songs of the one peer named.
pub ghost enum ModeView {
    All,
    One(Seq<char>),
}

/// The mathematical value of a response: the answering node's public
/// songs, addressed to the requester by identity.
pub ghost struct ResponseView {
    pub mode: ModeView,
    pub data: Seq<SongView>,
    pub receiver: Seq<char>,
}

// ---------------------------------------------------------------------
// Characters and digits
// ---------------------------------------------------------------------

/// A decimal digit.
pub open spec fn is_digit(c: char) -> bool {
    48 <= c as int <= 57
}

/// The value of a decimal digit character.
pub open spec fn digit_val(c: char) -> int {
    c as int - 48
}

/// The character of a decimal digit value.
pub open spec fn digit_char(d: int) -> char {
    if d == 0 {
        '0'
    } else if d == 1 {
        '1'
    } else if d == 2 {
        '2'
    } else if d == 3 {
        '3'
    } else if d == 4 {
        '4'
    } else if d == 5 {
        '5'
    } else if d == 6 {
        '6'
    } else if d == 7 {
        '7'
    } else if d == 8 {
        '8'
    } else {
        '9'
    }
}

/// The lower-case character of a hexadecimal digit value.
pub open spec fn hex_char(d: int) -> char {
    if d < 10 {
        digit_char(d)
    } else if d == 10 {
        'a'
    } else if d == 11 {
        'b'
    } else if d == 12 {
        'c'
    } else if d == 13 {
        'd'
    } else if d == 14 {
        'e'
    } else {
        'f'
    }
}

/// The value of a hexadecimal digit character, or -1.
pub open spec fn hex_val(c: char) -> int {
    if is_digit(c) {
        digit_val(c)
    } else if 97 <= c as int <= 102 {
        c as int - 87
    } else if 65 <= c as int <= 70 {
        c as int - 55
    } else {
        -1
    }
}

/// A hexadecimal digit.
pub open spec fn is_hex(c: char) -> bool {
    hex_val(c) >= 0
}

// ---------------------------------------------------------------------
// Encoding
// ---------------------------------------------------------------------

/// What a character becomes inside a JSON string literal: itself, a
/// two-character escape, or a `\u00XX` escape for the remaining control
/// characters.
pub open spec fn esc_char(c: char) -> Seq<char> {
    if c == '"' {
        seq!['\\', '"']
    } else if c == '\\' {
        seq!['\\', '\\']
    } else if c == '\u{8}' {
        seq!['\\', 'b']
    } else if c == '\u{c}' {
        seq!['\\', 'f']
    } else if c == '\n' {
        seq!['\\', 'n']
    } else if c == '\r' {
        seq!['\\', 'r']
    } else if c == '\t' {
        seq!['\\', 't']
    } else if 0 <= (c as int) && (c as int) < 32 {
        seq!['\\', 'u', '0', '0', hex_char((c as int) / 16), hex_char((c as int) % 16)]
    } else {
        seq![c]
    }
}

/// The body of a JSON string literal: every character escaped.
pub open spec fn enc_str_body(s: Seq<char>) -> Seq<char>
    decreases s.len(),
{
    if s.len() == 0 {
        Seq::<char>::empty()
    } else {
        esc_char(s[0]) + enc_str_body(s.drop_first())
    }
}

/// A JSON string literal.
pub open spec fn enc_string(s: Seq<char>) -> Seq<char> {
    seq!['"'] + enc_str_body(s) + seq!['"']
}

/// A non-negative integer in decimal, no sign, no leading zero.
pub open spec fn enc_nat(n: int) -> Seq<char>
    decreases n,
{
    if n < 10 {
        seq![digit_char(n)]
    } else {
        enc_nat(n / 10) + seq![digit_char(n % 10)]
    }
}

pub open spec fn true_lit() -> Seq<char> {
    seq!['t', 'r', 'u', 'e']
}

pub open spec fn false_lit() -> Seq<char> {
    seq!['f', 'a', 'l', 's', 'e']
}

/// A JSON boolean.
pub open spec fn enc_bool(b: bool) -> Seq<char> {
    if b {
        true_lit()
    } else {
        false_lit()
    }
}

// ---------------------------------------------------------------------
// Parsing
// ---------------------------------------------------------------------

/// Consumes the exact characters of `lit` or fails.
pub open spec fn p_lit(input: Seq<char>, lit: Seq<char>) -> Option<Seq<char>> {
    if input.len() >= lit.len() && input.take(lit.len() as int) == lit {
        Some(input.skip(lit.len() as int))
    } else {
        None
    }
}

/// The escape characters that decode to a single named character.
pub open spec fn named_esc(e: char) -> Option<char> {
    if e == '"' {
        Some('"')
    } else if e == '\\' {
        Some('\\')
    } else if e == '/' {
        Some('/')
    } else if e == 'b' {
        Some('\u{8}')
    } else if e == 'f' {
        Some('\u{c}')
    } else if e == 'n' {
        Some('\n')
    } else if e == 'r' {
        Some('\r')
    } else if e == 't' {
        Some('\t')
    } else {
        None
    }
}

/// Parses the body of a string literal up to and including the closing
/// quote.  `\uXXXX` escapes are accepted for ASCII values only.
pub open spec fn p_str_body(input: Seq<char>) -> Option<(Seq<char>, Seq<char>)>
    decreases input.len(),
{
    if input.len() == 0 {
        None
    } else if input[0] == '"' {
        Some((Seq::<char>::empty(), input.drop_first()))
    } else if input[0] == '\\' {
        if input.len() < 2 {
            None
        } else {
            let e = input[1];
            if e == 'u' {
                if input.len() >= 6 && is_hex(input[2]) && is_hex(input[3]) && is_hex(input[4])
                    && is_hex(input[5]) {
                    let v: int = hex_val(input[2]) * 4096 + hex_val(input[3]) * 256 + hex_val(
                        input[4],
                    ) * 16 + hex_val(input[5]);
                    if v < 128 {
                        match p_str_body(input.skip(6)) {
                            Some((s, rem)) => Some((seq![(v as u8) as char] + s, rem)),
                            None => None,
                        }
                    } else {
                        None
                    }
                } else {
                    None
                }
            } else {
                match named_esc(e) {
                    Some(c) => match p_str_body(input.skip(2)) {
                        Some((s, rem)) => Some((seq![c] + s, rem)),
                        None => None,
                    },
                    None => None,
                }
            }
        }
    } else if 0 <= (input[0] as int) && (input[0] as int) < 32 {
        None
    } else {
        match p_str_body(input.skip(1)) {
            Some((s, rem)) => Some((seq![input[0]] + s, rem)),
            None => None,
        }
    }
}

/// Parses a JSON string literal.
pub open spec fn p_string(input: Seq<char>) -> Option<(Seq<char>, Seq<char>)> {
    if input.len() > 0 && input[0] == '"' {
        p_str_body(input.drop_first())
    } else {
        None
    }
}

/// How many decimal digits stand at the front of `input`.
pub open spec fn digits_len(input: Seq<char>) -> nat
    decreases input.len(),
{
    if input.len() > 0 && is_digit(input[0]) {
        1 + digits_len(input.drop_first())
    } else {
        0
    }
}

/// The value of a sequence of decimal digits.
pub open spec fn digits_val(ds: Seq<char>) -> int
    decreases ds.len(),
{
    if ds.len() == 0 {
        0
    } else {
        digits_val(ds.drop_last()) * 10 + digit_val(ds.last())
    }
}

/// Parses a non-negative integer that a `usize` can hold.
pub open spec fn p_usize(input: Seq<char>) -> Option<(int, Seq<char>)> {
    let k: int = digits_len(input) as int;
    if k == 0 {
        None
    } else {
        let v: int = digits_val(input.take(k));
        if v <= usize::MAX as int {
            Some((v, input.skip(k)))
        } else {
            None
        }
    }
}

/// Parses a JSON boolean.
pub open spec fn p_bool(input: Seq<char>) -> Option<(bool, Seq<char>)> {
    match p_lit(input, true_lit()) {
        Some(rem) => Some((true, rem)),
        None => match p_lit(input, false_lit()) {
            Some(rem) => Some((false, rem)),
            None => None,
        },
    }
}

// ---------------------------------------------------------------------
// Round-trip lemmas: parsing inverts encoding
// ---------------------------------------------------------------------

/// Consuming a literal off a document that starts with it leaves the rest.
pub proof fn lemma_p_lit_enc(lit: Seq<char>, rest: Seq<char>)
    ensures
        p_lit(lit + rest, lit) == Some(rest),
{
    let input = lit + rest;
    assert(input.take(lit.len() as int) =~= lit);
    assert(input.skip(lit.len() as int) =~= rest);
}

/// A string body followed by its closing quote parses back to the string.
pub proof fn lemma_p_str_body_enc(s: Seq<char>, rest: Seq<char>)
    ensures
        p_str_body(enc_str_body(s) + seq!['"'] + rest) == Some((s, rest)),
    decreases s.len(),
{
    let input = enc_str_body(s) + seq!['"'] + rest;
    if s.len() == 0 {
        assert(input =~= seq!['"'] + rest);
        assert(input[0] == '"');
        assert(input.drop_first() =~= rest);
        assert(s =~= Seq::<char>::empty());
    } else {
        let c = s[0];
        let e = esc_char(c);
        let tail = enc_str_body(s.drop_first()) + seq!['"'] + rest;
        lemma_p_str_body_enc(s.drop_first(), rest);
        assert(enc_str_body(s) == esc_char(c) + enc_str_body(s.drop_first()));
        assert(input =~= esc_char(c) + tail);
        if c == '"' || c == '\\' {
            assert(input[0] == '\\');
            assert(input[1] == c);
            assert(input.skip(2) =~= tail);
            assert(seq![c] + s.drop_first() =~= s);
        } else if c == '\u{8}' || c == '\u{c}' || c == '\n' || c == '\r' || c == '\t' {
            assert(input[0] == '\\');
            assert(input[1] != 'u');
            assert(named_esc(input[1]) == Some(c));
            assert(input.skip(2) =~= tail);
            assert(seq![c] + s.drop_first() =~= s);
        } else if 0 <= (c as int) && (c as int) < 32 {
            let hi: int = (c as int) / 16;
            let lo: int = (c as int) % 16;
            assert(input[0] == '\\');
            assert(input[1] == 'u');
            assert(input[2] == '0');
            assert(input[3] == '0');
            assert(input[4] == hex_char(hi));
            assert(input[5] == hex_char(lo));
            let cv: int = c as int;
            assert(0 <= hi < 16 && 0 <= lo < 16) by (nonlinear_arith)
                requires
                    hi == cv / 16,
                    lo == cv % 16,
                    0 <= cv < 32,
            ;
            assert(hex_val(hex_char(hi)) == hi);
            assert(hex_val(hex_char(lo)) == lo);
            assert(hex_val('0') == 0);
            let v: int = hex_val(input[2]) * 4096 + hex_val(input[3]) * 256 + hex_val(input[4])
                * 16 + hex_val(input[5]);
            assert(v == hi * 16 + lo);
            assert(v == c as int) by {
                vstd::arithmetic::div_mod::lemma_fundamental_div_mod(c as int, 16);
            }
            assert((v as u8) as char == c);
            assert(input.skip(6) =~= tail);
            assert(seq![c] + s.drop_first() =~= s);
        } else {
            assert(input[0] == c);
            assert(input.skip(1) =~= tail);
            assert(seq![c] + s.drop_first() =~= s);
        }
    }
}

/// A canonical string literal parses back to the string it encodes.
pub proof fn lemma_p_string_enc(s: Seq<char>, rest: Seq<char>)
    ensures
        p_string(enc_string(s) + rest) == Some((s, rest)),
{
    let input = enc_string(s) + rest;
    assert(input[0] == '"');
    assert(input.drop_first() =~= enc_str_body(s) + seq!['"'] + rest);
    lemma_p_str_body_enc(s, rest);
}

/// The digits of a non-negative integer are digits, and there is at
/// least one of them.
pub proof fn lemma_enc_nat_digits(n: int)
    requires
        n >= 0,
    ensures
        enc_nat(n).len() >= 1,
        forall|i: int| 0 <= i < enc_nat(n).len() ==> is_digit(#[trigger] enc_nat(n)[i]),
    decreases n,
{
    if n >= 10 {
        lemma_enc_nat_digits(n / 10);
        assert forall|i: int| 0 <= i < enc_nat(n).len() implies is_digit(
            #[trigger] enc_nat(n)[i],
        ) by {
            if i < enc_nat(n / 10).len() {
                assert(enc_nat(n)[i] == enc_nat(n / 10)[i]);
            } else {
                assert(enc_nat(n)[i] == digit_char(n % 10));
            }
        }
    }
}

/// Exactly the encoded digits are taken for the leading digit count when
/// what follows is not a digit.
pub proof fn lemma_digits_len_concat(ds: Seq<char>, rest: Seq<char>)
    requires
        forall|i: int| 0 <= i < ds.len() ==> is_digit(#[trigger] ds[i]),
        rest.len() == 0 || !is_digit(rest[0]),
    ensures
        digits_len(ds + rest) == ds.len(),
    decreases ds.len(),
{
    let input = ds + rest;
    if ds.len() == 0 {
        assert(input =~= rest);
    } else {
        assert(input[0] == ds[0]);
        assert(input.drop_first() =~= ds.drop_first() + rest);
        lemma_digits_len_concat(ds.drop_first(), rest);
    }
}

/// Reading the digits of `n` back as a number gives `n`.
pub proof fn lemma_digits_val_enc_nat(n: int)
    requires
        n >= 0,
    ensures
        digits_val(enc_nat(n)) == n,
    decreases n,
{
    if n < 10 {
        let ds = enc_nat(n);
        assert(ds.drop_last() =~= Seq::<char>::empty());
        assert(ds.last() == digit_char(n));
        assert(digits_val(Seq::<char>::empty()) == 0);
    } else {
        lemma_digits_val_enc_nat(n / 10);
        let ds = enc_nat(n);
        assert(ds.drop_last() =~= enc_nat(n / 10));
        assert(ds.last() == digit_char(n % 10));
        assert(0 <= n % 10 < 10);
        assert(digit_val(digit_char(n % 10)) == n % 10);
        assert(digits_val(ds) == (n / 10) * 10 + n % 10);
        vstd::arithmetic::div_mod::lemma_fundamental_div_mod(n, 10);
    }
}

/// A canonical number followed by a non-digit parses back to the number.
pub proof fn lemma_p_usize_enc(n: int, rest: Seq<char>)
    requires
        0 <= n <= usize::MAX as int,
        rest.len() == 0 || !is_digit(rest[0]),
    ensures
        p_usize(enc_nat(n) + rest) == Some((n, rest)),
{
    let ds = enc_nat(n);
    let input = ds + rest;
    lemma_enc_nat_digits(n);
    lemma_digits_len_concat(ds, rest);
    assert(digits_len(input) == ds.len());
    assert(input.take(ds.len() as int) =~= ds);
    assert(input.skip(ds.len() as int) =~= rest);
    lemma_digits_val_enc_nat(n);
}

/// A canonical boolean parses back to the boolean.
pub proof fn lemma_p_bool_enc(b: bool, rest: Seq<char>)
    ensures
        p_bool(enc_bool(b) + rest) == Some((b, rest)),
{
    let input = enc_bool(b) + rest;
    if b {
        lemma_p_lit_enc(true_lit(), rest);
    } else {
        lemma_p_lit_enc(false_lit(), rest);
        if input.len() >= true_lit().len() && input.take(true_lit().len() as int) == true_lit() {
            assert(input.take(true_lit().len() as int)[0] == 't');
            assert(input[0] == 'f');
        }
    }
}

// ---------------------------------------------------------------------
// Songs and catalogs
// ---------------------------------------------------------------------

pub open spec fn lit_song_open() -> Seq<char> {
    seq!['{', '"', 'i', 'd', '"', ':']
}

pub open spec fn lit_title() -> Seq<char> {
    seq![',', '"', 't', 'i', 't', 'l', 'e', '"', ':']
}

pub open spec fn lit_artist() -> Seq<char> {
    seq![',', '"', 'a', 'r', 't', 'i', 's', 't', '"', ':']
}

pub open spec fn lit_lyrics() -> Seq<char> {
    seq![',', '"', 'l', 'y', 'r', 'i', 'c', 's', '"', ':']
}

pub open spec fn lit_explicit() -> Seq<char> {
    seq![',', '"', 'e', 'x', 'p', 'l', 'i', 'c', 'i', 't', '"', ':']
}

pub open spec fn lit_public() -> Seq<char> {
    seq![',', '"', 'p', 'u', 'b', 'l', 'i', 'c', '"', ':']
}

/// One song as a JSON object, fields in declared order.
pub open spec fn enc_song(v: SongView) -> Seq<char> {
    lit_song_open() + enc_nat(v.id) + lit_title() + enc_string(v.title) + lit_artist()
        + enc_string(v.artist) + lit_lyrics() + enc_string(v.lyrics) + lit_explicit()
        + enc_string(v.explicit) + lit_public() + enc_bool(v.public) + seq!['}']
}

/// Parses one song object.
pub open spec fn p_song(input: Seq<char>) -> Option<(SongView, Seq<char>)> {
    match p_lit(input, lit_song_open()) {
        None => None,
        Some(r1) => match p_usize(r1) {
            None => None,
            Some((id, r2)) => match p_lit(r2, lit_title()) {
                None => None,
                Some(r3) => match p_string(r3) {
                    None => None,
                    Some((title, r4)) => match p_lit(r4, lit_artist()) {
                        None => None,
                        Some(r5) => match p_string(r5) {
                            None => None,
                            Some((artist, r6)) => match p_lit(r6, lit_lyrics()) {
                                None => None,
                                Some(r7) => match p_string(r7) {
                                    None => None,
                                    Some((lyrics, r8)) => match p_lit(r8, lit_explicit()) {
                                        None => None,
                                        Some(r9) => match p_string(r9) {
                                            None => None,
                                            Some((explicit, r10)) => match p_lit(
                                                r10,
                                                lit_public(),
                                            ) {
                                                None => None,
                                                Some(r11) => match p_bool(r11) {
                                                    None => None,
                                                    Some((public, r12)) => match p_lit(
                                                        r12,
                                                        seq!['}'],
                                                    ) {
                                                        None => None,
                                                        Some(rem) => Some(
                                                            (
                                                                SongView {
                                                                    id,
                                                                    title,
                                                                    artist,
                                                                    lyrics,
                                                                    explicit,
                                                                    public,
                                                                },
                                                                rem,
                                                            ),
                                                        ),
                                                    },
                                                },
                                            },
                                        },
                                    },
                                },
                            },
                        },
                    },
                },
            },
        },
    }
}

/// A canonical song object parses back to the song.
#[verifier::rlimit(100)]
pub proof fn lemma_p_song_enc(v: SongView, rest: Seq<char>)
    requires
        0 <= v.id <= usize::MAX as int,
    ensures
        p_song(enc_song(v) + rest) == Some((v, rest)),
{
    let s12 = seq!['}'] + rest;
    let s11 = enc_bool(v.public) + s12;
    let s10 = lit_public() + s11;
    let s9 = enc_string(v.explicit) + s10;
    let s8 = lit_explicit() + s9;
    let s7 = enc_string(v.lyrics) + s8;
    let s6 = lit_lyrics() + s7;
    let s5 = enc_string(v.artist) + s6;
    let s4 = lit_artist() + s5;
    let s3 = enc_string(v.title) + s4;
    let s2 = lit_title() + s3;
    let s1 = enc_nat(v.id) + s2;
    let input = enc_song(v) + rest;
    assert(input =~= lit_song_open() + s1);
    lemma_p_lit_enc(lit_song_open(), s1);
    assert(s2[0] == ',');
    lemma_p_usize_enc(v.id, s2);
    lemma_p_lit_enc(lit_title(), s3);
    lemma_p_string_enc(v.title, s4);
    lemma_p_lit_enc(lit_artist(), s5);
    lemma_p_string_enc(v.artist, s6);
    lemma_p_lit_enc(lit_lyrics(), s7);
    lemma_p_string_enc(v.lyrics, s8);
    lemma_p_lit_enc(lit_explicit(), s9);
    lemma_p_string_enc(v.explicit, s10);
    lemma_p_lit_enc(lit_public(), s11);
    lemma_p_bool_enc(v.public, s12);
    lemma_p_lit_enc(seq!['}'], rest);
}

/// The items of a catalog document: the first song, then each further
/// song after a comma.
pub open spec fn enc_items(c: Seq<SongView>) -> Seq<char>
    decreases c.len(),
{
    if c.len() == 0 {
        Seq::<char>::empty()
    } else {
        enc_song(c[0]) + enc_items_rest(c.drop_first())
    }
}

pub open spec fn enc_items_rest(c: Seq<SongView>) -> Seq<char>
    decreases c.len(),
{
    if c.len() == 0 {
        Seq::<char>::empty()
    } else {
        seq![','] + enc_song(c[0]) + enc_items_rest(c.drop_first())
    }
}

/// A catalog as a JSON array of song objects.
pub open spec fn enc_catalog(c: Seq<SongView>) -> Seq<char> {
    seq!['['] + enc_items(c) + seq![']']
}

/// Parses one or more comma-separated songs followed by the closing
/// bracket of the array.
pub open spec fn p_items(input: Seq<char>) -> Option<(Seq<SongView>, Seq<char>)>
    decreases input.len(),
{
    match p_song(input) {
        None => None,
        Some((s, rem)) => if rem.len() > 0 && rem[0] == ',' {
            if rem.drop_first().len() < input.len() {
                match p_items(rem.drop_first()) {
                    None => None,
                    Some((ss, rem2)) => Some((seq![s] + ss, rem2)),
                }
            } else {
                None
            }
        } else if rem.len() > 0 && rem[0] == ']' {
            Some((seq![s], rem.drop_first()))
        } else {
            None
        },
    }
}

/// Parses a catalog document: a JSON array of songs.
pub open spec fn p_catalog(input: Seq<char>) -> Option<(Seq<SongView>, Seq<char>)> {
    match p_lit(input, seq!['[']) {
        None => None,
        Some(r1) => if r1.len() > 0 && r1[0] == ']' {
            Some((Seq::<SongView>::empty(), r1.drop_first()))
        } else {
            p_items(r1)
        },
    }
}

/// Every id of `c` is a value a `usize` can hold.
pub open spec fn enc_ids_ok(c: Seq<SongView>) -> bool {
    forall|i: int| 0 <= i < c.len() ==> 0 <= #[trigger] c[i].id <= usize::MAX as int
}

/// Canonical catalog items parse back to the catalog.
#[verifier::rlimit(100)]
#[verifier::spinoff_prover]
pub proof fn lemma_p_items_enc(c: Seq<SongView>, rest: Seq<char>)
    requires
        c.len() >= 1,
        enc_ids_ok(c),
    ensures
        p_items(enc_items(c) + seq![']'] + rest) == Some((c, rest)),
    decreases c.len(),
{
    let input = enc_items(c) + seq![']'] + rest;
    if c.len() == 1 {
        let tail = seq![']'] + rest;
        assert(input =~= enc_song(c[0]) + tail);
        lemma_p_song_enc(c[0], tail);
        assert(tail[0] == ']');
        assert(tail.drop_first() =~= rest);
        assert(seq![c[0]] =~= c);
    } else {
        let d = c.drop_first();
        assert(enc_items_rest(d) == seq![','] + enc_song(d[0]) + enc_items_rest(d.drop_first()));
        assert(enc_items_rest(d) =~= seq![','] + enc_items(d));
        let tail = seq![','] + enc_items(d) + seq![']'] + rest;
        assert(input =~= enc_song(c[0]) + tail);
        lemma_p_song_enc(c[0], tail);
        assert(tail[0] == ',');
        assert(tail.drop_first() =~= enc_items(d) + seq![']'] + rest);
        assert(enc_song(c[0]).len() >= 1);
        assert(tail.drop_first().len() < input.len());
        assert forall|i: int| 0 <= i < d.len() implies 0 <= #[trigger] d[i].id
            <= usize::MAX as int by {
            assert(d[i] == c[i + 1]);
        }
        lemma_p_items_enc(d, rest);
        assert(seq![c[0]] + d =~= c);
    }
}

/// A canonical catalog document parses back to the catalog.
#[verifier::rlimit(100)]
pub proof fn lemma_p_catalog_enc(c: Seq<SongView>, rest: Seq<char>)
    requires
        enc_ids_ok(c),
    ensures
        p_catalog(enc_catalog(c) + rest) == Some((c, rest)),
{
    let input = enc_catalog(c) + rest;
    if c.len() == 0 {
        let r1 = seq![']'] + rest;
        assert(input =~= seq!['['] + r1);
        lemma_p_lit_enc(seq!['['], r1);
        assert(r1[0] == ']');
        assert(r1.drop_first() =~= rest);
    } else {
        let r1 = enc_items(c) + seq![']'] + rest;
        assert(input =~= seq!['['] + r1);
        lemma_p_lit_enc(seq!['['], r1);
        assert(r1[0] == '{');
        lemma_p_items_enc(c, rest);
    }
}

// ---------------------------------------------------------------------
// Wire messages
// ---------------------------------------------------------------------

pub open spec fn all_lit() -> Seq<char> {
    seq!['"', 'A', 'L', 'L', '"']
}

pub open spec fn lit_one_open() -> Seq<char> {
    seq!['{', '"', 'O', 'n', 'e', '"', ':']
}

pub open spec fn lit_mode_open() -> Seq<char> {
    seq!['{', '"', 'm', 'o', 'd', 'e', '"', ':']
}

pub open spec fn lit_data() -> Seq<char> {
    seq![',', '"', 'd', 'a', 't', 'a', '"', ':']
}

pub open spec fn lit_receiver() -> Seq<char> {
    seq![',', '"', 'r', 'e', 'c', 'e', 'i', 'v', 'e', 'r', '"', ':']
}

pub open spec fn lit_msg_open() -> Seq<char> {
    seq!['{', '"', 'm', 's', 'g', '"', ':']
}

/// A request mode: the string `"ALL"`, or an object around the one
/// target identity.
pub open spec fn enc_mode(m: ModeView) -> Seq<char> {
    match m {
        ModeView::All => all_lit(),
        ModeView::One(t) => lit_one_open() + enc_string(t) + seq!['}'],
    }
}

pub open spec fn p_mode(input: Seq<char>) -> Option<(ModeView, Seq<char>)> {
    match p_lit(input, all_lit()) {
        Some(rem) => Some((ModeView::All, rem)),
        None => match p_lit(input, lit_one_open()) {
            None => None,
            Some(r1) => match p_string(r1) {
                None => None,
                Some((t, r2)) => match p_lit(r2, seq!['}']) {
                    None => None,
                    Some(rem) => Some((ModeView::One(t), rem)),
                },
            },
        },
    }
}

/// A canonical mode parses back to the mode.
pub proof fn lemma_p_mode_enc(m: ModeView, rest: Seq<char>)
    ensures
        p_mode(enc_mode(m) + rest) == Some((m, rest)),
{
    let input = enc_mode(m) + rest;
    match m {
        ModeView::All => {
            lemma_p_lit_enc(all_lit(), rest);
        },
        ModeView::One(t) => {
            if input.len() >= all_lit().len() && input.take(all_lit().len() as int) == all_lit() {
                assert(input.take(all_lit().len() as int)[0] == '"');
                assert(input[0] == '{');
            }
            let s2 = seq!['}'] + rest;
            let s1 = enc_string(t) + s2;
            assert(input =~= lit_one_open() + s1);
            lemma_p_lit_enc(lit_one_open(), s1);
            lemma_p_string_enc(t, s2);
            lemma_p_lit_enc(seq!['}'], rest);
        },
    }
}

/// A whole request payload.
pub open spec fn enc_request(m: ModeView) -> Seq<char> {
    lit_mode_open() + enc_mode(m) + seq!['}']
}

/// Parses a payload that is exactly one request.
pub open spec fn p_request_doc(payload: Seq<char>) -> Option<ModeView> {
    match p_lit(payload, lit_mode_open()) {
        None => None,
        Some(r1) => match p_mode(r1) {
            None => None,
            Some((m, r2)) => match p_lit(r2, seq!['}']) {
                None => None,
                Some(rem) => if rem.len() == 0 {
                    Some(m)
                } else {
                    None
                },
            },
        },
    }
}

/// A whole response payload.
pub open spec fn enc_response(r: ResponseView) -> Seq<char> {
    lit_mode_open() + enc_mode(r.mode) + lit_data() + enc_catalog(r.data) + lit_receiver()
        + enc_string(r.receiver) + seq!['}']
}

/// Parses a payload that is exactly one response.
pub open spec fn p_response_doc(payload: Seq<char>) -> Option<ResponseView> {
    match p_lit(payload, lit_mode_open()) {
        None => None,
        Some(r1) => match p_mode(r1) {
            None => None,
            Some((m, r2)) => match p_lit(r2, lit_data()) {
                None => None,
                Some(r3) => match p_catalog(r3) {
                    None => None,
                    Some((data, r4)) => match p_lit(r4, lit_receiver()) {
                        None => None,
                        Some(r5) => match p_string(r5) {
                            None => None,
                            Some((receiver, r6)) => match p_lit(r6, seq!['}']) {
                                None => None,
                                Some(rem) => if rem.len() == 0 {
                                    Some(ResponseView { mode: m, data, receiver })
                                } else {
                                    None
                                },
                            },
                        },
                    },
                },
            },
        },
    }
}

/// A whole free-text message payload.
pub open spec fn enc_chat(msg: Seq<char>) -> Seq<char> {
    lit_msg_open() + enc_string(msg) + seq!['}']
}

/// Parses a payload that is exactly one free-text message.
pub open spec fn p_chat_doc(payload: Seq<char>) -> Option<Seq<char>> {
    match p_lit(payload, lit_msg_open()) {
        None => None,
        Some(r1) => match p_string(r1) {
            None => None,
            Some((msg, r2)) => match p_lit(r2, seq!['}']) {
                None => None,
                Some(rem) => if rem.len() == 0 {
                    Some(msg)
                } else {
                    None
                },
            },
        },
    }
}

/// A canonical request payload parses back to its mode.
pub proof fn lemma_p_request_doc_enc(m: ModeView)
    ensures
        p_request_doc(enc_request(m)) == Some(m),
{
    let s2 = seq!['}'] + Seq::<char>::empty();
    let s1 = enc_mode(m) + s2;
    let input = enc_request(m);
    assert(input =~= lit_mode_open() + s1);
    lemma_p_lit_enc(lit_mode_open(), s1);
    lemma_p_mode_enc(m, s2);
    lemma_p_lit_enc(seq!['}'], Seq::<char>::empty());
}

/// A canonical response payload parses back to the response.
#[verifier::rlimit(100)]
pub proof fn lemma_p_response_doc_enc(r: ResponseView)
    requires
        enc_ids_ok(r.data),
    ensures
        p_response_doc(enc_response(r)) == Some(r),
{
    let s6 = seq!['}'] + Seq::<char>::empty();
    let s5 = enc_string(r.receiver) + s6;
    let s4 = lit_receiver() + s5;
    let s3 = enc_catalog(r.data) + s4;
    let s2 = lit_data() + s3;
    let s1 = enc_mode(r.mode) + s2;
    let input = enc_response(r);
    assert(input =~= lit_mode_open() + s1);
    lemma_p_lit_enc(lit_mode_open(), s1);
    lemma_p_mode_enc(r.mode, s2);
    lemma_p_lit_enc(lit_data(), s3);
    lemma_p_catalog_enc(r.data, s4);
    lemma_p_lit_enc(lit_receiver(), s5);
    lemma_p_string_enc(r.receiver, s6);
    lemma_p_lit_enc(seq!['}'], Seq::<char>::empty());
    assert(p_response_doc(input) == Some(ResponseView { mode: r.mode, data: r.data, receiver: r.receiver }));
    assert(ResponseView { mode: r.mode, data: r.data, receiver: r.receiver } == r);
}

/// A canonical free-text payload parses back to its text.
pub proof fn lemma_p_chat_doc_enc(msg: Seq<char>)
    ensures
        p_chat_doc(enc_chat(msg)) == Some(msg),
{
    let s2 = seq!['}'] + Seq::<char>::empty();
    let s1 = enc_string(msg) + s2;
    let input = enc_chat(msg);
    assert(input =~= lit_msg_open() + s1);
    lemma_p_lit_enc(lit_msg_open(), s1);
    lemma_p_string_enc(msg, s2);
    lemma_p_lit_enc(seq!['}'], Seq::<char>::empty());
}

/// Parses a document that is exactly one catalog.
pub open spec fn p_catalog_doc(doc: Seq<char>) -> Option<Seq<SongView>> {
    match p_catalog(doc) {
        None => None,
        Some((c, rem)) => if rem.len() == 0 {
            Some(c)
        } else {
            None
        },
    }
}

/// A canonical catalog document parses back to the catalog, with nothing
/// left over.
pub proof fn lemma_p_catalog_doc_enc(c: Seq<SongView>)
    requires
        enc_ids_ok(c),
    ensures
        p_catalog_doc(enc_catalog(c)) == Some(c),
{
    assert(enc_catalog(c) =~= enc_catalog(c) + Seq::<char>::empty());
    lemma_p_catalog_enc(c, Seq::<char>::empty());
}

// ---------------------------------------------------------------------
// Facts the executable encoders and parsers lean on
// ---------------------------------------------------------------------

/// Encoding a string body distributes over concatenation.
pub proof fn lemma_enc_str_body_concat(a: Seq<char>, b: Seq<char>)
    ensures
        enc_str_body(a + b) == enc_str_body(a) + enc_str_body(b),
    decreases a.len(),
{
    if a.len() == 0 {
        assert(a + b =~= b);
        assert(enc_str_body(a) + enc_str_body(b) =~= enc_str_body(b));
    } else {
        assert((a + b).drop_first() =~= a.drop_first() + b);
        lemma_enc_str_body_concat(a.drop_first(), b);
        assert(enc_str_body(a + b) =~= enc_str_body(a) + enc_str_body(b));
    }
}

/// Encoding further catalog items distributes over concatenation.
pub proof fn lemma_enc_items_rest_concat(a: Seq<SongView>, b: Seq<SongView>)
    ensures
        enc_items_rest(a + b) == enc_items_rest(a) + enc_items_rest(b),
    decreases a.len(),
{
    if a.len() == 0 {
        assert(a + b =~= b);
        assert(enc_items_rest(a) + enc_items_rest(b) =~= enc_items_rest(b));
    } else {
        assert((a + b).drop_first() =~= a.drop_first() + b);
        lemma_enc_items_rest_concat(a.drop_first(), b);
        assert(enc_items_rest(a + b) =~= enc_items_rest(a) + enc_items_rest(b));
    }
}

/// Appending items to a non-empty catalog appends their encodings.
pub proof fn lemma_enc_items_concat(a: Seq<SongView>, b: Seq<SongView>)
    requires
        a.len() >= 1,
    ensures
        enc_items(a + b) == enc_items(a) + enc_items_rest(b),
{
    assert((a + b)[0] == a[0]);
    assert((a + b).drop_first() =~= a.drop_first() + b);
    lemma_enc_items_rest_concat(a.drop_first(), b);
    assert(enc_items(a + b) =~= enc_items(a) + enc_items_rest(b));
}

/// Ten to the `k`.
pub open spec fn pow10(k: nat) -> int
    decreases k,
{
    if k == 0 {
        1
    } else {
        10 * pow10((k - 1) as nat)
    }
}

/// The value of concatenated digit strings.
pub proof fn lemma_digits_val_concat(a: Seq<char>, b: Seq<char>)
    ensures
        digits_val(a + b) == digits_val(a) * pow10(b.len()) + digits_val(b),
    decreases b.len(),
{
    if b.len() == 0 {
        assert(a + b =~= a);
    } else {
        assert((a + b).drop_last() =~= a + b.drop_last());
        assert((a + b).last() == b.last());
        lemma_digits_val_concat(a, b.drop_last());
        let k: nat = (b.len() - 1) as nat;
        assert(digits_val(a + b) == (digits_val(a) * pow10(k) + digits_val(b.drop_last())) * 10
            + digit_val(b.last()));
        assert(digits_val(a) * pow10(k) * 10 == digits_val(a) * pow10(b.len())) by (nonlinear_arith)
            requires
                pow10(b.len()) == 10 * pow10(k),
        ;
    }
}

/// A digit string's value is non-negative.
pub proof fn lemma_digits_val_nonneg(ds: Seq<char>)
    requires
        forall|i: int| 0 <= i < ds.len() ==> is_digit(#[trigger] ds[i]),
    ensures
        digits_val(ds) >= 0,
    decreases ds.len(),
{
    if ds.len() > 0 {
        assert(forall|i: int|
            0 <= i < ds.drop_last().len() ==> is_digit(#[trigger] ds.drop_last()[i]));
        lemma_digits_val_nonneg(ds.drop_last());
        assert(is_digit(ds.last()));
    }
}

/// `pow10` is at least one.
pub proof fn lemma_pow10_pos(k: nat)
    ensures
        pow10(k) >= 1,
    decreases k,
{
    if k > 0 {
        lemma_pow10_pos((k - 1) as nat);
    }
}

/// A digit string's value only grows when more digits follow.
pub proof fn lemma_digits_val_prefix_le(ds: Seq<char>, m: int)
    requires
        0 <= m <= ds.len(),
        forall|i: int| 0 <= i < ds.len() ==> is_digit(#[trigger] ds[i]),
    ensures
        digits_val(ds.take(m)) <= digits_val(ds),
{
    let a = ds.take(m);
    let b = ds.skip(m);
    assert(ds =~= a + b);
    lemma_digits_val_concat(a, b);
    assert(forall|i: int| 0 <= i < b.len() ==> is_digit(#[trigger] b[i]));
    assert(forall|i: int| 0 <= i < a.len() ==> is_digit(#[trigger] a[i]));
    lemma_digits_val_nonneg(b);
    lemma_digits_val_nonneg(a);
    lemma_pow10_pos(b.len());
    assert(digits_val(a) * pow10(b.len()) >= digits_val(a)) by (nonlinear_arith)
        requires
            digits_val(a) >= 0,
            pow10(b.len()) >= 1,
    ;
}

/// A request payload is not mistaken for a response: the response parse
/// fails on it.
pub proof fn lemma_request_not_response(m: ModeView)
    ensures
        p_response_doc(enc_request(m)) is None,
{
    let s2 = seq!['}'] + Seq::<char>::empty();
    let s1 = enc_mode(m) + s2;
    let input = enc_request(m);
    assert(input =~= lit_mode_open() + s1);
    lemma_p_lit_enc(lit_mode_open(), s1);
    lemma_p_mode_enc(m, s2);
    assert(s2 =~= seq!['}']);
    if s2.len() >= lit_data().len() && s2.take(lit_data().len() as int) == lit_data() {
        assert(false);
    }
}

/// A free-text payload is mistaken for neither a response nor a request.
pub proof fn lemma_chat_not_response_or_request(msg: Seq<char>)
    ensures
        p_response_doc(enc_chat(msg)) is None,
        p_request_doc(enc_chat(msg)) is None,
{
    let input = enc_chat(msg);
    assert(input[3] == 's');
    if input.len() >= lit_mode_open().len() && input.take(lit_mode_open().len() as int)
        == lit_mode_open() {
        assert(input.take(lit_mode_open().len() as int)[3] == 'o');
        assert(false);
    }
}

} // verus!
