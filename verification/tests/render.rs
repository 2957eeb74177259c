//! Console rendering: truncation, padding, and the explicit marker.

use spotify_blog::render::{catalog_rows, explicit_is_truthy, song_row, truncate_string};
use spotify_blog::song::Song;

fn song(title: &str, artist: &str, lyrics: &str, explicit: &str) -> Song {
    Song {
        id: 0,
        title: title.to_string(),
        artist: artist.to_string(),
        lyrics: lyrics.to_string(),
        explicit: explicit.to_string(),
        public: false,
    }
}

#[test]
fn short_text_is_padded_to_the_width() {
    assert_eq!(truncate_string("hello", 8), "hello   ");
    assert_eq!(truncate_string("", 4), "    ");
    assert_eq!(truncate_string("abcd", 4), "abcd");
}

#[test]
fn widths_below_three_pad_fitting_text() {
    assert_eq!(truncate_string("hi", 2), "hi");
    assert_eq!(truncate_string("a", 2), "a ");
    assert_eq!(truncate_string("", 0), "");
}

#[test]
fn long_text_is_cut_with_an_ellipsis() {
    assert_eq!(truncate_string("averylongtitle", 8), "avery...");
    assert_eq!(truncate_string("abcde", 4), "a...");
}

#[test]
fn truthy_tokens_match_case_insensitively() {
    for t in ["true", "t", "1", "yes", "y", "TRUE", "True", "tRuE", "T", "YES", "Yes", "Y"] {
        assert!(explicit_is_truthy(t));
    }
    for t in ["false", "FALSE", "0", "no", "No", "", "truthy", "ye s"] {
        assert!(!explicit_is_truthy(t));
    }
}

#[test]
fn song_row_lays_out_fixed_columns() {
    let row = song_row(&song("  A", "B", "L", "true"));
    let expected = format!("{:<7} {:<22} {:<20} {:<24}", "[0]", "A \u{1F174}", "B", "L");
    assert_eq!(row, expected);
}

#[test]
fn song_row_without_truthy_flag_has_no_marker() {
    let row = song_row(&song("A", "B", "L", "false"));
    let expected = format!("{:<7} {:<22} {:<20} {:<24}", "[0]", "A", "B", "L");
    assert_eq!(row, expected);
}

#[test]
fn catalog_rows_render_every_song() {
    let songs = vec![song("A", "B", "L", "t"), song("C", "D", "M", "f")];
    let rows = catalog_rows(&songs);
    assert_eq!(rows.len(), 2);
    assert!(rows[0].contains("A"));
    assert!(rows[1].contains("C"));
}
