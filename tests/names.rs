use spotify_dl::track::{AlbumMetadata, ArtistMetadata, TrackMetadata};
use spotify_dl::utils::clean_invalid_characters;

fn metadata(artists: &[&str], title: &str, position: Option<usize>) -> TrackMetadata {
    TrackMetadata {
        artists: artists.iter().map(|a| ArtistMetadata { name: a.to_string() }).collect(),
        track_name: title.to_string(),
        album: AlbumMetadata { name: "Album".to_string(), cover: None },
        duration: 180_000,
        position,
    }
}

#[test]
fn display_name_caps_artists_at_three() {
    let m = metadata(&["A", "B", "C", "D"], "T", None);
    assert_eq!(m.to_string(), "A, B, C, and others - T");
}

#[test]
fn display_name_two_artists() {
    let m = metadata(&["A", "B"], "T", None);
    assert_eq!(m.to_string(), "A, B - T");
}

#[test]
fn display_name_three_artists_kept() {
    let m = metadata(&["A", "B", "C"], "T", None);
    assert_eq!(m.to_string(), "A, B, C - T");
}

#[test]
fn display_name_no_artists() {
    let m = metadata(&[], "T", None);
    assert_eq!(m.to_string(), " - T");
}

#[test]
fn display_name_leaves_out_the_position() {
    let m = metadata(&["A"], "T", Some(7));
    assert_eq!(m.to_string(), "A - T");
}

#[test]
fn display_name_removes_invalid_characters() {
    let m = metadata(&["AC/DC"], "What? *Now*", None);
    assert_eq!(m.to_string(), "ACDC - What Now");
}

#[test]
fn clean_removes_every_invalid_character() {
    assert_eq!(clean_invalid_characters("a<b>c:d'e\"f/g\\h|i?j*k"), "abcdefghijk");
}

#[test]
fn clean_removes_control_characters() {
    assert_eq!(clean_invalid_characters("a\u{0}b\tc\nd\u{7f}e\u{85}f"), "abcdef");
}

#[test]
fn clean_keeps_non_ascii() {
    assert_eq!(clean_invalid_characters("Björk – Jóga"), "Björk – Jóga");
}

#[test]
fn clean_is_idempotent() {
    for s in ["", "plain", "a:b/c", "x\u{1}y?z", "<<>>", "ÄÖÜ|ß"] {
        let once = clean_invalid_characters(s);
        assert_eq!(clean_invalid_characters(&once), once);
    }
}

#[test]
fn clean_empty() {
    assert_eq!(clean_invalid_characters(""), "");
}

#[test]
fn approx_size_of_track() {
    let m = metadata(&["A"], "T", None);
    assert_eq!(m.approx_size(), 180 * 352_800);
    let mut short = metadata(&["A"], "T", None);
    short.duration = 999;
    assert_eq!(short.approx_size(), 0);
    short.duration = -5000;
    assert_eq!(short.approx_size(), 0);
}

#[test]
fn metadata_from_values() {
    let m = TrackMetadata::from(
        "Song".to_string(),
        61_500,
        4,
        vec!["X".to_string(), "Y".to_string()],
        "Record".to_string(),
        Some(vec![1, 2, 3]),
        None,
    );
    assert_eq!(m.position, Some(4));
    assert_eq!(m.to_string(), "X, Y - Song");
    assert_eq!(m.album.name, "Record");
    let m = TrackMetadata::from("S".to_string(), 0, -1, vec![], "R".to_string(), None, None);
    assert_eq!(m.position, None);
    let m = TrackMetadata::from("S".to_string(), 0, 9, vec![], "R".to_string(), None, Some(2));
    assert_eq!(m.position, Some(2));
}

#[test]
fn tags_of_metadata() {
    let m = metadata(&["A", "B"], "T", Some(3));
    let t = m.tags(Some(vec![9, 9]));
    assert_eq!(t.title, "T");
    assert_eq!(t.artists, vec!["A".to_string(), "B".to_string()]);
    assert_eq!(t.album_title, "Album");
    assert_eq!(t.album_cover, Some(vec![9, 9]));
    assert_eq!(t.position, Some(3));
}
