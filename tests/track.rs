use spotify_dl::track::{
    expansion_of, parse_url, uri_from_groups, Album, Expansion, ItemKind, Playlist, SpotifyRef, Track,
};

#[test]
fn url_to_uri() {
    assert_eq!(
        parse_url("https://open.spotify.com/track/4uLU6hMCjMI75M1A2tKUQC"),
        Some("spotify:track:4uLU6hMCjMI75M1A2tKUQC".to_string())
    );
    assert_eq!(
        parse_url("https://open.spotify.com/intl-de/album/1DFixLWuPkv3KT3TnV35m3?si=x"),
        Some("spotify:album:1DFixLWuPkv3KT3TnV35m3".to_string())
    );
    assert_eq!(parse_url("spotify:track:4uLU6hMCjMI75M1A2tKUQC"), None);
    assert_eq!(parse_url("https://example.com/track/abc"), None);
}

#[test]
fn uri_from_capture_groups() {
    let g = Some(vec![Some("whole".to_string()), Some("playlist".to_string()), Some("xyz".to_string())]);
    assert_eq!(uri_from_groups(g), Some("spotify:playlist:xyz".to_string()));
    assert_eq!(uri_from_groups(Some(vec![Some("w".to_string()), None, Some("x".to_string())])), None);
    assert_eq!(uri_from_groups(Some(vec![Some("w".to_string())])), None);
    assert_eq!(uri_from_groups(None), None);
}

#[test]
fn expansions() {
    assert_eq!(expansion_of(ItemKind::Track), Expansion::Single);
    assert_eq!(expansion_of(ItemKind::Episode), Expansion::Single);
    assert_eq!(expansion_of(ItemKind::Album), Expansion::Album);
    assert_eq!(expansion_of(ItemKind::Playlist), Expansion::Playlist);
    assert_eq!(expansion_of(ItemKind::Other), Expansion::Unsupported);
}

#[test]
fn collections_expand_in_order() {
    let ids = vec![
        SpotifyRef { id: 1, kind: ItemKind::Track },
        SpotifyRef { id: 2, kind: ItemKind::Track },
        SpotifyRef { id: 3, kind: ItemKind::Episode },
    ];
    let from_album = Album::tracks_from(&ids);
    assert_eq!(from_album, vec![Track::from_id(ids[0]), Track::from_id(ids[1]), Track::from_id(ids[2])]);
    let from_playlist = Playlist::tracks_from(&ids);
    assert_eq!(from_playlist[0], Track::from_id_with_position(ids[0], 1));
    assert_eq!(from_playlist[2].position, Some(3));
    assert!(Playlist::tracks_from(&vec![]).is_empty());
}
