use vstd::prelude::*;

use crate::encoder::tags::Tags;
use crate::stream::channel_sink::{approximate_bytes, convert_track_duration_to_size};
use crate::utils::{clean_invalid_characters, sanitized};

verus! {

/// The kinds of item an identifier names.
#[derive(Debug, Clone, Copy, PartialEq, Eq, Structural)]
pub enum ItemKind {
    Track,
    Episode,
    Album,
    Playlist,
    Other,
}

/// A provider identifier: the 128-bit id and the kind of item it names.
#[derive(Debug, Clone, Copy, PartialEq, Eq, Structural)]
pub struct SpotifyRef {
    pub id: u128,
    pub kind: ItemKind,
}

/// A track to download, with its position in the collection it came from.
#[derive(Debug, Clone, Copy, PartialEq, Eq, Structural)]
pub struct Track {
    pub id: SpotifyRef,
    pub position: Option<usize>,
}

impl Track {
    pub fn from_id(id: SpotifyRef) -> (r: Track)
        ensures
            r.id == id,
            r.position is None,
    {
        Track { id, position: None }
    }

    pub fn from_id_with_position(id: SpotifyRef, position: usize) -> (r: Track)
        ensures
            r.id == id,
            r.position == Some(position),
    {
        Track { id, position: Some(position) }
    }
}

/// How an identifier expands into tracks.
#[derive(Debug, Clone, Copy, PartialEq, Eq, Structural)]
pub enum Expansion {
    Single,
    Album,
    Playlist,
    Unsupported,
}

/// Tracks and episodes stand for themselves; albums and playlists expand
/// into their tracks; other kinds are not downloaded.
pub fn expansion_of(kind: ItemKind) -> (r: Expansion)
    ensures
        (kind is Track || kind is Episode) <==> r is Single,
        kind is Album <==> r is Album,
        kind is Playlist <==> r is Playlist,
        kind is Other <==> r is Unsupported,
{
    match kind {
        ItemKind::Track | ItemKind::Episode => Expansion::Single,
        ItemKind::Album => Expansion::Album,
        ItemKind::Playlist => Expansion::Playlist,
        ItemKind::Other => Expansion::Unsupported,
    }
}

pub struct Album {
    pub id: SpotifyRef,
}

impl Album {
    pub fn from_id(id: SpotifyRef) -> (r: Album)
        ensures
            r.id == id,
    {
        Album { id }
    }

    /// The album's tracks, in order, without positions.
    pub fn tracks_from(ids: &Vec<SpotifyRef>) -> (r: Vec<Track>)
        ensures
            r@.len() == ids@.len(),
            forall|i: int| 0 <= i < r@.len() ==> #[trigger] r@[i] == (Track { id: ids@[i], position: None }),
    {
        let mut out: Vec<Track> = Vec::new();
        for i in 0..ids.len()
            invariant
                out@.len() == i,
                forall|j: int| 0 <= j < i ==> #[trigger] out@[j] == (Track { id: ids@[j], position: None }),
        {
            out.push(Track::from_id(ids[i]));
        }
        out
    }
}

pub struct Playlist {
    pub id: SpotifyRef,
}

impl Playlist {
    pub fn from_id(id: SpotifyRef) -> (r: Playlist)
        ensures
            r.id == id,
    {
        Playlist { id }
    }

    /// The playlist's tracks, in order, numbered from one.
    pub fn tracks_from(ids: &Vec<SpotifyRef>) -> (r: Vec<Track>)
        ensures
            r@.len() == ids@.len(),
            forall|i: int| 0 <= i < r@.len() ==> #[trigger] r@[i] == (Track {
                id: ids@[i],
                position: Some((i + 1) as usize),
            }),
    {
        let mut out: Vec<Track> = Vec::new();
        let n = ids.len();
        for i in 0..n
            invariant
                n == ids@.len(),
                out@.len() == i,
                forall|j: int| 0 <= j < i ==> #[trigger] out@[j] == (Track {
                    id: ids@[j],
                    position: Some((j + 1) as usize),
                }),
        {
            out.push(Track::from_id_with_position(ids[i], i + 1));
        }
        out
    }
}

pub struct ArtistMetadata {
    pub name: String,
}

pub struct AlbumMetadata {
    pub name: String,
    /// The file id of the album's first cover image, if it has one.
    pub cover: Option<Vec<u8>>,
}

/// What is known of a track: immutable once resolved.
pub struct TrackMetadata {
    pub artists: Vec<ArtistMetadata>,
    pub track_name: String,
    pub album: AlbumMetadata,
    pub duration: i32,
    pub position: Option<usize>,
}

pub open spec fn artist_names(artists: Seq<ArtistMetadata>) -> Seq<Seq<char>> {
    artists.map_values(|a: ArtistMetadata| a.name@)
}

/// The names separated by ", ".
pub open spec fn joined(names: Seq<Seq<char>>) -> Seq<char>
    decreases names.len(),
{
    if names.len() == 0 {
        seq![]
    } else if names.len() == 1 {
        names[0]
    } else {
        joined(names.drop_last()) + ", "@ + names.last()
    }
}

/// At most three names, then "and others" if there were more.
pub open spec fn artists_part(names: Seq<Seq<char>>) -> Seq<char> {
    if names.len() > 3 {
        joined(names.take(3)) + ", and others"@
    } else {
        joined(names)
    }
}

/// The name a track is shown and stored under.
pub open spec fn display_name(names: Seq<Seq<char>>, title: Seq<char>) -> Seq<char> {
    sanitized(artists_part(names) + " - "@ + title)
}

/// Appends the names separated by ", ".
fn push_joined(s: &mut String, artists: &Vec<ArtistMetadata>, count: usize)
    requires
        count <= artists@.len(),
    ensures
        final(s)@ == old(s)@ + joined(artist_names(artists@).take(count as int)),
{
    let ghost names = artist_names(artists@);
    let mut i: usize = 0;
    while i < count
        invariant
            count <= artists@.len(),
            names == artist_names(artists@),
            i <= count,
            s@ == old(s)@ + joined(names.take(i as int)),
        decreases count - i,
    {
        if i > 0 {
            s.append(", ");
        }
        s.append(artists[i].name.as_str());
        proof {
            reveal_strlit(", ");
            let t = names.take(i + 1);
            assert(t.drop_last() =~= names.take(i as int));
            assert(t.last() == artists@[i as int].name@);
            if i == 0 {
                assert(t.len() == 1);
                assert(joined(names.take(0)) =~= seq![]);
            }
        }
        i = i + 1;
    }
}

impl TrackMetadata {
    /// Metadata from resolved values: the track's own position, else its
    /// number on the album when that is not negative.
    pub fn from(
        track_name: String,
        duration: i32,
        number: i32,
        artists: Vec<String>,
        album_name: String,
        cover: Option<Vec<u8>>,
        position: Option<usize>,
    ) -> (r: TrackMetadata)
        ensures
            r.track_name@ == track_name@,
            r.duration == duration,
            artist_names(r.artists@) == artists@.map_values(|a: String| a@),
            r.album.name@ == album_name@,
            r.album.cover == cover,
            position is Some ==> r.position == position,
            position is None && number >= 0 ==> r.position == Some(number as usize),
            position is None && number < 0 ==> r.position is None,
    {
        let mut list: Vec<ArtistMetadata> = Vec::new();
        let ghost names = artists@.map_values(|a: String| a@);
        let n = artists.len();
        let mut i: usize = 0;
        while i < n
            invariant
                n == artists@.len(),
                names == artists@.map_values(|a: String| a@),
                i <= n,
                list@.len() == i,
                artist_names(list@) =~= names.take(i as int),
            decreases n - i,
        {
            let name = artists[i].clone();
            list.push(ArtistMetadata { name });
            proof {
                assert(list@[i as int].name@ == names[i as int]);
                assert(artist_names(list@) =~= names.take(i + 1));
            }
            i = i + 1;
        }
        proof {
            assert(names.take(n as int) =~= names);
        }
        let position = match position {
            Some(p) => Some(p),
            None => if number >= 0 {
                Some(number as usize)
            } else {
                None
            },
        };
        TrackMetadata {
            artists: list,
            track_name,
            album: AlbumMetadata { name: album_name, cover },
            duration,
            position,
        }
    }

    /// The estimated size in bytes of the decoded audio.
    pub fn approx_size(&self) -> (r: usize)
        ensures
            r == approximate_bytes(self.duration),
    {
        convert_track_duration_to_size(self.duration)
    }

    /// The name the track is shown and stored under: up to three artists,
    /// then the title; with the characters a file name may not hold removed.
    pub fn to_string(&self) -> (r: String)
        ensures
            r@ == display_name(artist_names(self.artists@), self.track_name@),
    {
        let mut raw = String::new();
        proof {
            reveal_strlit(", and others");
            reveal_strlit(" - ");
        }
        let ghost names = artist_names(self.artists@);
        if self.artists.len() > 3 {
            push_joined(&mut raw, &self.artists, 3);
            raw.append(", and others");
        } else {
            push_joined(&mut raw, &self.artists, self.artists.len());
            proof {
                assert(names.take(names.len() as int) =~= names);
            }
        }
        raw.append(" - ");
        raw.append(self.track_name.as_str());
        proof {
            let expected = artists_part(names) + " - "@ + self.track_name@;
            assert(raw@ =~= expected);
        }
        clean_invalid_characters(raw.as_str())
    }

    /// The tags to store for the track, with the cover image fetched for it.
    pub fn tags(&self, album_cover: Option<Vec<u8>>) -> (r: Tags)
        ensures
            r.title@ == self.track_name@,
            r.artists@.map_values(|a: String| a@) == artist_names(self.artists@),
            r.album_title@ == self.album.name@,
            r.album_cover == album_cover,
            r.position == self.position,
    {
        let mut artists: Vec<String> = Vec::new();
        let n = self.artists.len();
        let ghost names = artist_names(self.artists@);
        for i in 0..n
            invariant
                n == self.artists@.len(),
                names == artist_names(self.artists@),
                artists@.len() == i,
                artists@.map_values(|a: String| a@) =~= names.take(i as int),
        {
            artists.push(self.artists[i].name.clone());
            proof {
                assert(artists@[i as int]@ == names[i as int]);
                assert(artists@.map_values(|a: String| a@) =~= names.take(i + 1));
            }
        }
        proof {
            assert(names.take(n as int) =~= names);
        }
        Tags {
            title: self.track_name.clone(),
            artists,
            album_title: self.album.name.clone(),
            album_cover,
            position: self.position,
        }
    }
}

} // verus!

verus! {

#[verifier::external_type_specification]
#[verifier::external_body]
pub struct ExRegex(regex::Regex);

#[verifier::external_type_specification]
#[verifier::external_body]
pub struct ExRegexError(regex::Error);

/// Whether the regex crate accepts a pattern.
pub uninterp spec fn pattern_compiles(pattern: Seq<char>) -> bool;

/// The capture groups of the leftmost match of a pattern in a text, if it
/// matches: group 0 is the whole match, a group that took no part is `None`.
pub uninterp spec fn capture_groups(pattern: Seq<char>, text: Seq<char>) -> Option<Seq<Option<Seq<char>>>>;

/// A compiled pattern, with the text it was compiled from.
pub struct Pattern {
    regex: regex::Regex,
    source: String,
}

impl Pattern {
    pub closed spec fn source(&self) -> Seq<char> {
        self.source@
    }
}

/// Relies on regex::Regex::new: compiles a pattern, or refuses it.
#[verifier::external_body]
fn compile_regex(pattern: &str) -> (r: Result<regex::Regex, regex::Error>)
    ensures
        r is Ok <==> pattern_compiles(pattern@),
{
    regex::Regex::new(pattern)
}

/// The pattern compiled, if the regex crate accepts it.
pub fn compile_pattern(pattern: &str) -> (r: Option<Pattern>)
    ensures
        r is Some <==> pattern_compiles(pattern@),
        r matches Some(p) ==> p.source() == pattern@,
{
    match compile_regex(pattern) {
        Ok(regex) => Some(Pattern { regex, source: String::from_str(pattern) }),
        Err(_) => None,
    }
}

/// The view of found capture groups.
pub open spec fn groups_view(g: Option<Vec<Option<String>>>) -> Option<Seq<Option<Seq<char>>>> {
    match g {
        Some(v) => Some(v@.map_values(|m: Option<String>| match m {
            Some(s) => Some(s@),
            None => None,
        })),
        None => None,
    }
}

/// Relies on regex::Regex::captures: the groups of the leftmost match.
#[verifier::external_body]
fn find_captures(p: &Pattern, text: &str) -> (r: Option<Vec<Option<String>>>)
    ensures
        groups_view(r) == capture_groups(p.source(), text@),
{
    p.regex.captures(text).map(|c| c.iter().map(|m| m.map(|m| m.as_str().to_string())).collect())
}

/// The pattern of a web link to an item: its kind, then its id.
pub open spec fn url_pattern() -> Seq<char> {
    "https://open\\.spotify\\.com(?:/intl-[a-z]{2})?/(\\w+)/([a-zA-Z0-9]+)"@
}

/// "spotify:<kind>:<id>".
pub open spec fn uri_of(kind: Seq<char>, id: Seq<char>) -> Seq<char> {
    "spotify:"@ + kind + ":"@ + id
}

/// The identifier that capture groups 1 and 2 of a link spell, if both took
/// part in the match.
pub open spec fn uri_from(groups: Option<Seq<Option<Seq<char>>>>) -> Option<Seq<char>> {
    match groups {
        Some(g) => if g.len() > 2 && g[1] is Some && g[2] is Some {
            Some(uri_of(g[1]->0, g[2]->0))
        } else {
            None
        },
        None => None,
    }
}

/// Builds "spotify:<kind>:<id>" from the capture groups of a link.
pub fn uri_from_groups(groups: Option<Vec<Option<String>>>) -> (r: Option<String>)
    ensures
        r matches Some(s) ==> uri_from(groups_view(groups)) == Some(s@),
        r is None ==> uri_from(groups_view(groups)) is None,
{
    match groups {
        Some(g) => {
            if g.len() > 2 {
                let ghost gv = groups_view(Some(g));
                match (&g[1], &g[2]) {
                    (Some(kind), Some(id)) => {
                        let mut uri = String::from_str("spotify:");
                        uri.append(kind.as_str());
                        uri.append(":");
                        uri.append(id.as_str());
                        proof {
                            assert(gv->0[1] == Some(kind@));
                            assert(gv->0[2] == Some(id@));
                        }
                        Some(uri)
                    },
                    _ => {
                        proof {
                            assert(gv->0[1] == match g@[1] { Some(s) => Some(s@), None => None::<Seq<char>> });
                            assert(gv->0[2] == match g@[2] { Some(s) => Some(s@), None => None::<Seq<char>> });
                        }
                        None
                    },
                }
            } else {
                None
            }
        },
        None => None,
    }
}

/// The identifier a web link names, as "spotify:<kind>:<id>".
pub fn parse_url(track_url: &str) -> (r: Option<String>)
    ensures
        !pattern_compiles(url_pattern()) ==> r is None,
        pattern_compiles(url_pattern()) ==> (match r {
            Some(s) => uri_from(capture_groups(url_pattern(), track_url@)) == Some(s@),
            None => uri_from(capture_groups(url_pattern(), track_url@)) is None,
        }),
{
    let pattern = "https://open\\.spotify\\.com(?:/intl-[a-z]{2})?/(\\w+)/([a-zA-Z0-9]+)";
    match compile_pattern(pattern) {
        Some(p) => uri_from_groups(find_captures(&p, track_url)),
        None => None,
    }
}

} // verus!
