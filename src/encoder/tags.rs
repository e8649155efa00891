use vstd::prelude::*;

use crate::encoder::Format;

verus! {

/// The metadata stored in an output file.
pub struct Tags {
    pub title: String,
    pub artists: Vec<String>,
    pub album_title: String,
    pub album_cover: Option<Vec<u8>>,
    pub position: Option<usize>,
}

} // verus!

verus! {

/// The tag container of a format.
#[derive(Debug, Clone, Copy, PartialEq, Eq, Structural)]
pub enum TagKind {
    Id3v2,
    Flac,
}

/// Exactly what is written into an output file's tags.
pub struct TagPlan {
    pub kind: TagKind,
    /// Whether an empty ID3 tag is written first, for files without one.
    pub create_empty_id3: bool,
    pub title: String,
    pub artists: Vec<String>,
    pub album_title: String,
    pub track_number: Option<u16>,
    pub album_cover: Option<Vec<u8>>,
}

pub open spec fn tag_kind_of(format: Format) -> TagKind {
    match format {
        Format::Mp3 => TagKind::Id3v2,
        Format::Flac => TagKind::Flac,
    }
}

/// Decides what to write into the tags of a file of the given format: the
/// title, every artist in order, the album, the position as a track number
/// (when it fits a 16-bit track number) and the cover.
pub fn plan_tags(tags: Tags, format: Format) -> (r: TagPlan)
    ensures
        r.kind == tag_kind_of(format),
        r.create_empty_id3 == (format == Format::Mp3),
        r.title@ == tags.title@,
        r.artists@ == tags.artists@,
        r.album_title@ == tags.album_title@,
        tags.position matches Some(p) ==> r.track_number == (if p <= u16::MAX {
            Some(p as u16)
        } else {
            None
        }),
        tags.position is None ==> r.track_number is None,
        r.album_cover == tags.album_cover,
{
    let kind = match format {
        Format::Mp3 => TagKind::Id3v2,
        Format::Flac => TagKind::Flac,
    };
    let track_number = match tags.position {
        Some(p) => if p <= u16::MAX as usize {
            Some(p as u16)
        } else {
            None
        },
        None => None,
    };
    TagPlan {
        kind,
        create_empty_id3: format == Format::Mp3,
        title: tags.title,
        artists: tags.artists,
        album_title: tags.album_title,
        track_number,
        album_cover: tags.album_cover,
    }
}

} // verus!
