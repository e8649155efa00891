use spotify_dl::encoder::flac::FlacEncoder;
use spotify_dl::encoder::mp3::{max_required_buffer_size, mp3_stream_from, Mp3Encoder};
use spotify_dl::encoder::tags::{plan_tags, TagKind, Tags};
use spotify_dl::encoder::{get_encoder, EncodeError, Encoder, Format, FormatError, Samples};

#[test]
fn format_names_and_extensions() {
    assert_eq!(Format::parse("flac"), Ok(Format::Flac));
    assert_eq!(Format::parse("mp3"), Ok(Format::Mp3));
    assert_eq!(Format::parse("wav"), Err(FormatError::Unsupported));
    assert_eq!(Format::parse("FLAC"), Err(FormatError::Unsupported));
    assert_eq!(Format::parse(""), Err(FormatError::Unsupported));
    assert_eq!("mp3".parse::<Format>(), Ok(Format::Mp3));
    assert_eq!(Format::Flac.extension(), "flac");
    assert_eq!(Format::Mp3.extension(), "mp3");
}

#[test]
fn to_s24_shifts_down() {
    let s = Samples::new(vec![256, 511, -1, -256, -257, 0x7fff_ffff], 44100, 2, 16);
    assert_eq!(s.to_s24(), vec![1, 1, -1, -1, -2, 0x7f_ffff]);
}

fn tone(n: usize) -> Vec<i32> {
    (0..n).map(|i| ((i as i32 * 37) % 2000) - 1000).collect()
}

#[test]
fn flac_output_starts_with_marker() {
    let out = FlacEncoder.encode(Samples::new(tone(8820), 44100, 2, 16)).expect("flac encodes");
    assert!(out.stream.len() > 4);
    assert_eq!(&out.stream[..4], b"fLaC");
}

#[test]
fn flac_refuses_layouts_it_cannot_hold() {
    let r = FlacEncoder.encode(Samples::new(tone(100), 44100, 0, 16));
    assert!(matches!(r, Err(EncodeError::InvalidInput)));
    let r = FlacEncoder.encode(Samples::new(tone(101), 44100, 2, 16));
    assert!(matches!(r, Err(EncodeError::InvalidInput)));
    let r = FlacEncoder.encode(Samples::new(vec![40_000, 0], 44100, 2, 16));
    assert!(matches!(r, Err(EncodeError::InvalidInput)));
    let r = FlacEncoder.encode(Samples::new(vec![0, 0], 44100, 2, 32));
    assert!(matches!(r, Err(EncodeError::InvalidInput)));
}

#[test]
fn flac_accepts_extreme_samples_of_the_depth() {
    let out = FlacEncoder.encode(Samples::new(vec![-32768, 32767, 0, 1], 44100, 2, 16)).expect("flac encodes");
    assert_eq!(&out.stream[..4], b"fLaC");
}

#[test]
fn flac_refuses_a_rate_it_cannot_store() {
    let r = FlacEncoder.encode(Samples::new(tone(100), 200_000, 2, 16));
    assert!(matches!(r, Err(EncodeError::Codec)));
}

#[test]
fn mp3_refuses_too_many_channels() {
    let r = Mp3Encoder.encode(Samples::new(tone(4), 44100, 256, 16));
    assert!(matches!(r, Err(EncodeError::InvalidInput)));
}

#[test]
fn dispatch_by_format() {
    let out = get_encoder(Format::Flac).encode(Samples::new(tone(4410), 44100, 2, 16)).expect("flac encodes");
    assert_eq!(&out.stream[..4], b"fLaC");
}

#[test]
fn mp3_refuses_odd_sample_count() {
    let r = Mp3Encoder.encode(Samples::new(tone(3), 44100, 2, 16));
    assert!(matches!(r, Err(EncodeError::InvalidInput)));
}

#[test]
fn mp3_encodes_stereo() {
    let out = Mp3Encoder.encode(Samples::new(tone(44100), 44100, 2, 16)).expect("mp3 encodes");
    assert!(!out.stream.is_empty());
}

#[test]
fn tag_plan_keeps_small_positions() {
    let tags = Tags { title: "T".to_string(), artists: vec![], album_title: "L".to_string(), album_cover: None, position: Some(12) };
    assert_eq!(plan_tags(tags, Format::Flac).track_number, Some(12));
}

#[test]
fn tag_plan_for_each_format() {
    let tags = Tags {
        title: "T".to_string(),
        artists: vec!["A".to_string(), "B".to_string()],
        album_title: "L".to_string(),
        album_cover: Some(vec![1]),
        position: Some(70_000),
    };
    let plan = plan_tags(tags, Format::Mp3);
    assert_eq!(plan.kind, TagKind::Id3v2);
    assert!(plan.create_empty_id3);
    assert_eq!(plan.artists, vec!["A".to_string(), "B".to_string()]);
    assert_eq!(plan.title, "T");
    assert_eq!(plan.album_title, "L");
    assert_eq!(plan.track_number, None);
    assert_eq!(plan.album_cover, Some(vec![1]));
    let none = Tags { title: "T".to_string(), artists: vec![], album_title: "L".to_string(), album_cover: None, position: None };
    let plan = plan_tags(none, Format::Flac);
    assert_eq!(plan.album_cover, None);
    assert_eq!(plan.kind, TagKind::Flac);
    assert!(!plan.create_empty_id3);
    assert!(plan.artists.is_empty());
    assert_eq!(plan.track_number, None);
}

#[test]
fn lame_buffer_size_matches_the_crate() {
    assert_eq!(max_required_buffer_size(0), Some(7200));
    assert_eq!(max_required_buffer_size(5), Some(7207));
    for n in [0usize, 1, 3, 4, 5, 1000, 44_101] {
        assert_eq!(max_required_buffer_size(n), Some(mp3lame_encoder::max_required_buffer_size(n)));
    }
    assert_eq!(max_required_buffer_size(usize::MAX), None);
}

#[test]
fn dispatch_to_mp3() {
    let out = get_encoder(Format::Mp3).encode(Samples::new(tone(8820), 44100, 2, 16)).expect("mp3 encodes");
    assert!(out.stream.len() > 4);
}

#[test]
fn mp3_stream_from_parts() {
    let ok = mp3_stream_from(Some(vec![1, 2]), Some(vec![3])).expect("both parts");
    assert_eq!(ok.stream, vec![1, 2, 3]);
    assert!(matches!(mp3_stream_from(None, Some(vec![3])), Err(EncodeError::Codec)));
    assert!(matches!(mp3_stream_from(Some(vec![1]), None), Err(EncodeError::Codec)));
}
