use medialibrary::probe::Track;
use medialibrary::video::{Video, MEDIA_MOVIE};

#[test]
fn tracks_fill_a_video() {
    let tracks = vec![
        Track::General { bit_rate: 4_000_000, duration: 7_200_000, size: 3_600_000_000 },
        Track::Video { codec: Some("V_MPEGH/ISO/HEVC".to_string()), width: 3840, height: 2160 },
        Track::Audio { language: Some("en".to_string()) },
        Track::Audio { language: None },
        Track::Audio { language: Some("fr".to_string()) },
        Track::Text { language: Some("de".to_string()) },
        Track::Other,
    ];
    let v = Video::from_tracks("/m/film.mkv".to_string(), MEDIA_MOVIE, &tracks);
    assert_eq!(v.path, "/m/film.mkv");
    assert_eq!(v.bit_rate, 4_000_000);
    assert_eq!(v.duration, 7_200_000);
    assert_eq!(v.size, 3_600_000_000);
    assert_eq!(v.codec, Some("V_MPEGH/ISO/HEVC".to_string()));
    assert_eq!((v.width, v.height), (3840, 2160));
    assert_eq!(v.audios, vec!["en".to_string(), "fr".to_string()]);
    assert_eq!(v.subtitles, vec!["de".to_string()]);
    assert_eq!(v.media_id, None);
}

#[test]
fn no_tracks_leave_a_blank_video() {
    let v = Video::from_tracks("/m/x.mkv".to_string(), MEDIA_MOVIE, &Vec::new());
    assert_eq!((v.bit_rate, v.duration, v.size, v.width, v.height), (0, 0, 0, 0, 0));
    assert_eq!(v.codec, None);
    assert!(v.audios.is_empty() && v.subtitles.is_empty());
}

#[test]
fn last_general_track_wins() {
    let tracks = vec![
        Track::General { bit_rate: 1, duration: 2, size: 3 },
        Track::General { bit_rate: 4, duration: 5, size: 6 },
    ];
    let v = Video::from_tracks("/m/y.mkv".to_string(), MEDIA_MOVIE, &tracks);
    assert_eq!((v.bit_rate, v.duration, v.size), (4, 5, 6));
}
