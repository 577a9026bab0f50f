use medialibrary::like::matches_like;
use medialibrary::model::{Credits, Movie};
use medialibrary::query::{Column, MediaInfo, Operator, Predicate, VideoSearch};
use medialibrary::store::{SqlLibrary, StoreError, Table};
use medialibrary::video::{ErrorKind, Video, MEDIA_EPISODE, MEDIA_MOVIE};

fn video(path: &str, media_type: u8, subtitles: &[&str], audios: &[&str]) -> Video {
    let mut v = Video::new(path.to_string(), media_type);
    v.duration = 5400;
    v.bit_rate = 8000;
    v.size = 1 << 30;
    v.width = 1920;
    v.height = 1080;
    v.codec = Some("V_MPEG4/ISO/AVC".to_string());
    v.adding = "2021-03-04 10:00:00".to_string();
    v.subtitles = subtitles.iter().map(|s| s.to_string()).collect();
    v.audios = audios.iter().map(|s| s.to_string()).collect();
    v
}

fn movie(id: u64, title: &str) -> Movie {
    Movie {
        id,
        budget: 0,
        title: title.to_string(),
        original_title: title.to_string(),
        original_language: "en".to_string(),
        overview: None,
        release_date: "1999-03-31".to_string(),
        popularity: "1".to_string(),
        poster_path: None,
        backdrop_path: None,
        homepage: None,
        vote_average: "8".to_string(),
        vote_count: 1,
        tagline: None,
        status: "Released".to_string(),
        adult: false,
        genres: Vec::new(),
        production_companies: Vec::new(),
        production_countries: Vec::new(),
        spoken_languages: Vec::new(),
        credits: Credits { cast: Vec::new() },
    }
}

#[test]
fn new_video_is_blank() {
    let v = Video::new("/m/a.mkv".to_string(), MEDIA_MOVIE);
    assert_eq!(v.path, "/m/a.mkv");
    assert_eq!(v.media_type, 0);
    assert_eq!(v.media_id, None);
    assert!(v.subtitles.is_empty() && v.audios.is_empty());
}

#[test]
fn subtitle_languages_round_trip() {
    let mut lib = SqlLibrary::new();
    let id = lib.create_video(&video("/m/a.mkv", MEDIA_MOVIE, &["en", "fr"], &["fr"])).unwrap();
    let v = lib.get_video(id).unwrap();
    let mut subs = v.subtitles.clone();
    subs.sort();
    assert_eq!(subs, vec!["en".to_string(), "fr".to_string()]);
    assert_eq!(v.audios, vec!["fr".to_string()]);
    assert_eq!(v.path, "/m/a.mkv");
    assert_eq!(v.duration, 5400);
    assert_eq!(v.codec, Some("V_MPEG4/ISO/AVC".to_string()));
    assert_eq!(v.media_id, None);
}

#[test]
fn repeated_language_is_stored_once() {
    let mut lib = SqlLibrary::new();
    let id = lib.create_video(&video("/m/b.mkv", MEDIA_MOVIE, &["en", "en"], &[])).unwrap();
    let v = lib.get_video(id).unwrap();
    assert_eq!(v.subtitles, vec!["en".to_string()]);
    assert!(v.audios.is_empty());
}

#[test]
fn languages_stay_with_their_video() {
    let mut lib = SqlLibrary::new();
    let a = lib.create_video(&video("/m/a.mkv", MEDIA_MOVIE, &["en"], &[])).unwrap();
    let b = lib.create_video(&video("/m/b.mkv", MEDIA_MOVIE, &["de"], &[])).unwrap();
    assert_ne!(a, b);
    assert_eq!(lib.get_video(a).unwrap().subtitles, vec!["en".to_string()]);
    assert_eq!(lib.get_video(b).unwrap().subtitles, vec!["de".to_string()]);
}

#[test]
fn same_path_twice_is_a_constraint_error() {
    let mut lib = SqlLibrary::new();
    lib.create_video(&video("/m/a.mkv", MEDIA_MOVIE, &[], &[])).unwrap();
    let r = lib.create_video(&video("/m/a.mkv", MEDIA_EPISODE, &["en"], &[]));
    assert_eq!(r, Err(StoreError::Constraint(Table::Videos)));
    assert_eq!(lib.video.videos.len(), 1);
    assert!(lib.video.subtitles.is_empty());
}

#[test]
fn lookups_by_path_and_id() {
    let mut lib = SqlLibrary::new();
    let id = lib.create_video(&video("/t/s01e01.mkv", MEDIA_EPISODE, &[], &[])).unwrap();
    assert_eq!(lib.get_video_id(&"/t/s01e01.mkv".to_string()), Ok(id));
    assert_eq!(lib.get_video_id(&"/nowhere".to_string()), Err(StoreError::NoRows));
    assert_eq!(lib.get_video_media_type(id), Some(MEDIA_EPISODE));
    assert_eq!(lib.get_video_media_type(id + 1), None);
    assert!(lib.get_video(id + 1).is_none());
}

#[test]
fn edit_media_id_and_path() {
    let mut lib = SqlLibrary::new();
    let a = lib.create_video(&video("/m/a.mkv", MEDIA_MOVIE, &[], &[])).unwrap();
    let b = lib.create_video(&video("/m/b.mkv", MEDIA_MOVIE, &[], &[])).unwrap();
    lib.edit_video_media_id(a, 77);
    assert_eq!(lib.get_video(a).unwrap().media_id, Some(77));
    assert_eq!(lib.get_video(b).unwrap().media_id, None);
    assert_eq!(
        lib.edit_video_path(a, &"/m/b.mkv".to_string()),
        Err(StoreError::Constraint(Table::Videos))
    );
    assert_eq!(lib.edit_video_path(a, &"/m/c.mkv".to_string()), Ok(()));
    assert_eq!(lib.get_video(a).unwrap().path, "/m/c.mkv");
    assert_eq!(lib.edit_video_path(a, &"/m/c.mkv".to_string()), Ok(()));
}

#[test]
fn last_time_is_replaced() {
    let mut lib = SqlLibrary::new();
    lib.edit_last_time(1, 2, 30);
    lib.edit_last_time(1, 3, 10);
    lib.edit_last_time(1, 2, 95);
    assert_eq!(lib.video.last_times.len(), 2);
    assert!(lib
        .video
        .last_times
        .iter()
        .any(|r| r.video_id == 1 && r.user_id == 2 && r.last_time == 95));
    assert!(!lib.video.last_times.iter().any(|r| r.last_time == 30));
}

#[test]
fn set_movie_checks_type_and_presence() {
    let mut lib = SqlLibrary::new();
    let m = lib.create_video(&video("/m/a.mkv", MEDIA_MOVIE, &[], &[])).unwrap();
    let e = lib.create_video(&video("/t/a.mkv", MEDIA_EPISODE, &[], &[])).unwrap();
    let mut vm = lib.get_video(m).unwrap();
    let mut ve = lib.get_video(e).unwrap();
    let mut ghost = Video::new("/m/ghost.mkv".to_string(), MEDIA_MOVIE);
    ghost.id = 99;
    assert_eq!(ghost.set_movie(&mut lib, 603), Err(ErrorKind::NoVideo));
    assert_eq!(ve.set_movie(&mut lib, 603), Err(ErrorKind::MediaType));
    assert_eq!(vm.set_movie(&mut lib, 603), Err(ErrorKind::NoMedia));
    assert!(matches!(vm.movie(&lib), Ok(None)));
    lib.create_movie(&movie(603, "The Matrix")).unwrap();
    assert_eq!(vm.set_movie(&mut lib, 603), Ok(()));
    assert_eq!(vm.media_id, Some(603));
    assert_eq!(lib.get_video(m).unwrap().media_id, Some(603));
    let row = vm.movie(&lib).unwrap().unwrap();
    assert_eq!(row.id, 603);
    assert_eq!(row.title, "The Matrix");
    assert!(ve.movie(&lib).is_err());
    assert_eq!(vm.set_tv(&mut lib, 1), Err(ErrorKind::MediaType));
    assert_eq!(ve.set_tv(&mut lib, 1), Err(ErrorKind::NoMedia));
    assert_eq!(ve.tv_episode(&lib).map(|o| o.is_none()), Ok(true));
}

#[test]
fn single_language_inserts() {
    let mut lib = SqlLibrary::new();
    let id = lib.create_video(&video("/m/a.mkv", MEDIA_MOVIE, &["en"], &[])).unwrap();
    assert_eq!(lib.create_video_subtitle(id, &"fr".to_string()), Ok(()));
    assert_eq!(lib.create_video_subtitle(id, &"en".to_string()), Ok(()));
    assert_eq!(lib.create_video_audio(id, &"ja".to_string()), Ok(()));
    assert_eq!(lib.create_video_audio(id + 5, &"ja".to_string()), Err(StoreError::NoRows));
    let v = lib.get_video(id).unwrap();
    assert_eq!(v.subtitles, vec!["en".to_string(), "fr".to_string()]);
    assert_eq!(v.audios, vec!["ja".to_string()]);
}

#[test]
fn listing_filters_and_media_info() {
    let mut lib = SqlLibrary::new();
    let a = lib.create_video(&video("/m/a.mkv", MEDIA_MOVIE, &[], &[])).unwrap();
    let b = lib.create_video(&video("/m/b.mkv", MEDIA_MOVIE, &[], &[])).unwrap();
    let c = lib.create_video(&video("/t/c.mkv", MEDIA_EPISODE, &[], &[])).unwrap();
    lib.create_movie(&movie(603, "The Matrix")).unwrap();
    let mut va = lib.get_video(a).unwrap();
    va.set_movie(&mut lib, 603).unwrap();

    let all = VideoSearch::new().results(&lib);
    assert_eq!(all.iter().map(|v| v.id).collect::<Vec<u64>>(), vec![a, b, c]);

    let mut s = VideoSearch::new();
    let movies = s.movie().results(&lib);
    assert_eq!(movies.iter().map(|v| v.id).collect::<Vec<u64>>(), vec![a, b]);
    match &movies[0].info {
        MediaInfo::Movie(m) => {
            assert_eq!(m.id, 603);
            assert_eq!(m.title, "The Matrix");
            assert_eq!(m.release_date, "1999-03-31");
        }
        _ => panic!("expected movie info"),
    }
    assert!(matches!(movies[1].info, MediaInfo::Unknown));

    let unassigned = s.unknown().results(&lib);
    assert_eq!(unassigned.iter().map(|v| v.id).collect::<Vec<u64>>(), vec![b]);

    let mut t = VideoSearch::new();
    let episodes = t.tv().results(&lib);
    assert_eq!(episodes.iter().map(|v| v.id).collect::<Vec<u64>>(), vec![c]);
    let replaced = t.movie().results(&lib);
    assert_eq!(replaced.len(), 2);
    assert_eq!(t.parameters.len(), 1);

    let mut p = VideoSearch::new();
    assert!(p.path("/t/c.mkv".to_string()).exist(&lib));
    assert!(!p.path("/t/none.mkv".to_string()).exist(&lib));
    let mut q = VideoSearch::new();
    assert_eq!(q.media_id(603).results(&lib).len(), 1);
    let mut r = VideoSearch::new();
    assert_eq!(r.id(b).results(&lib)[0].path, "/m/b.mkv");
    let mut g = VideoSearch::new();
    let later = g.find(Column::Id, Predicate::Int(Operator::Ge, b)).results(&lib);
    assert_eq!(later.iter().map(|v| v.id).collect::<Vec<u64>>(), vec![b, c]);
    let mut n = VideoSearch::new();
    let others = n
        .find(Column::Path, Predicate::Text(Operator::Ne, "/m/a.mkv".to_string()))
        .results(&lib);
    assert_eq!(others.len(), 2);
    let mut w = VideoSearch::new();
    assert_eq!(w.find(Column::Path, Predicate::Int(Operator::Eq, 1)).results(&lib).len(), 0);
}

#[test]
fn path_ordering_filters() {
    let mut lib = SqlLibrary::new();
    let a = lib.create_video(&video("/m/a.mkv", MEDIA_MOVIE, &[], &[])).unwrap();
    let b = lib.create_video(&video("/m/b.mkv", MEDIA_MOVIE, &[], &[])).unwrap();
    let c = lib.create_video(&video("/m/ba.mkv", MEDIA_MOVIE, &[], &[])).unwrap();
    let ids = |op: Operator, p: &str, lib: &SqlLibrary| -> Vec<u64> {
        let mut s = VideoSearch::new();
        s.find(Column::Path, Predicate::Text(op, p.to_string()))
            .results(lib)
            .iter()
            .map(|v| v.id)
            .collect()
    };
    assert_eq!(ids(Operator::Lt, "/m/b.mkv", &lib), vec![a]);
    assert_eq!(ids(Operator::Le, "/m/b.mkv", &lib), vec![a, b]);
    assert_eq!(ids(Operator::Gt, "/m/b.mkv", &lib), vec![c]);
    assert_eq!(ids(Operator::Ge, "/m/b", &lib), vec![b, c]);
    assert!(medialibrary::query::less_text(&"ab".to_string(), &"abc".to_string()));
    assert!(!medialibrary::query::less_text(&"abc".to_string(), &"abc".to_string()));
    assert!(!medialibrary::query::less_text(&"b".to_string(), &"abc".to_string()));
}

#[test]
fn like_patterns() {
    let m = |p: &str, t: &str| matches_like(&p.to_string(), &t.to_string());
    assert!(m("%.mkv", "/m/a.mkv"));
    assert!(!m("%.mkv", "/m/a.avi"));
    assert!(m("/m/_.MKV", "/m/a.mkv"));
    assert!(!m("/m/_.mkv", "/m/ab.mkv"));
    assert!(m("%", ""));
    assert!(!m("", "a"));
    assert!(m("a%b%c", "aXXbYc"));
    assert!(!m("a%b%c", "aXXcYb"));
    let mut lib = SqlLibrary::new();
    let a = lib.create_video(&video("/m/Alien.mkv", MEDIA_MOVIE, &[], &[])).unwrap();
    lib.create_video(&video("/m/heat.avi", MEDIA_MOVIE, &[], &[])).unwrap();
    let mut s = VideoSearch::new();
    let found = s.find(Column::Path, Predicate::Text(Operator::Like, "%alien%".to_string())).results(&lib);
    assert_eq!(found.iter().map(|v| v.id).collect::<Vec<u64>>(), vec![a]);
    let mut n = VideoSearch::new();
    assert!(n.find(Column::Id, Predicate::Int(Operator::Like, a)).results(&lib).is_empty());
}
