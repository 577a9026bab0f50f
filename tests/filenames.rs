use medialibrary::filename::{dots_to_spaces_string, parse_u64};
use medialibrary::video::{ErrorKind, Video, MEDIA_EPISODE, MEDIA_MOVIE};

#[test]
fn episode_file_name() {
    let v = Video::new("/media/tv/The.Office.S02E05.720p.mkv".to_string(), MEDIA_EPISODE);
    assert_eq!(v.parse_tv(), Ok(("The Office".to_string(), 2, 5)));
}

#[test]
fn episode_file_name_lower_case_markers() {
    let v = Video::new("/tv/Lost.s1e10.avi".to_string(), MEDIA_EPISODE);
    assert_eq!(v.parse_tv(), Ok(("Lost".to_string(), 1, 10)));
}

#[test]
fn episode_file_name_without_markers() {
    let v = Video::new("/tv/Lost.avi".to_string(), MEDIA_EPISODE);
    assert_eq!(v.parse_tv(), Err(ErrorKind::ParseName));
}

#[test]
fn episode_number_too_large() {
    let v = Video::new("/tv/X.S99999999999999999999E01.mkv".to_string(), MEDIA_EPISODE);
    assert_eq!(v.parse_tv(), Err(ErrorKind::ParseName));
}

#[test]
fn movie_file_name() {
    let v = Video::new("/films/The.Matrix.1999.mkv".to_string(), MEDIA_MOVIE);
    assert_eq!(v.parse_movie(), Ok(("The Matrix".to_string(), 1999)));
}

#[test]
fn movie_file_name_without_year() {
    let v = Video::new("/films/noyear.mkv".to_string(), MEDIA_MOVIE);
    assert_eq!(v.parse_movie(), Err(ErrorKind::ParseName));
}

#[test]
fn digits_and_dots() {
    assert_eq!(parse_u64(&"18446744073709551615".to_string()), Some(u64::MAX));
    assert_eq!(parse_u64(&"18446744073709551616".to_string()), None);
    assert_eq!(parse_u64(&"".to_string()), None);
    assert_eq!(parse_u64(&"12a".to_string()), None);
    assert_eq!(parse_u64(&"007".to_string()), Some(7));
    assert_eq!(dots_to_spaces_string(&"a.b..c".to_string()), "a b  c");
}
