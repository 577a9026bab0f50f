use medialibrary::model::{Cast, Credits, Genre, Movie, Person, Season, Tv, TvEpisode};
use medialibrary::store::{SqlLibrary, StoreError, Table, CAST_CUTOFF};

fn cast(id: u64, character: &str, order: u64) -> Cast {
    Cast {
        id,
        name: format!("person {}", id),
        character: Some(character.to_string()),
        order,
        cast_id: Some(order),
        profile_path: None,
    }
}

fn genre(id: u64, name: &str) -> Genre {
    Genre { id, name: name.to_string() }
}

fn movie(id: u64, genres: Vec<Genre>, cast: Vec<Cast>) -> Movie {
    Movie {
        id,
        budget: 0,
        title: format!("movie {}", id),
        original_title: format!("original {}", id),
        original_language: "en".to_string(),
        overview: Some("overview".to_string()),
        release_date: "2001-01-01".to_string(),
        popularity: "1.5".to_string(),
        poster_path: Some("/poster.jpg".to_string()),
        backdrop_path: Some("/backdrop.jpg".to_string()),
        homepage: None,
        vote_average: "7.1".to_string(),
        vote_count: 10,
        tagline: None,
        status: "Released".to_string(),
        adult: false,
        genres,
        production_companies: Vec::new(),
        production_countries: Vec::new(),
        spoken_languages: Vec::new(),
        credits: Credits { cast },
    }
}

fn season(id: u64, number: u64, poster: Option<&str>) -> Season {
    Season {
        id,
        season_number: number,
        episode_count: 10,
        name: format!("Season {}", number),
        overview: None,
        poster_path: poster.map(|p| p.to_string()),
        air_date: None,
    }
}

fn tv(id: u64, seasons: Vec<Season>, cast: Vec<Cast>) -> Tv {
    Tv {
        id,
        name: format!("show {}", id),
        original_name: format!("original show {}", id),
        original_language: "en".to_string(),
        overview: None,
        first_air_date: "2010-05-05".to_string(),
        popularity: "3.2".to_string(),
        poster_path: Some("/tv_poster.jpg".to_string()),
        backdrop_path: Some(String::new()),
        status: "Ended".to_string(),
        vote_average: "8.0".to_string(),
        vote_count: 50,
        in_production: false,
        number_of_episodes: 10,
        number_of_seasons: seasons.len() as u64,
        episode_run_time: vec![42],
        genres: vec![genre(18, "Drama")],
        credits: Credits { cast },
        seasons,
        created_by: Vec::new(),
        networks: Vec::new(),
    }
}

fn episode(id: u64, season_number: u64, episode_number: u64, cast: Vec<Cast>) -> TvEpisode {
    TvEpisode {
        id,
        season_number,
        episode_number,
        air_date: "2010-05-05".to_string(),
        name: format!("episode {}", id),
        overview: None,
        still_path: Some("/still.jpg".to_string()),
        vote_average: "6.0".to_string(),
        vote_count: 3,
        guest_stars: Vec::new(),
        credits: Credits { cast },
    }
}

fn person(id: u64, profile: Option<&str>) -> Person {
    Person {
        id,
        name: format!("person {}", id),
        birthday: None,
        deathday: None,
        known_for_department: Some("Acting".to_string()),
        gender: 1,
        biography: String::new(),
        popularity: "0.5".to_string(),
        place_of_birth: None,
        profile_path: profile.map(|p| p.to_string()),
    }
}

#[test]
fn create_movie_returns_persons_and_images() {
    let mut lib = SqlLibrary::new();
    let m = movie(
        7,
        vec![genre(1, "Action"), genre(2, "Drama")],
        vec![cast(100, "Hero", 0), cast(101, "Villain", 1), cast(100, "Narrator", 2)],
    );
    let (ids, paths) = lib.create_movie(&m).unwrap();
    assert_eq!(ids, vec![100, 101]);
    assert_eq!(paths, vec!["/backdrop.jpg".to_string(), "/poster.jpg".to_string()]);
    assert!(lib.movie_exist(7));
    assert!(!lib.movie_exist(8));
    assert_eq!(lib.movie.movies.len(), 1);
    assert_eq!(lib.movie.movies[0].title, "movie 7");
    assert_eq!(lib.movie.genres.len(), 2);
    assert_eq!(lib.movie.genre_links.len(), 2);
    assert_eq!(lib.movie.casts.len(), 3);
}

#[test]
fn create_movie_drops_cast_beyond_cutoff() {
    let mut lib = SqlLibrary::new();
    let entries: Vec<Cast> = (0..20u64).map(|k| cast(1000 + k, "Role", k)).collect();
    let (ids, _) = lib.create_movie(&movie(1, Vec::new(), entries)).unwrap();
    assert_eq!(CAST_CUTOFF, 15);
    assert_eq!(ids.len(), 15);
    let expected: Vec<u64> = (0..15u64).map(|k| 1000 + k).collect();
    assert_eq!(ids, expected);
    assert_eq!(lib.movie.casts.len(), 15);
    assert!(lib.movie.casts.iter().all(|l| l.ord < 15));
}

#[test]
fn create_movie_cutoff_boundary_rank_fifteen_dropped() {
    let mut lib = SqlLibrary::new();
    let (ids, _) = lib
        .create_movie(&movie(2, Vec::new(), vec![cast(5, "A", 14), cast(6, "B", 15)]))
        .unwrap();
    assert_eq!(ids, vec![5]);
}

#[test]
fn create_movie_twice_changes_nothing() {
    let mut lib = SqlLibrary::new();
    let m = movie(7, vec![genre(1, "Action")], vec![cast(100, "Hero", 0)]);
    lib.create_movie(&m).unwrap();
    let (ids, paths) = lib.create_movie(&m).unwrap();
    assert!(ids.is_empty() && paths.is_empty());
    assert_eq!(lib.movie.movies.len(), 1);
    assert_eq!(lib.movie.genre_links.len(), 1);
    assert_eq!(lib.movie.casts.len(), 1);
}

#[test]
fn create_movie_cast_fault_leaves_nothing_behind() {
    let mut lib = SqlLibrary::new();
    let m = movie(
        9,
        vec![genre(1, "Action")],
        vec![
            cast(1, "A", 0),
            cast(2, "B", 1),
            cast(1, "A", 2),
            cast(4, "D", 3),
            cast(5, "E", 4),
        ],
    );
    let r = lib.create_movie(&m);
    assert_eq!(r.err(), Some(StoreError::Constraint(Table::MovieCasts)));
    assert!(!lib.movie_exist(9));
    assert_eq!(lib.movie.movies.len(), 0);
    assert_eq!(lib.movie.genres.len(), 0);
    assert_eq!(lib.movie.genre_links.len(), 0);
    assert_eq!(lib.movie.casts.len(), 0);
}

#[test]
fn create_movie_duplicate_genre_is_rejected() {
    let mut lib = SqlLibrary::new();
    let m = movie(3, vec![genre(1, "Action"), genre(1, "Action")], Vec::new());
    assert_eq!(
        lib.create_movie(&m).err(),
        Some(StoreError::Constraint(Table::MovieGenreLinks))
    );
    assert_eq!(lib.movie.movies.len(), 0);
}

#[test]
fn genre_dictionary_is_shared_between_movies() {
    let mut lib = SqlLibrary::new();
    lib.create_movie(&movie(1, vec![genre(1, "Action")], Vec::new())).unwrap();
    lib.create_movie(&movie(2, vec![genre(1, "Action"), genre(3, "Comedy")], Vec::new()))
        .unwrap();
    assert_eq!(lib.movie.genres.len(), 2);
    assert_eq!(lib.movie.genre_links.len(), 3);
}

#[test]
fn create_movie_without_images_returns_none() {
    let mut lib = SqlLibrary::new();
    let mut m = movie(4, Vec::new(), Vec::new());
    m.poster_path = None;
    m.backdrop_path = Some(String::new());
    let (_, paths) = lib.create_movie(&m).unwrap();
    assert!(paths.is_empty());
}

#[test]
fn tv_then_episode_links_episode_to_its_season() {
    let mut lib = SqlLibrary::new();
    let t = tv(100, vec![season(1001, 1, Some("/s1.jpg"))], vec![cast(9, "Lead", 0)]);
    let (ids, paths) = lib.create_tv(&t).unwrap();
    assert_eq!(ids, vec![9]);
    assert_eq!(paths, vec!["/tv_poster.jpg".to_string(), "/s1.jpg".to_string()]);
    assert_eq!(lib.get_season_id(100, 1), Some(1001));
    let (ep_ids, ep_paths) = lib.create_episode(100, &episode(5001, 1, 1, vec![cast(9, "Lead", 0)])).unwrap();
    assert_eq!(ep_ids, vec![9]);
    assert_eq!(ep_paths, vec!["/still.jpg".to_string()]);
    assert_eq!(lib.tv.episodes.len(), 1);
    assert_eq!(lib.tv.episodes[0].season_id, 1001);
    assert_eq!(lib.tv.episodes[0].tv_id, 100);
    assert_eq!(lib.episode_exist(100, 1, 1), Some(5001));
    assert_eq!(lib.episode_exist(100, 1, 2), None);
}

#[test]
fn episode_before_its_season_is_season_not_found() {
    let mut lib = SqlLibrary::new();
    lib.create_tv(&tv(100, vec![season(1001, 1, None)], Vec::new())).unwrap();
    let r = lib.create_episode(100, &episode(6001, 2, 1, Vec::new()));
    assert_eq!(r.err(), Some(StoreError::SeasonNotFound));
    assert_eq!(lib.tv.episodes.len(), 0);
    assert_eq!(lib.get_season_id(100, 2), None);
}

#[test]
fn same_episode_twice_is_rejected() {
    let mut lib = SqlLibrary::new();
    lib.create_tv(&tv(100, vec![season(1001, 1, None)], Vec::new())).unwrap();
    lib.create_episode(100, &episode(5001, 1, 1, Vec::new())).unwrap();
    let r = lib.create_episode(100, &episode(5002, 1, 1, Vec::new()));
    assert_eq!(r.err(), Some(StoreError::Constraint(Table::Episodes)));
    let r = lib.create_episode(100, &episode(5001, 1, 2, Vec::new()));
    assert_eq!(r.err(), Some(StoreError::Constraint(Table::Episodes)));
    assert_eq!(lib.tv.episodes.len(), 1);
}

#[test]
fn duplicate_season_number_is_rejected() {
    let mut lib = SqlLibrary::new();
    let t = tv(100, vec![season(1001, 1, None), season(1002, 1, None)], Vec::new());
    assert_eq!(lib.create_tv(&t).err(), Some(StoreError::Constraint(Table::Seasons)));
    assert!(!lib.tv_exist(100));
    assert_eq!(lib.tv.seasons.len(), 0);
}

#[test]
fn season_id_taken_by_another_show_is_rejected() {
    let mut lib = SqlLibrary::new();
    lib.create_tv(&tv(100, vec![season(1001, 1, None)], Vec::new())).unwrap();
    let t = tv(200, vec![season(1001, 1, None)], Vec::new());
    assert_eq!(lib.create_tv(&t).err(), Some(StoreError::Constraint(Table::Seasons)));
    assert_eq!(lib.tv.seasons.len(), 1);
}

#[test]
fn same_tv_twice_changes_nothing() {
    let mut lib = SqlLibrary::new();
    lib.create_tv(&tv(100, vec![season(1001, 1, None)], Vec::new())).unwrap();
    let (ids, paths) = lib.create_tv(&tv(100, vec![season(1001, 1, None)], Vec::new())).unwrap();
    assert!(ids.is_empty() && paths.is_empty());
    assert_eq!(lib.tv.seasons.len(), 1);
    assert!(lib.tv_exist(100));
    assert_eq!(lib.tv.tvs[0].episode_run_time, 42);
}

#[test]
fn tv_cast_duplicate_is_rejected() {
    let mut lib = SqlLibrary::new();
    let t = tv(100, vec![season(1001, 1, None)], vec![cast(1, "A", 0), cast(1, "A", 1)]);
    assert_eq!(lib.create_tv(&t).err(), Some(StoreError::Constraint(Table::TvCasts)));
    assert_eq!(lib.tv.tvs.len(), 0);
}

#[test]
fn tv_duplicate_genre_is_rejected() {
    let mut lib = SqlLibrary::new();
    let mut t = tv(100, Vec::new(), Vec::new());
    t.genres = vec![genre(1, "A"), genre(1, "A")];
    assert_eq!(lib.create_tv(&t).err(), Some(StoreError::Constraint(Table::TvGenreLinks)));
}

#[test]
fn episode_cast_duplicate_is_rejected() {
    let mut lib = SqlLibrary::new();
    lib.create_tv(&tv(100, vec![season(1001, 1, None)], Vec::new())).unwrap();
    let e = episode(5001, 1, 1, vec![cast(3, "C", 0), cast(3, "C", 1)]);
    assert_eq!(
        lib.create_episode(100, &e).err(),
        Some(StoreError::Constraint(Table::EpisodeCasts))
    );
    assert_eq!(lib.tv.episodes.len(), 0);
}

#[test]
fn create_person_once() {
    let mut lib = SqlLibrary::new();
    let (ids, paths) = lib.create_person(&person(42, Some("/face.jpg"))).unwrap();
    assert!(ids.is_empty());
    assert_eq!(paths, vec!["/face.jpg".to_string()]);
    assert!(lib.person_exist(42));
    let (ids, paths) = lib.create_person(&person(42, None)).unwrap();
    assert!(ids.is_empty() && paths.is_empty());
    assert_eq!(lib.persons.len(), 1);
    assert_eq!(lib.persons[0].profile_path, Some("/face.jpg".to_string()));
}

#[test]
fn well_formed_tells_a_broken_store() {
    let mut lib = SqlLibrary::new();
    assert!(lib.well_formed());
    lib.create_tv(&tv(100, vec![season(1001, 1, None)], vec![cast(9, "Lead", 0)])).unwrap();
    lib.create_movie(&movie(7, vec![genre(1, "Action")], vec![cast(100, "Hero", 0)])).unwrap();
    assert!(lib.well_formed());
    let copy = medialibrary::store::SeasonRow {
        id: 1002,
        tv_id: 100,
        season_number: 1,
        episode_count: 0,
        title: String::new(),
        overview: None,
        poster_path: None,
        release_date: None,
    };
    lib.tv.seasons.push(copy);
    assert!(!lib.well_formed());
    lib.tv.seasons.pop();
    assert!(lib.well_formed());
    lib.video.next_id = 0;
    assert!(lib.well_formed());
    lib.video.subtitles.push(medialibrary::store::LanguageRow { video_id: 0, language: "en".to_string() });
    assert!(!lib.well_formed());
}

#[test]
fn restore_counters_follows_stored_ids() {
    let mut lib = SqlLibrary::new();
    assert!(lib.restore_counters());
    assert_eq!(lib.video.next_id, 1);
    assert_eq!(lib.collections.next_id, 1);
    lib.video.videos.push(medialibrary::store::VideoRow {
        id: 41,
        path: "/m/a.mkv".to_string(),
        media_type: 0,
        media_id: None,
        duration: 0,
        bit_rate: 0,
        codec: None,
        width: 0,
        height: 0,
        size: 0,
        adding: String::new(),
    });
    assert!(lib.restore_counters());
    assert_eq!(lib.video.next_id, 42);
    assert!(lib.well_formed());
    lib.video.videos[0].id = u64::MAX;
    assert!(!lib.restore_counters());
    assert_eq!(lib.video.next_id, 42);
}
