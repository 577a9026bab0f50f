use medialibrary::listing::{MovieFilter, MovieSearch};
use medialibrary::personlisting::{PersonFilter, PersonSearch};
use medialibrary::tvlisting::{TvFilter, TvSearch};
use medialibrary::model::{Cast, Credits, Genre, Movie};
use medialibrary::query::Operator;
use medialibrary::store::SqlLibrary;
use medialibrary::video::{Video, MEDIA_MOVIE};

fn movie(id: u64, title: &str, date: &str, genres: Vec<u64>, cast: Vec<u64>) -> Movie {
    Movie {
        id,
        budget: 0,
        title: title.to_string(),
        original_title: title.to_string(),
        original_language: "en".to_string(),
        overview: None,
        release_date: date.to_string(),
        popularity: "1".to_string(),
        poster_path: Some(format!("/{}.jpg", id)),
        backdrop_path: None,
        homepage: None,
        vote_average: "7".to_string(),
        vote_count: 1,
        tagline: None,
        status: "Released".to_string(),
        adult: false,
        genres: genres.into_iter().map(|g| Genre { id: g, name: format!("genre {}", g) }).collect(),
        production_companies: Vec::new(),
        production_countries: Vec::new(),
        spoken_languages: Vec::new(),
        credits: Credits {
            cast: cast
                .into_iter()
                .enumerate()
                .map(|(k, p)| Cast {
                    id: p,
                    name: String::new(),
                    character: Some(format!("role {}", k)),
                    order: k as u64,
                    cast_id: None,
                    profile_path: None,
                })
                .collect(),
        },
    }
}

fn store() -> SqlLibrary {
    let mut lib = SqlLibrary::new();
    lib.create_movie(&movie(1, "Alien", "1979-05-25", vec![27, 878], vec![10, 11])).unwrap();
    lib.create_movie(&movie(2, "Aliens", "1986-07-18", vec![28, 878], vec![10])).unwrap();
    lib.create_movie(&movie(3, "Heat", "1995-12-15", vec![80], vec![20])).unwrap();
    let mut v = Video::new("/m/alien.mkv".to_string(), MEDIA_MOVIE);
    v.adding = "2020".to_string();
    let vid = lib.create_video(&v).unwrap();
    let mut stored = lib.get_video(vid).unwrap();
    stored.set_movie(&mut lib, 1).unwrap();
    lib
}

fn ids(lib: &SqlLibrary, s: &MovieSearch) -> Vec<u64> {
    s.results(lib).iter().map(|m| m.id).collect()
}

#[test]
fn all_movies_with_videos_and_genres() {
    let lib = store();
    let all = MovieSearch::new().results(&lib);
    assert_eq!(all.len(), 3);
    assert_eq!(all[0].title, "Alien");
    assert_eq!(all[0].video_ids, vec![1]);
    assert_eq!(all[0].genre_ids, vec![27, 878]);
    assert_eq!(all[0].poster_path, Some("/1.jpg".to_string()));
    assert!(all[1].video_ids.is_empty());
}

#[test]
fn filters_by_cast_genre_title_and_date() {
    let lib = store();
    let mut s = MovieSearch::new();
    s.cast(10);
    assert_eq!(ids(&lib, &s), vec![1, 2]);
    s.find(MovieFilter::Genre(27));
    assert_eq!(ids(&lib, &s), vec![1]);
    let mut t = MovieSearch::new();
    t.find(MovieFilter::Title(Operator::Like, "alien%".to_string()));
    assert_eq!(ids(&lib, &t), vec![1, 2]);
    let mut d = MovieSearch::new();
    d.find(MovieFilter::ReleaseDate(Operator::Ge, "1986".to_string()));
    assert_eq!(ids(&lib, &d), vec![2, 3]);
    let mut i = MovieSearch::new();
    i.id(3);
    assert!(i.exist(&lib));
    i.id(2);
    assert!(!i.exist(&lib));
}

fn show(id: u64, name: &str, seasons: Vec<u64>, cast: Vec<u64>) -> medialibrary::model::Tv {
    medialibrary::model::Tv {
        id,
        name: name.to_string(),
        original_name: name.to_string(),
        original_language: "en".to_string(),
        overview: None,
        first_air_date: "2008-01-20".to_string(),
        popularity: "1".to_string(),
        poster_path: None,
        backdrop_path: None,
        status: "Ended".to_string(),
        vote_average: "9".to_string(),
        vote_count: 1,
        in_production: false,
        number_of_episodes: 0,
        number_of_seasons: seasons.len() as u64,
        episode_run_time: Vec::new(),
        genres: vec![Genre { id: 18, name: "Drama".to_string() }],
        credits: Credits {
            cast: cast
                .into_iter()
                .enumerate()
                .map(|(k, p)| Cast {
                    id: p,
                    name: String::new(),
                    character: None,
                    order: k as u64,
                    cast_id: None,
                    profile_path: None,
                })
                .collect(),
        },
        seasons: seasons
            .into_iter()
            .map(|n| medialibrary::model::Season {
                id: id * 100 + n,
                season_number: n,
                episode_count: 0,
                name: String::new(),
                overview: None,
                poster_path: None,
                air_date: None,
            })
            .collect(),
        created_by: Vec::new(),
        networks: Vec::new(),
    }
}

#[test]
fn tv_listing() {
    let mut lib = SqlLibrary::new();
    lib.create_tv(&show(1396, "Breaking Bad", vec![1, 2], vec![17419])).unwrap();
    lib.create_tv(&show(1398, "The Sopranos", vec![1], vec![1000])).unwrap();
    let all = TvSearch::new().results(&lib);
    assert_eq!(all.len(), 2);
    assert_eq!(all[0].seasons, vec![1, 2]);
    assert_eq!(all[0].genre_ids, vec![18]);
    let mut s = TvSearch::new();
    s.cast(1000);
    assert_eq!(s.results(&lib).iter().map(|t| t.id).collect::<Vec<u64>>(), vec![1398]);
    let mut t = TvSearch::new();
    t.find(TvFilter::Title(Operator::Like, "%bad".to_string()));
    assert_eq!(t.results(&lib)[0].title, "Breaking Bad");
}

#[test]
fn person_listing() {
    let mut lib = store();
    for id in [10u64, 11, 20] {
        lib.create_person(&medialibrary::model::Person {
            id,
            name: format!("person {}", id),
            birthday: None,
            deathday: None,
            known_for_department: Some("Acting".to_string()),
            gender: 0,
            biography: String::new(),
            popularity: "0".to_string(),
            place_of_birth: None,
            profile_path: None,
        })
        .unwrap();
    }
    let mut s = PersonSearch::new();
    s.find(PersonFilter::InMovie(1));
    assert_eq!(s.results(&lib).iter().map(|p| p.id).collect::<Vec<u64>>(), vec![10, 11]);
    s.find(PersonFilter::InMovie(2));
    assert_eq!(s.results(&lib).iter().map(|p| p.id).collect::<Vec<u64>>(), vec![10]);
    let mut n = PersonSearch::new();
    n.find(PersonFilter::Name(Operator::Eq, "person 20".to_string()));
    assert!(n.exist(&lib));
    let mut i = PersonSearch::new();
    i.id(99);
    assert!(!i.exist(&lib));
}
