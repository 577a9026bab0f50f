use medialibrary::ingest::{
    image_url, resource_file, Fetch, IngestError, Ingestion, RemoteError, Reply, Step, Target,
};
use medialibrary::model::{Cast, Credits, Movie, Person, Season, Tv, TvEpisode};
use medialibrary::store::SqlLibrary;

/// A remote service that knows a fixed set of documents and counts requests.
struct Remote {
    fetches: usize,
    failing_person: Option<u64>,
    failing_movie: bool,
    images: Vec<String>,
}

impl Remote {
    fn new() -> Remote {
        Remote { fetches: 0, failing_person: None, failing_movie: false, images: Vec::new() }
    }

    fn answer(&mut self, f: Fetch) -> Reply {
        self.fetches += 1;
        match f {
            Fetch::Movie(id) => {
                if self.failing_movie {
                    Reply::Failed(RemoteError::Timeout)
                } else {
                    Reply::Movie(movie(id))
                }
            }
            Fetch::Tv(id) => Reply::Tv(tv(id)),
            Fetch::Episode(_, s, e) => Reply::Episode(episode(9000 + s * 100 + e, s, e)),
            Fetch::Person(id) => {
                if self.failing_person == Some(id) {
                    Reply::Failed(RemoteError::ProviderRejected("gone".to_string()))
                } else {
                    Reply::Person(person(id))
                }
            }
            Fetch::Image(path) => {
                self.images.push(path);
                Reply::ImageStored
            }
        }
    }
}

fn cast(id: u64, order: u64) -> Cast {
    Cast {
        id,
        name: String::new(),
        character: Some(format!("role {}", id)),
        order,
        cast_id: Some(order),
        profile_path: None,
    }
}

fn movie(id: u64) -> Movie {
    Movie {
        id,
        budget: 0,
        title: "Title".to_string(),
        original_title: "Title".to_string(),
        original_language: "en".to_string(),
        overview: None,
        release_date: "2000-01-01".to_string(),
        popularity: "1".to_string(),
        poster_path: Some("/p.jpg".to_string()),
        backdrop_path: None,
        homepage: None,
        vote_average: "5".to_string(),
        vote_count: 0,
        tagline: None,
        status: "Released".to_string(),
        adult: false,
        genres: Vec::new(),
        production_companies: Vec::new(),
        production_countries: Vec::new(),
        spoken_languages: Vec::new(),
        credits: Credits { cast: vec![cast(1, 0), cast(2, 1), cast(3, 2)] },
    }
}

fn tv(id: u64) -> Tv {
    Tv {
        id,
        name: "Show".to_string(),
        original_name: "Show".to_string(),
        original_language: "en".to_string(),
        overview: None,
        first_air_date: "2010-01-01".to_string(),
        popularity: "1".to_string(),
        poster_path: None,
        backdrop_path: None,
        status: "Ended".to_string(),
        vote_average: "5".to_string(),
        vote_count: 0,
        in_production: false,
        number_of_episodes: 2,
        number_of_seasons: 1,
        episode_run_time: Vec::new(),
        genres: Vec::new(),
        credits: Credits { cast: vec![cast(4, 0)] },
        seasons: vec![Season {
            id: id * 10 + 1,
            season_number: 1,
            episode_count: 2,
            name: "Season 1".to_string(),
            overview: None,
            poster_path: None,
            air_date: None,
        }],
        created_by: Vec::new(),
        networks: Vec::new(),
    }
}

fn episode(id: u64, s: u64, e: u64) -> TvEpisode {
    TvEpisode {
        id,
        season_number: s,
        episode_number: e,
        air_date: "2010-01-01".to_string(),
        name: "Pilot".to_string(),
        overview: None,
        still_path: None,
        vote_average: "5".to_string(),
        vote_count: 0,
        guest_stars: Vec::new(),
        credits: Credits { cast: vec![cast(4, 0), cast(5, 1)] },
    }
}

fn person(id: u64) -> Person {
    Person {
        id,
        name: format!("person {}", id),
        birthday: None,
        deathday: None,
        known_for_department: None,
        gender: 0,
        biography: String::new(),
        popularity: "0".to_string(),
        place_of_birth: None,
        profile_path: Some(format!("/person{}.jpg", id)),
    }
}

fn run(lib: &mut SqlLibrary, remote: &mut Remote, target: Target) -> Step {
    let (mut ing, mut step) = Ingestion::start(lib, target);
    loop {
        match step {
            Step::Fetch(f) => {
                let reply = remote.answer(f);
                step = ing.step(lib, reply);
            }
            done => return done,
        }
    }
}

#[test]
fn present_movie_needs_no_fetch() {
    let mut lib = SqlLibrary::new();
    lib.create_movie(&movie(603)).unwrap();
    let persons_before = lib.persons.len();
    let mut remote = Remote::new();
    let r = run(&mut lib, &mut remote, Target::Movie(603));
    assert!(matches!(r, Step::Done(603)));
    assert_eq!(remote.fetches, 0);
    assert_eq!(lib.movie.movies.len(), 1);
    assert_eq!(lib.persons.len(), persons_before);
}

#[test]
fn movie_ingestion_brings_cast_and_images() {
    let mut lib = SqlLibrary::new();
    let mut remote = Remote::new();
    let r = run(&mut lib, &mut remote, Target::Movie(603));
    assert!(matches!(r, Step::Done(603)));
    assert!(lib.movie_exist(603));
    assert!(lib.person_exist(1) && lib.person_exist(2) && lib.person_exist(3));
    let mut images = remote.images.clone();
    images.sort();
    assert_eq!(
        images,
        vec![
            "/p.jpg".to_string(),
            "/person1.jpg".to_string(),
            "/person2.jpg".to_string(),
            "/person3.jpg".to_string()
        ]
    );
    assert_eq!(remote.fetches, 1 + 3 + 4);
    let again = run(&mut lib, &mut remote, Target::Movie(603));
    assert!(matches!(again, Step::Done(603)));
    assert_eq!(remote.fetches, 8);
    assert_eq!(lib.movie.movies.len(), 1);
}

#[test]
fn failed_person_is_skipped() {
    let mut lib = SqlLibrary::new();
    let mut remote = Remote::new();
    remote.failing_person = Some(2);
    let r = run(&mut lib, &mut remote, Target::Movie(603));
    assert!(matches!(r, Step::Done(603)));
    assert!(lib.person_exist(1) && !lib.person_exist(2) && lib.person_exist(3));
}

#[test]
fn known_person_is_not_fetched_again() {
    let mut lib = SqlLibrary::new();
    lib.create_person(&person(2)).unwrap();
    let mut remote = Remote::new();
    run(&mut lib, &mut remote, Target::Movie(603));
    assert_eq!(remote.fetches, 1 + 2 + 3);
}

#[test]
fn failed_primary_fetch_is_an_error() {
    let mut lib = SqlLibrary::new();
    let mut remote = Remote::new();
    remote.failing_movie = true;
    let r = run(&mut lib, &mut remote, Target::Movie(603));
    assert!(matches!(
        r,
        Step::Failed(IngestError::Remote(Target::Movie(603), RemoteError::Timeout))
    ));
    assert!(!lib.movie_exist(603));
    assert_eq!(remote.fetches, 1);
}

#[test]
fn episode_ingestion_brings_its_show_first() {
    let mut lib = SqlLibrary::new();
    let mut remote = Remote::new();
    let r = run(&mut lib, &mut remote, Target::Episode(100, 1, 2));
    assert!(matches!(r, Step::Done(9102)));
    assert!(lib.tv_exist(100));
    assert_eq!(lib.episode_exist(100, 1, 2), Some(9102));
    assert_eq!(lib.tv.episodes[0].season_id, 1001);
    assert!(lib.person_exist(4) && lib.person_exist(5));
    let fetched = remote.fetches;
    let again = run(&mut lib, &mut remote, Target::Episode(100, 1, 2));
    assert!(matches!(again, Step::Done(9102)));
    assert_eq!(remote.fetches, fetched);
    let next = run(&mut lib, &mut remote, Target::Episode(100, 1, 1));
    assert!(matches!(next, Step::Done(9101)));
    assert_eq!(lib.tv.tvs.len(), 1);
}

#[test]
fn person_ingestion() {
    let mut lib = SqlLibrary::new();
    let mut remote = Remote::new();
    let r = run(&mut lib, &mut remote, Target::Person(8));
    assert!(matches!(r, Step::Done(8)));
    assert_eq!(remote.images, vec!["/person8.jpg".to_string()]);
}

#[test]
fn unexpected_reply_is_an_error() {
    let mut lib = SqlLibrary::new();
    let (mut ing, step) = Ingestion::start(&lib, Target::Movie(1));
    assert!(matches!(step, Step::Fetch(Fetch::Movie(1))));
    let r = ing.step(&mut lib, Reply::Tv(tv(1)));
    assert!(matches!(r, Step::Failed(IngestError::Unexpected)));
    assert!(lib.tv.tvs.is_empty());
}

#[test]
fn image_locations() {
    assert_eq!(
        image_url(&"/abc.jpg".to_string()),
        "https://image.tmdb.org/t/p/original/abc.jpg"
    );
    assert_eq!(
        resource_file(&"/var/rsc".to_string(), &"/abc.jpg".to_string()),
        "/var/rsc/abc.jpg"
    );
}

#[test]
fn episode_of_missing_season_fails_with_season_not_found() {
    let mut lib = SqlLibrary::new();
    let mut remote = Remote::new();
    let r = run(&mut lib, &mut remote, Target::Episode(100, 2, 1));
    assert!(matches!(
        r,
        Step::Failed(IngestError::Store(medialibrary::store::StoreError::SeasonNotFound))
    ));
    assert!(lib.tv_exist(100));
    assert!(lib.tv.episodes.is_empty());
}

#[test]
fn episode_stored_meanwhile_counts_as_stored() {
    let mut lib = SqlLibrary::new();
    lib.create_tv(&tv(100)).unwrap();
    let (mut ing, step) = Ingestion::start(&lib, Target::Episode(100, 1, 2));
    assert!(matches!(step, Step::Fetch(Fetch::Episode(100, 1, 2))));
    lib.create_episode(100, &episode(7777, 1, 2)).unwrap();
    let r = ing.step(&mut lib, Reply::Episode(episode(9102, 1, 2)));
    assert!(matches!(r, Step::Done(7777)));
    assert_eq!(lib.tv.episodes.len(), 1);
}

#[test]
fn empty_image_paths_are_never_fetched() {
    let mut lib = SqlLibrary::new();
    let (mut ing, step) = Ingestion::start(&lib, Target::Movie(5));
    assert!(matches!(step, Step::Fetch(Fetch::Movie(5))));
    let mut m = movie(5);
    m.poster_path = Some(String::new());
    m.backdrop_path = None;
    m.credits.cast.clear();
    let r = ing.step(&mut lib, Reply::Movie(m));
    assert!(matches!(r, Step::Done(5)));
}

#[test]
fn every_returned_person_is_fetched_after_a_failure() {
    let mut lib = SqlLibrary::new();
    let (mut ing, _) = Ingestion::start(&lib, Target::Movie(603));
    let mut asked: Vec<u64> = Vec::new();
    let mut step = ing.step(&mut lib, Reply::Movie(movie(603)));
    loop {
        match step {
            Step::Fetch(Fetch::Person(p)) => {
                asked.push(p);
                let reply = if p == 3 {
                    Reply::Failed(RemoteError::Connection)
                } else {
                    Reply::Person(person(p))
                };
                step = ing.step(&mut lib, reply);
            }
            Step::Fetch(Fetch::Image(_)) => step = ing.step(&mut lib, Reply::ImageStored),
            other => {
                assert!(matches!(other, Step::Done(603)));
                break;
            }
        }
    }
    asked.sort();
    assert_eq!(asked, vec![1, 2, 3]);
    assert!(lib.person_exist(1) && lib.person_exist(2) && !lib.person_exist(3));
}
