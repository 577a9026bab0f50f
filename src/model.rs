//! Metadata documents as the remote media database hands them out.
//!
//! Fractional statistics (popularity, vote average) are carried as the text
//! that the store keeps for them.

use vstd::prelude::*;

verus! {

/// One page of a title search.
pub struct SearchResult<T> {
    pub page: u64,
    pub total_results: u64,
    pub total_pages: u64,
    pub results: Vec<T>,
}

/// A genre of the shared genre dictionary.
pub struct Genre {
    pub id: u64,
    pub name: String,
}

pub struct ProductionCompanie {
    pub id: u64,
    pub name: String,
    pub logo_path: Option<String>,
    pub origin_country: String,
}

pub struct ProductionCountrie {
    pub iso_3166_1: String,
    pub name: String,
}

pub struct Language {
    pub iso_639_1: String,
    pub name: String,
}

/// One cast entry of a movie, a tv show or an episode; `order` is its rank.
pub struct Cast {
    pub id: u64,
    pub name: String,
    pub character: Option<String>,
    pub order: u64,
    pub cast_id: Option<u64>,
    pub profile_path: Option<String>,
}

pub struct Credits {
    pub cast: Vec<Cast>,
}

pub struct Movie {
    pub id: u64,
    pub budget: u64,
    pub title: String,
    pub original_title: String,
    pub original_language: String,
    pub overview: Option<String>,
    pub release_date: String,
    pub popularity: String,
    pub poster_path: Option<String>,
    pub backdrop_path: Option<String>,
    pub homepage: Option<String>,
    pub vote_average: String,
    pub vote_count: u64,
    pub tagline: Option<String>,
    pub status: String,
    pub adult: bool,
    pub genres: Vec<Genre>,
    pub production_companies: Vec<ProductionCompanie>,
    pub production_countries: Vec<ProductionCountrie>,
    pub spoken_languages: Vec<Language>,
    pub credits: Credits,
}

pub struct CreatedBy {
    pub gender: Option<u8>,
    pub id: u64,
    pub name: String,
    pub profile_path: Option<String>,
    pub credit_id: String,
}

pub struct Network {
    pub name: String,
    pub id: u64,
    pub logo_path: Option<String>,
    pub origin_country: String,
}

/// A season as listed inside its tv show's document.
pub struct Season {
    pub id: u64,
    pub season_number: u64,
    pub episode_count: u64,
    pub name: String,
    pub overview: Option<String>,
    pub poster_path: Option<String>,
    pub air_date: Option<String>,
}

pub struct Tv {
    pub id: u64,
    pub name: String,
    pub original_name: String,
    pub original_language: String,
    pub overview: Option<String>,
    pub first_air_date: String,
    pub popularity: String,
    pub poster_path: Option<String>,
    pub backdrop_path: Option<String>,
    pub status: String,
    pub vote_average: String,
    pub vote_count: u64,
    pub in_production: bool,
    pub number_of_episodes: u64,
    pub number_of_seasons: u64,
    pub episode_run_time: Vec<u64>,
    pub genres: Vec<Genre>,
    pub credits: Credits,
    pub seasons: Vec<Season>,
    pub created_by: Vec<CreatedBy>,
    pub networks: Vec<Network>,
}

pub struct GuestStar {
    pub id: u64,
    pub name: String,
    pub credit_id: String,
    pub character: String,
    pub order: u64,
    pub profile_path: Option<String>,
}

pub struct TvEpisode {
    pub id: u64,
    pub season_number: u64,
    pub episode_number: u64,
    pub air_date: String,
    pub name: String,
    pub overview: Option<String>,
    pub still_path: Option<String>,
    pub vote_average: String,
    pub vote_count: u64,
    pub guest_stars: Vec<GuestStar>,
    pub credits: Credits,
}

pub struct Person {
    pub id: u64,
    pub name: String,
    pub birthday: Option<String>,
    pub deathday: Option<String>,
    pub known_for_department: Option<String>,
    pub gender: u8,
    pub biography: String,
    pub popularity: String,
    pub place_of_birth: Option<String>,
    pub profile_path: Option<String>,
}

} // verus!
