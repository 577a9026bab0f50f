//! Listing movies through a typed filter, each line with the videos and
//! genres linked to the movie.

use vstd::prelude::*;
use crate::query::{cmp_int, cmp_text, compare_int, compare_text, Operator};
use crate::store::{CastLink, GenreLink, MovieRow, SqlLibrary, VideoRow};
use crate::video::MEDIA_MOVIE;

verus! {

/// One condition on a movie.
pub enum MovieFilter {
    Id(Operator, u64),
    Title(Operator, String),
    ReleaseDate(Operator, String),
    /// The person plays in the movie.
    Cast(u64),
    /// The movie has the genre.
    Genre(u64),
}

/// A movie listing under construction; every filter must hold.
pub struct MovieSearch {
    pub filters: Vec<MovieFilter>,
}

/// One line of a movie listing.
pub struct MovieResult {
    pub id: u64,
    pub title: String,
    pub release_date: String,
    pub poster_path: Option<String>,
    /// The videos assigned to the movie, in table order.
    pub video_ids: Vec<u64>,
    /// The movie's genres, in link order.
    pub genre_ids: Vec<u64>,
}

pub open spec fn plays_in(casts: Seq<CastLink>, movie: u64, person: u64) -> bool {
    exists|i: int| 0 <= i < casts.len() && casts[i].parent_id == movie && casts[i].person_id == person
}

pub open spec fn has_genre_link(links: Seq<GenreLink>, movie: u64, genre: u64) -> bool {
    links.contains(GenreLink { parent_id: movie, genre_id: genre })
}

impl SqlLibrary {
    /// Whether a movie row satisfies one filter.
    pub open spec fn movie_matches(&self, row: MovieRow, f: MovieFilter) -> bool {
        match f {
            MovieFilter::Id(op, v) => cmp_int(op, row.id, v),
            MovieFilter::Title(op, t) => cmp_text(op, row.title@, t@),
            MovieFilter::ReleaseDate(op, t) => cmp_text(op, row.release_date@, t@),
            MovieFilter::Cast(p) => plays_in(self.movie.casts@, row.id, p),
            MovieFilter::Genre(g) => has_genre_link(self.movie.genre_links@, row.id, g),
        }
    }

    pub open spec fn movie_selected(&self, row: MovieRow, filters: Seq<MovieFilter>) -> bool {
        forall|i: int| 0 <= i < filters.len() ==> self.movie_matches(row, #[trigger] filters[i])
    }

    /// The movies that satisfy every filter, in table order.
    pub open spec fn select_movies(&self, rows: Seq<MovieRow>, filters: Seq<MovieFilter>) -> Seq<
        MovieRow,
    >
        decreases rows.len(),
    {
        if rows.len() == 0 {
            Seq::<MovieRow>::empty()
        } else {
            let p = self.select_movies(rows.drop_last(), filters);
            if self.movie_selected(rows.last(), filters) {
                p.push(rows.last())
            } else {
                p
            }
        }
    }
}

/// The videos of a movie, in table order.
pub open spec fn movie_videos(rows: Seq<VideoRow>, movie: u64) -> Seq<u64>
    decreases rows.len(),
{
    if rows.len() == 0 {
        Seq::<u64>::empty()
    } else {
        let p = movie_videos(rows.drop_last(), movie);
        if rows.last().media_type == MEDIA_MOVIE && rows.last().media_id == Some(movie) {
            p.push(rows.last().id)
        } else {
            p
        }
    }
}

/// The genres of a movie, in link order.
pub open spec fn movie_genres(links: Seq<GenreLink>, movie: u64) -> Seq<u64>
    decreases links.len(),
{
    if links.len() == 0 {
        Seq::<u64>::empty()
    } else {
        let p = movie_genres(links.drop_last(), movie);
        if links.last().parent_id == movie {
            p.push(links.last().genre_id)
        } else {
            p
        }
    }
}

/// A listing line shows a movie row of the store.
pub open spec fn movie_line(store: SqlLibrary, m: MovieResult, row: MovieRow) -> bool {
    &&& m.id == row.id
    &&& m.title == row.title
    &&& m.release_date == row.release_date
    &&& m.poster_path == row.poster_path
    &&& m.video_ids@ == movie_videos(store.video.videos@, row.id)
    &&& m.genre_ids@ == movie_genres(store.movie.genre_links@, row.id)
}

impl SqlLibrary {
    fn plays(&self, movie: u64, person: u64) -> (r: bool)
        ensures
            r == plays_in(self.movie.casts@, movie, person),
    {
        let mut i: usize = 0;
        while i < self.movie.casts.len()
            invariant
                i <= self.movie.casts@.len(),
                forall|k: int|
                    0 <= k < i ==> !(self.movie.casts@[k].parent_id == movie
                        && self.movie.casts@[k].person_id == person),
            decreases self.movie.casts@.len() - i,
        {
            if self.movie.casts[i].parent_id == movie && self.movie.casts[i].person_id == person {
                return true;
            }
            i = i + 1;
        }
        false
    }

    fn genre_linked(&self, movie: u64, genre: u64) -> (r: bool)
        ensures
            r == has_genre_link(self.movie.genre_links@, movie, genre),
    {
        let target = GenreLink { parent_id: movie, genre_id: genre };
        let mut i: usize = 0;
        while i < self.movie.genre_links.len()
            invariant
                i <= self.movie.genre_links@.len(),
                target == (GenreLink { parent_id: movie, genre_id: genre }),
                forall|k: int| 0 <= k < i ==> self.movie.genre_links@[k] != target,
            decreases self.movie.genre_links@.len() - i,
        {
            let l = self.movie.genre_links[i];
            if l.parent_id == movie && l.genre_id == genre {
                assert(self.movie.genre_links@[i as int] == target);
                return true;
            }
            i = i + 1;
        }
        false
    }

    /// Whether a movie row satisfies one filter.
    pub fn movie_matches_filter(&self, row: &MovieRow, f: &MovieFilter) -> (r: bool)
        ensures
            r == self.movie_matches(*row, *f),
    {
        match f {
            MovieFilter::Id(op, v) => compare_int(*op, row.id, *v),
            MovieFilter::Title(op, t) => compare_text(*op, &row.title, t),
            MovieFilter::ReleaseDate(op, t) => compare_text(*op, &row.release_date, t),
            MovieFilter::Cast(p) => self.plays(row.id, *p),
            MovieFilter::Genre(g) => self.genre_linked(row.id, *g),
        }
    }

    /// The videos of a movie, in table order.
    pub fn videos_of_movie(&self, movie: u64) -> (r: Vec<u64>)
        ensures
            r@ == movie_videos(self.video.videos@, movie),
    {
        let rows = &self.video.videos;
        let mut out: Vec<u64> = Vec::new();
        let mut i: usize = 0;
        assert(rows@.subrange(0, 0) =~= Seq::<VideoRow>::empty());
        while i < rows.len()
            invariant
                rows@ == self.video.videos@,
                i <= rows@.len(),
                out@ == movie_videos(rows@.subrange(0, i as int), movie),
            decreases rows@.len() - i,
        {
            assert(rows@.subrange(0, i + 1).drop_last() =~= rows@.subrange(0, i as int));
            assert(rows@.subrange(0, i + 1).last() == rows@[i as int]);
            if rows[i].media_type == MEDIA_MOVIE && rows[i].media_id == Some(movie) {
                out.push(rows[i].id);
            }
            i = i + 1;
        }
        assert(rows@.subrange(0, rows@.len() as int) =~= rows@);
        out
    }

    /// The genres of a movie, in link order.
    pub fn genres_of_movie(&self, movie: u64) -> (r: Vec<u64>)
        ensures
            r@ == movie_genres(self.movie.genre_links@, movie),
    {
        let links = &self.movie.genre_links;
        let mut out: Vec<u64> = Vec::new();
        let mut i: usize = 0;
        assert(links@.subrange(0, 0) =~= Seq::<GenreLink>::empty());
        while i < links.len()
            invariant
                links@ == self.movie.genre_links@,
                i <= links@.len(),
                out@ == movie_genres(links@.subrange(0, i as int), movie),
            decreases links@.len() - i,
        {
            assert(links@.subrange(0, i + 1).drop_last() =~= links@.subrange(0, i as int));
            assert(links@.subrange(0, i + 1).last() == links@[i as int]);
            if links[i].parent_id == movie {
                out.push(links[i].genre_id);
            }
            i = i + 1;
        }
        assert(links@.subrange(0, links@.len() as int) =~= links@);
        out
    }

    /// The movies that satisfy every filter of a listing, in table order.
    pub fn get_movies(&self, search: &MovieSearch) -> (r: Vec<MovieResult>)
        ensures
            r@.len() == self.select_movies(self.movie.movies@, search.filters@).len(),
            forall|i: int|
                0 <= i < r@.len() ==> movie_line(
                    *self,
                    #[trigger] r@[i],
                    self.select_movies(self.movie.movies@, search.filters@)[i],
                ),
    {
        let rows = &self.movie.movies;
        let filters = &search.filters;
        let mut out: Vec<MovieResult> = Vec::new();
        let mut i: usize = 0;
        assert(rows@.subrange(0, 0) =~= Seq::<MovieRow>::empty());
        while i < rows.len()
            invariant
                rows@ == self.movie.movies@,
                filters@ == search.filters@,
                i <= rows@.len(),
                out@.len() == self.select_movies(rows@.subrange(0, i as int), filters@).len(),
                forall|k: int|
                    0 <= k < out@.len() ==> movie_line(
                        *self,
                        #[trigger] out@[k],
                        self.select_movies(rows@.subrange(0, i as int), filters@)[k],
                    ),
            decreases rows@.len() - i,
        {
            let ghost prev = self.select_movies(rows@.subrange(0, i as int), filters@);
            assert(rows@.subrange(0, i + 1).drop_last() =~= rows@.subrange(0, i as int));
            assert(rows@.subrange(0, i + 1).last() == rows@[i as int]);
            let row = &rows[i];
            let mut all = true;
            let mut j: usize = 0;
            while j < filters.len()
                invariant
                    j <= filters@.len(),
                    all == forall|q: int| 0 <= q < j ==> self.movie_matches(*row, #[trigger] filters@[q]),
                decreases filters@.len() - j,
            {
                if !self.movie_matches_filter(row, &filters[j]) {
                    all = false;
                }
                j = j + 1;
            }
            if all {
                let line = MovieResult {
                    id: row.id,
                    title: row.title.clone(),
                    release_date: row.release_date.clone(),
                    poster_path: crate::store::copy_text(&row.poster_path),
                    video_ids: self.videos_of_movie(row.id),
                    genre_ids: self.genres_of_movie(row.id),
                };
                out.push(line);
                assert(self.select_movies(rows@.subrange(0, i + 1), filters@) == prev.push(
                    rows@[i as int],
                ));
                assert forall|k: int| 0 <= k < out@.len() implies movie_line(
                    *self,
                    #[trigger] out@[k],
                    self.select_movies(rows@.subrange(0, i + 1), filters@)[k],
                ) by {
                    if k < out@.len() - 1 {
                        assert(self.select_movies(rows@.subrange(0, i + 1), filters@)[k] == prev[k]);
                    }
                }
            }
            i = i + 1;
        }
        assert(rows@.subrange(0, rows@.len() as int) =~= rows@);
        out
    }
}

impl MovieSearch {
    /// A listing of every movie.
    pub fn new() -> (r: MovieSearch)
        ensures
            r.filters@.len() == 0,
    {
        MovieSearch { filters: Vec::new() }
    }

    /// Adds a filter.
    pub fn find(&mut self, filter: MovieFilter)
        ensures
            final(self).filters@ == old(self).filters@.push(filter),
    {
        self.filters.push(filter);
    }

    /// Keeps the movie with this id.
    pub fn id(&mut self, id: u64)
        ensures
            final(self).filters@ == old(self).filters@.push(MovieFilter::Id(Operator::Eq, id)),
    {
        self.filters.push(MovieFilter::Id(Operator::Eq, id));
    }

    /// Keeps the movies this person plays in.
    pub fn cast(&mut self, person_id: u64)
        ensures
            final(self).filters@ == old(self).filters@.push(MovieFilter::Cast(person_id)),
    {
        self.filters.push(MovieFilter::Cast(person_id));
    }

    /// The listing over a store.
    pub fn results(&self, library: &SqlLibrary) -> (r: Vec<MovieResult>)
        ensures
            r@.len() == library.select_movies(library.movie.movies@, self.filters@).len(),
            forall|i: int|
                0 <= i < r@.len() ==> movie_line(
                    *library,
                    #[trigger] r@[i],
                    library.select_movies(library.movie.movies@, self.filters@)[i],
                ),
    {
        library.get_movies(self)
    }

    /// Whether the listing over a store is non-empty.
    pub fn exist(&self, library: &SqlLibrary) -> (r: bool)
        ensures
            r == (library.select_movies(library.movie.movies@, self.filters@).len() > 0),
    {
        library.get_movies(self).len() > 0
    }
}

} // verus!
