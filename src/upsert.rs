//! The entity upsert engine: each call inserts one document's rows as a
//! single transaction. Every check runs before the first row is written, so a
//! call that fails leaves the store as it found it.

use vstd::prelude::*;
use crate::concat::views;
use crate::model::{Cast, Genre, Movie};
use crate::store::{
    CAST_CUTOFF, cast_key, cast_links_of, cast_person, dict_after, distinct_cast_persons, genre_key,
    genre_links_of, image_of, kept, links_cast_parent, links_genre_parent, unique_by,
    lemma_unique_append, CastLink, GenreLink, MovieRow, SqlLibrary, StoreError, Table,
    build_cast_links, build_genre_links, cast_links_distinct, cast_links_for, copy_text,
    genre_links_for, genre_present, genres_distinct, link_persons,
};

verus! {

/// Every cast link of a parent belongs to that parent.
pub proof fn lemma_cast_links_parent(parent: u64, cast: Seq<Cast>)
    ensures
        forall|i: int|
            0 <= i < cast_links_of(parent, cast).len() ==> (#[trigger] cast_links_of(
                parent,
                cast,
            )[i]).parent_id == parent,
    decreases cast.len(),
{
    if cast.len() > 0 {
        lemma_cast_links_parent(parent, cast.drop_last());
    }
}

/// The persons of a parent's cast links are those of its kept cast entries.
pub proof fn lemma_cast_links_persons(parent: u64, cast: Seq<Cast>, k: u64)
    ensures
        (exists|i: int|
            0 <= i < cast_links_of(parent, cast).len() && cast_links_of(parent, cast)[i].person_id
                == k) <==> cast_person(cast, k),
    decreases cast.len(),
{
    if cast.len() > 0 {
        let init = cast.drop_last();
        lemma_cast_links_persons(parent, init, k);
        let prev = cast_links_of(parent, init);
        let cur = cast_links_of(parent, cast);
        if cast_person(init, k) {
            let j = choose|j: int| 0 <= j < init.len() && kept(init[j]) && init[j].id == k;
            assert(cast[j] == init[j]);
        }
        if cast_person(cast, k) {
            let j = choose|j: int| 0 <= j < cast.len() && kept(cast[j]) && cast[j].id == k;
            if j < init.len() {
                assert(init[j] == cast[j]);
                assert(cast_person(init, k));
                let m = choose|m: int| 0 <= m < prev.len() && prev[m].person_id == k;
                assert(cur[m] == prev[m]);
            } else {
                assert(cur[cur.len() - 1].person_id == k);
            }
        }
        if exists|i: int| 0 <= i < cur.len() && cur[i].person_id == k {
            let m = choose|m: int| 0 <= m < cur.len() && cur[m].person_id == k;
            if m < prev.len() {
                assert(prev[m] == cur[m]);
                let j = choose|j: int| 0 <= j < init.len() && kept(init[j]) && init[j].id == k;
                assert(cast[j] == init[j]);
            } else {
                assert(kept(cast.last()) && cast.last().id == k);
                assert(cast[cast.len() - 1] == cast.last());
            }
        }
    }
}

/// The rank cutoff bounds what an upsert returns: when no two cast entries
/// share a rank, at most `CAST_CUTOFF` distinct persons come back, however
/// long the cast.
pub proof fn lemma_cutoff_bounds_persons(ids: Seq<u64>, cast: Seq<Cast>)
    requires
        distinct_cast_persons(ids, cast),
        forall|i: int, j: int|
            #![trigger cast[i], cast[j]]
            0 <= i < j < cast.len() ==> cast[i].order != cast[j].order,
    ensures
        ids.len() <= CAST_CUTOFF,
{
    broadcast use vstd::seq_lib::seq_to_set_is_finite;

    let s = ids.to_set();
    ids.unique_seq_to_set();
    let f = |k: u64|
        cast[choose|i: int| 0 <= i < cast.len() && kept(cast[i]) && cast[i].id == k].order as int;
    let range = vstd::set_lib::set_int_range(0, CAST_CUTOFF as int);
    assert forall|k: u64| s.contains(k) implies (exists|i: int|
        0 <= i < cast.len() && kept(cast[i]) && cast[i].id == k) by {
        assert(ids.contains(k));
    }
    assert forall|k1: u64, k2: u64|
        s.contains(k1) && s.contains(k2) && #[trigger] f(k1) == #[trigger] f(k2) implies k1 == k2 by {
        let i1 = choose|i: int| 0 <= i < cast.len() && kept(cast[i]) && cast[i].id == k1;
        let i2 = choose|i: int| 0 <= i < cast.len() && kept(cast[i]) && cast[i].id == k2;
        if i1 < i2 {
            assert(cast[i1].order != cast[i2].order);
        } else if i2 < i1 {
            assert(cast[i2].order != cast[i1].order);
        }
    }
    assert(vstd::relations::injective_on(f, s));
    assert forall|x: int| s.map(f).contains(x) implies range.contains(x) by {
        let k = choose|k: u64| s.contains(k) && f(k) == x;
        let i = choose|i: int| 0 <= i < cast.len() && kept(cast[i]) && cast[i].id == k;
    }
    vstd::set_lib::lemma_int_range(0, CAST_CUTOFF as int);
    vstd::set_lib::lemma_map_size(s, s.map(f), f);
    vstd::set_lib::lemma_len_subset(s.map(f), range);
}

/// Appending the cast links of a parent that had none keeps their key unique.
pub proof fn lemma_append_cast_links(old_links: Seq<CastLink>, parent: u64, cast: Seq<Cast>)
    requires
        unique_by(old_links, |l: CastLink| cast_key(l)),
        unique_by(cast_links_of(parent, cast), |l: CastLink| cast_key(l)),
        !links_cast_parent(old_links, parent),
    ensures
        unique_by(old_links + cast_links_of(parent, cast), |l: CastLink| cast_key(l)),
{
    let new_links = cast_links_of(parent, cast);
    lemma_cast_links_parent(parent, cast);
    assert forall|i: int, j: int|
        #![trigger old_links[i], new_links[j]]
        0 <= i < old_links.len() && 0 <= j < new_links.len() implies cast_key(old_links[i])
        != cast_key(new_links[j]) by {
        assert(new_links[j].parent_id == parent);
        assert(old_links[i].parent_id != parent);
    }
    lemma_unique_append(old_links, new_links, |l: CastLink| cast_key(l));
}

/// Appending the genre links of a parent that had none, for genres of distinct
/// ids, keeps the links unique.
pub proof fn lemma_append_genre_links(old_links: Seq<GenreLink>, parent: u64, genres: Seq<Genre>)
    requires
        unique_by(old_links, |l: GenreLink| l),
        unique_by(genres, |g: Genre| genre_key(g)),
        !links_genre_parent(old_links, parent),
    ensures
        unique_by(old_links + genre_links_of(parent, genres), |l: GenreLink| l),
{
    let new_links = genre_links_of(parent, genres);
    assert forall|i: int, j: int|
        #![trigger new_links[i], new_links[j]]
        0 <= i < j < new_links.len() implies new_links[i] != new_links[j] by {
        assert(genres[i].id != genres[j].id);
    }
    assert forall|i: int, j: int|
        #![trigger old_links[i], new_links[j]]
        0 <= i < old_links.len() && 0 <= j < new_links.len() implies old_links[i]
        != new_links[j] by {
        assert(old_links[i].parent_id != parent);
    }
    lemma_unique_append(old_links, new_links, |l: GenreLink| l);
}

/// Insert-or-ignore of each genre into a dictionary.
pub fn insert_genres(dict: &mut Vec<Genre>, genres: &Vec<Genre>)
    requires
        unique_by(old(dict)@, |g: Genre| genre_key(g)),
    ensures
        final(dict)@ == dict_after(old(dict)@, genres@),
        unique_by(final(dict)@, |g: Genre| genre_key(g)),
{
    let ghost start = dict@;
    let mut i: usize = 0;
    assert(genres@.subrange(0, 0) =~= Seq::<Genre>::empty());
    while i < genres.len()
        invariant
            i <= genres@.len(),
            dict@ == dict_after(start, genres@.subrange(0, i as int)),
            unique_by(dict@, |g: Genre| genre_key(g)),
        decreases genres@.len() - i,
    {
        let g = &genres[i];
        assert(genres@.subrange(0, i + 1).drop_last() =~= genres@.subrange(0, i as int));
        assert(genres@.subrange(0, i + 1).last() == genres@[i as int]);
        if !genre_present(dict, g.id) {
            let ghost before = dict@;
            dict.push(Genre { id: g.id, name: g.name.clone() });
            assert forall|a: int, b: int|
                #![trigger dict@[a], dict@[b]]
                0 <= a < b < dict@.len() implies genre_key(dict@[a]) != genre_key(dict@[b]) by {
                if b == dict@.len() - 1 {
                    assert(dict@[a] == before[a]);
                } else {
                    assert(dict@[a] == before[a] && dict@[b] == before[b]);
                }
            }
        }
        i = i + 1;
    }
    assert(genres@.subrange(0, genres@.len() as int) =~= genres@);
}

/// Appends a non-empty image path to a list.
pub fn push_image(paths: &mut Vec<String>, p: &Option<String>)
    ensures
        views(final(paths)@) == views(old(paths)@) + image_of(*p),
{
    let ghost before = paths@;
    match p {
        Some(s) => {
            if s.as_str().unicode_len() > 0 {
                paths.push(s.clone());
                assert(views(paths@) =~= views(before) + image_of(*p));
            } else {
                assert(views(paths@) =~= views(before) + image_of(*p));
            }
        },
        None => {
            assert(views(paths@) =~= views(before) + image_of(*p));
        },
    }
}

pub open spec fn movie_row(m: Movie) -> MovieRow {
    MovieRow {
        id: m.id,
        title: m.title,
        original_title: m.original_title,
        original_language: m.original_language,
        release_date: m.release_date,
        overview: m.overview,
        popularity: m.popularity,
        poster_path: m.poster_path,
        backdrop_path: m.backdrop_path,
        vote_average: m.vote_average,
        vote_count: m.vote_count,
        tagline: m.tagline,
        status: m.status,
        adult: m.adult,
    }
}

/// The images a movie refers to: backdrop, then poster, when non-empty.
pub open spec fn movie_images(m: Movie) -> Seq<Seq<char>> {
    image_of(m.backdrop_path) + image_of(m.poster_path)
}

impl MovieRow {
    pub fn from_doc(m: &Movie) -> (r: MovieRow)
        ensures
            r == movie_row(*m),
    {
        MovieRow {
            id: m.id,
            title: m.title.clone(),
            original_title: m.original_title.clone(),
            original_language: m.original_language.clone(),
            release_date: m.release_date.clone(),
            overview: copy_text(&m.overview),
            popularity: m.popularity.clone(),
            poster_path: copy_text(&m.poster_path),
            backdrop_path: copy_text(&m.backdrop_path),
            vote_average: m.vote_average.clone(),
            vote_count: m.vote_count,
            tagline: copy_text(&m.tagline),
            status: m.status.clone(),
            adult: m.adult,
        }
    }
}

impl SqlLibrary {
    pub open spec fn has_movie(&self, id: u64) -> bool {
        exists|i: int| 0 <= i < self.movie.movies@.len() && self.movie.movies@[i].id == id
    }

    /// The genre links of a movie document can be inserted.
    pub open spec fn movie_genres_fit(&self, m: Movie) -> bool {
        &&& unique_by(m.genres@, |g: Genre| genre_key(g))
        &&& !links_genre_parent(self.movie.genre_links@, m.id)
    }

    /// The cast links of a movie document can be inserted.
    pub open spec fn movie_cast_fits(&self, m: Movie) -> bool {
        &&& unique_by(cast_links_of(m.id, m.credits.cast@), |l: CastLink| cast_key(l))
        &&& !links_cast_parent(self.movie.casts@, m.id)
    }

    /// The store holds a movie with this id.
    pub fn movie_exist(&self, movie_id: u64) -> (r: bool)
        ensures
            r == self.has_movie(movie_id),
    {
        let mut i: usize = 0;
        while i < self.movie.movies.len()
            invariant
                i <= self.movie.movies@.len(),
                forall|k: int| 0 <= k < i ==> self.movie.movies@[k].id != movie_id,
            decreases self.movie.movies@.len() - i,
        {
            if self.movie.movies[i].id == movie_id {
                return true;
            }
            i = i + 1;
        }
        false
    }

    /// Inserts a movie, its genres and its cast within the cutoff, as one
    /// transaction; a movie already stored is left as it is, with nothing
    /// returned. Returns the distinct persons of the linked cast and the
    /// movie's non-empty image paths.
    pub fn create_movie(&mut self, movie: &Movie) -> (r: Result<(Vec<u64>, Vec<String>), StoreError>)
        requires
            old(self).wf(),
        ensures
            final(self).wf(),
            r is Ok <==> (old(self).has_movie(movie.id) || (old(self).movie_genres_fit(*movie)
                && old(self).movie_cast_fits(*movie))),
            r is Err ==> *final(self) == *old(self),
            old(self).has_movie(movie.id) ==> *final(self) == *old(self) && (r matches Ok(
                (ids, paths),
            ) && ids@.len() == 0 && paths@.len() == 0),
            !old(self).has_movie(movie.id) && !old(self).movie_genres_fit(*movie) ==> r == Err::<
                (Vec<u64>, Vec<String>),
                StoreError,
            >(StoreError::Constraint(Table::MovieGenreLinks)),
            !old(self).has_movie(movie.id) && old(self).movie_genres_fit(*movie)
                && !old(self).movie_cast_fits(*movie) ==> r == Err::<
                (Vec<u64>, Vec<String>),
                StoreError,
            >(StoreError::Constraint(Table::MovieCasts)),
            !old(self).has_movie(movie.id) ==> (r matches Ok((ids, paths)) ==> {
                &&& final(self).movie.movies@ == old(self).movie.movies@.push(movie_row(*movie))
                &&& final(self).movie.genres@ == dict_after(
                    old(self).movie.genres@,
                    movie.genres@,
                )
                &&& final(self).movie.genre_links@ == old(self).movie.genre_links@
                    + genre_links_of(movie.id, movie.genres@)
                &&& final(self).movie.casts@ == old(self).movie.casts@ + cast_links_of(
                    movie.id,
                    movie.credits.cast@,
                )
                &&& final(self).tv == old(self).tv
                &&& final(self).persons == old(self).persons
                &&& final(self).collections == old(self).collections
                &&& final(self).video == old(self).video
                &&& distinct_cast_persons(ids@, movie.credits.cast@)
                &&& views(paths@) == movie_images(*movie)
            }),
    {
        if self.movie_exist(movie.id) {
            return Ok((Vec::new(), Vec::new()));
        }
        if !genres_distinct(&movie.genres) || genre_links_for(&self.movie.genre_links, movie.id) {
            return Err(StoreError::Constraint(Table::MovieGenreLinks));
        }
        let mut cast_links = build_cast_links(movie.id, &movie.credits.cast);
        if !cast_links_distinct(&cast_links) || cast_links_for(&self.movie.casts, movie.id) {
            return Err(StoreError::Constraint(Table::MovieCasts));
        }
        let ids = link_persons(&cast_links);
        let mut genre_links = build_genre_links(movie.id, &movie.genres);
        proof {
            lemma_append_cast_links(self.movie.casts@, movie.id, movie.credits.cast@);
            lemma_append_genre_links(self.movie.genre_links@, movie.id, movie.genres@);
            assert forall|k: u64| ids@.contains(k) <==> cast_person(movie.credits.cast@, k) by {
                lemma_cast_links_persons(movie.id, movie.credits.cast@, k);
            }
        }
        let ghost before = self.movie.movies@;
        self.movie.movies.push(MovieRow::from_doc(movie));
        assert forall|a: int, b: int|
            #![trigger self.movie.movies@[a], self.movie.movies@[b]]
            0 <= a < b < self.movie.movies@.len() implies self.movie.movies@[a].id
            != self.movie.movies@[b].id by {
            assert(self.movie.movies@[a] == before[a]);
            if b < before.len() {
                assert(self.movie.movies@[b] == before[b]);
            }
        }
        insert_genres(&mut self.movie.genres, &movie.genres);
        self.movie.genre_links.append(&mut genre_links);
        self.movie.casts.append(&mut cast_links);
        let mut paths: Vec<String> = Vec::new();
        push_image(&mut paths, &movie.backdrop_path);
        push_image(&mut paths, &movie.poster_path);
        assert(views(paths@) =~= movie_images(*movie));
        Ok((ids, paths))
    }
}

} // verus!
