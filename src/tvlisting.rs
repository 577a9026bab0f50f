//! Listing tv shows through a typed filter, each line with the show's
//! season numbers and genres.

use vstd::prelude::*;
use crate::query::{cmp_int, cmp_text, compare_int, compare_text, Operator};
use crate::listing::{has_genre_link, plays_in};
use crate::store::{GenreLink, SeasonRow, SqlLibrary, TvRow};

verus! {

/// One condition on a tv show.
pub enum TvFilter {
    Id(Operator, u64),
    Title(Operator, String),
    ReleaseDate(Operator, String),
    /// The person plays in the show.
    Cast(u64),
    /// The show has the genre.
    Genre(u64),
}

/// A tv listing under construction; every filter must hold.
pub struct TvSearch {
    pub filters: Vec<TvFilter>,
}

/// One line of a tv listing.
pub struct TvResult {
    pub id: u64,
    pub title: String,
    pub release_date: String,
    pub poster_path: Option<String>,
    /// The show's season numbers, in table order.
    pub seasons: Vec<u64>,
    /// The show's genres, in link order.
    pub genre_ids: Vec<u64>,
}

impl SqlLibrary {
    /// Whether a tv row satisfies one filter.
    pub open spec fn tv_matches(&self, row: TvRow, f: TvFilter) -> bool {
        match f {
            TvFilter::Id(op, v) => cmp_int(op, row.id, v),
            TvFilter::Title(op, t) => cmp_text(op, row.title@, t@),
            TvFilter::ReleaseDate(op, t) => cmp_text(op, row.release_date@, t@),
            TvFilter::Cast(p) => plays_in(self.tv.casts@, row.id, p),
            TvFilter::Genre(g) => has_genre_link(self.tv.genre_links@, row.id, g),
        }
    }

    pub open spec fn tv_selected(&self, row: TvRow, filters: Seq<TvFilter>) -> bool {
        forall|i: int| 0 <= i < filters.len() ==> self.tv_matches(row, #[trigger] filters[i])
    }

    /// The shows that satisfy every filter, in table order.
    pub open spec fn select_tvs(&self, rows: Seq<TvRow>, filters: Seq<TvFilter>) -> Seq<
        TvRow,
    >
        decreases rows.len(),
    {
        if rows.len() == 0 {
            Seq::<TvRow>::empty()
        } else {
            let p = self.select_tvs(rows.drop_last(), filters);
            if self.tv_selected(rows.last(), filters) {
                p.push(rows.last())
            } else {
                p
            }
        }
    }
}

/// The season numbers of a show, in table order.
pub open spec fn show_seasons(rows: Seq<SeasonRow>, tv: u64) -> Seq<u64>
    decreases rows.len(),
{
    if rows.len() == 0 {
        Seq::<u64>::empty()
    } else {
        let p = show_seasons(rows.drop_last(), tv);
        if rows.last().tv_id == tv {
            p.push(rows.last().season_number)
        } else {
            p
        }
    }
}

/// The genres of a show, in link order.
pub open spec fn show_genres(links: Seq<GenreLink>, tv: u64) -> Seq<u64>
    decreases links.len(),
{
    if links.len() == 0 {
        Seq::<u64>::empty()
    } else {
        let p = show_genres(links.drop_last(), tv);
        if links.last().parent_id == tv {
            p.push(links.last().genre_id)
        } else {
            p
        }
    }
}

/// A listing line shows a tv row of the store.
pub open spec fn tv_line(store: SqlLibrary, m: TvResult, row: TvRow) -> bool {
    &&& m.id == row.id
    &&& m.title == row.title
    &&& m.release_date == row.release_date
    &&& m.poster_path == row.poster_path
    &&& m.seasons@ == show_seasons(store.tv.seasons@, row.id)
    &&& m.genre_ids@ == show_genres(store.tv.genre_links@, row.id)
}

impl SqlLibrary {
    fn plays_tv(&self, tv: u64, person: u64) -> (r: bool)
        ensures
            r == plays_in(self.tv.casts@, tv, person),
    {
        let mut i: usize = 0;
        while i < self.tv.casts.len()
            invariant
                i <= self.tv.casts@.len(),
                forall|k: int|
                    0 <= k < i ==> !(self.tv.casts@[k].parent_id == tv
                        && self.tv.casts@[k].person_id == person),
            decreases self.tv.casts@.len() - i,
        {
            if self.tv.casts[i].parent_id == tv && self.tv.casts[i].person_id == person {
                return true;
            }
            i = i + 1;
        }
        false
    }

    fn tv_genre_linked(&self, tv: u64, genre: u64) -> (r: bool)
        ensures
            r == has_genre_link(self.tv.genre_links@, tv, genre),
    {
        let target = GenreLink { parent_id: tv, genre_id: genre };
        let mut i: usize = 0;
        while i < self.tv.genre_links.len()
            invariant
                i <= self.tv.genre_links@.len(),
                target == (GenreLink { parent_id: tv, genre_id: genre }),
                forall|k: int| 0 <= k < i ==> self.tv.genre_links@[k] != target,
            decreases self.tv.genre_links@.len() - i,
        {
            let l = self.tv.genre_links[i];
            if l.parent_id == tv && l.genre_id == genre {
                assert(self.tv.genre_links@[i as int] == target);
                return true;
            }
            i = i + 1;
        }
        false
    }

    /// Whether a tv row satisfies one filter.
    pub fn tv_matches_filter(&self, row: &TvRow, f: &TvFilter) -> (r: bool)
        ensures
            r == self.tv_matches(*row, *f),
    {
        match f {
            TvFilter::Id(op, v) => compare_int(*op, row.id, *v),
            TvFilter::Title(op, t) => compare_text(*op, &row.title, t),
            TvFilter::ReleaseDate(op, t) => compare_text(*op, &row.release_date, t),
            TvFilter::Cast(p) => self.plays_tv(row.id, *p),
            TvFilter::Genre(g) => self.tv_genre_linked(row.id, *g),
        }
    }

    /// The season numbers of a show, in table order.
    pub fn seasons_of_tv(&self, tv: u64) -> (r: Vec<u64>)
        ensures
            r@ == show_seasons(self.tv.seasons@, tv),
    {
        let rows = &self.tv.seasons;
        let mut out: Vec<u64> = Vec::new();
        let mut i: usize = 0;
        assert(rows@.subrange(0, 0) =~= Seq::<SeasonRow>::empty());
        while i < rows.len()
            invariant
                rows@ == self.tv.seasons@,
                i <= rows@.len(),
                out@ == show_seasons(rows@.subrange(0, i as int), tv),
            decreases rows@.len() - i,
        {
            assert(rows@.subrange(0, i + 1).drop_last() =~= rows@.subrange(0, i as int));
            assert(rows@.subrange(0, i + 1).last() == rows@[i as int]);
            if rows[i].tv_id == tv {
                out.push(rows[i].season_number);
            }
            i = i + 1;
        }
        assert(rows@.subrange(0, rows@.len() as int) =~= rows@);
        out
    }

    /// The genres of a show, in link order.
    pub fn genres_of_tv(&self, tv: u64) -> (r: Vec<u64>)
        ensures
            r@ == show_genres(self.tv.genre_links@, tv),
    {
        let links = &self.tv.genre_links;
        let mut out: Vec<u64> = Vec::new();
        let mut i: usize = 0;
        assert(links@.subrange(0, 0) =~= Seq::<GenreLink>::empty());
        while i < links.len()
            invariant
                links@ == self.tv.genre_links@,
                i <= links@.len(),
                out@ == show_genres(links@.subrange(0, i as int), tv),
            decreases links@.len() - i,
        {
            assert(links@.subrange(0, i + 1).drop_last() =~= links@.subrange(0, i as int));
            assert(links@.subrange(0, i + 1).last() == links@[i as int]);
            if links[i].parent_id == tv {
                out.push(links[i].genre_id);
            }
            i = i + 1;
        }
        assert(links@.subrange(0, links@.len() as int) =~= links@);
        out
    }

    /// The shows that satisfy every filter of a listing, in table order.
    pub fn get_tvs(&self, search: &TvSearch) -> (r: Vec<TvResult>)
        ensures
            r@.len() == self.select_tvs(self.tv.tvs@, search.filters@).len(),
            forall|i: int|
                0 <= i < r@.len() ==> tv_line(
                    *self,
                    #[trigger] r@[i],
                    self.select_tvs(self.tv.tvs@, search.filters@)[i],
                ),
    {
        let rows = &self.tv.tvs;
        let filters = &search.filters;
        let mut out: Vec<TvResult> = Vec::new();
        let mut i: usize = 0;
        assert(rows@.subrange(0, 0) =~= Seq::<TvRow>::empty());
        while i < rows.len()
            invariant
                rows@ == self.tv.tvs@,
                filters@ == search.filters@,
                i <= rows@.len(),
                out@.len() == self.select_tvs(rows@.subrange(0, i as int), filters@).len(),
                forall|k: int|
                    0 <= k < out@.len() ==> tv_line(
                        *self,
                        #[trigger] out@[k],
                        self.select_tvs(rows@.subrange(0, i as int), filters@)[k],
                    ),
            decreases rows@.len() - i,
        {
            let ghost prev = self.select_tvs(rows@.subrange(0, i as int), filters@);
            assert(rows@.subrange(0, i + 1).drop_last() =~= rows@.subrange(0, i as int));
            assert(rows@.subrange(0, i + 1).last() == rows@[i as int]);
            let row = &rows[i];
            let mut all = true;
            let mut j: usize = 0;
            while j < filters.len()
                invariant
                    j <= filters@.len(),
                    all == forall|q: int| 0 <= q < j ==> self.tv_matches(*row, #[trigger] filters@[q]),
                decreases filters@.len() - j,
            {
                if !self.tv_matches_filter(row, &filters[j]) {
                    all = false;
                }
                j = j + 1;
            }
            if all {
                let line = TvResult {
                    id: row.id,
                    title: row.title.clone(),
                    release_date: row.release_date.clone(),
                    poster_path: crate::store::copy_text(&row.poster_path),
                    seasons: self.seasons_of_tv(row.id),
                    genre_ids: self.genres_of_tv(row.id),
                };
                out.push(line);
                assert(self.select_tvs(rows@.subrange(0, i + 1), filters@) == prev.push(
                    rows@[i as int],
                ));
                assert forall|k: int| 0 <= k < out@.len() implies tv_line(
                    *self,
                    #[trigger] out@[k],
                    self.select_tvs(rows@.subrange(0, i + 1), filters@)[k],
                ) by {
                    if k < out@.len() - 1 {
                        assert(self.select_tvs(rows@.subrange(0, i + 1), filters@)[k] == prev[k]);
                    }
                }
            }
            i = i + 1;
        }
        assert(rows@.subrange(0, rows@.len() as int) =~= rows@);
        out
    }
}

impl TvSearch {
    /// A listing of every show.
    pub fn new() -> (r: TvSearch)
        ensures
            r.filters@.len() == 0,
    {
        TvSearch { filters: Vec::new() }
    }

    /// Adds a filter.
    pub fn find(&mut self, filter: TvFilter)
        ensures
            final(self).filters@ == old(self).filters@.push(filter),
    {
        self.filters.push(filter);
    }

    /// Keeps the show with this id.
    pub fn id(&mut self, id: u64)
        ensures
            final(self).filters@ == old(self).filters@.push(TvFilter::Id(Operator::Eq, id)),
    {
        self.filters.push(TvFilter::Id(Operator::Eq, id));
    }

    /// Keeps the shows this person plays in.
    pub fn cast(&mut self, person_id: u64)
        ensures
            final(self).filters@ == old(self).filters@.push(TvFilter::Cast(person_id)),
    {
        self.filters.push(TvFilter::Cast(person_id));
    }

    /// The listing over a store.
    pub fn results(&self, library: &SqlLibrary) -> (r: Vec<TvResult>)
        ensures
            r@.len() == library.select_tvs(library.tv.tvs@, self.filters@).len(),
            forall|i: int|
                0 <= i < r@.len() ==> tv_line(
                    *library,
                    #[trigger] r@[i],
                    library.select_tvs(library.tv.tvs@, self.filters@)[i],
                ),
    {
        library.get_tvs(self)
    }

    /// Whether the listing over a store is non-empty.
    pub fn exist(&self, library: &SqlLibrary) -> (r: bool)
        ensures
            r == (library.select_tvs(library.tv.tvs@, self.filters@).len() > 0),
    {
        library.get_tvs(self).len() > 0
    }
}

} // verus!
