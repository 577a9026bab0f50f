//! Upserts of tv shows with their seasons, of episodes, and of persons.

use vstd::prelude::*;
use crate::concat::views;
use crate::model::{Genre, Person, Season, Tv, TvEpisode};
use crate::store::{
    cast_key, cast_links_of, cast_person, dict_after, distinct_cast_persons, genre_key,
    genre_links_of, image_of, links_cast_parent, links_genre_parent, unique_by, CastLink,
    EpisodeRow, PersonRow, SeasonRow, SqlLibrary, StoreError, Table, TvRow, build_cast_links,
    build_genre_links, cast_links_distinct, cast_links_for, copy_text, genre_links_for,
    genres_distinct, link_persons,
};
use crate::upsert::{
    insert_genres, lemma_append_cast_links, lemma_append_genre_links, lemma_cast_links_persons,
    push_image,
};

verus! {

pub open spec fn tv_row(t: Tv) -> TvRow {
    TvRow {
        id: t.id,
        title: t.name,
        original_title: t.original_name,
        original_language: t.original_language,
        release_date: t.first_air_date,
        overview: t.overview,
        popularity: t.popularity,
        poster_path: t.poster_path,
        backdrop_path: t.backdrop_path,
        status: t.status,
        vote_average: t.vote_average,
        vote_count: t.vote_count,
        in_production: t.in_production,
        number_of_episodes: t.number_of_episodes,
        number_of_seasons: t.number_of_seasons,
        episode_run_time: if t.episode_run_time@.len() > 0 {
            t.episode_run_time@[0]
        } else {
            0
        },
    }
}

pub open spec fn season_row(tv_id: u64, s: Season) -> SeasonRow {
    SeasonRow {
        id: s.id,
        tv_id: tv_id,
        season_number: s.season_number,
        episode_count: s.episode_count,
        title: s.name,
        overview: s.overview,
        poster_path: s.poster_path,
        release_date: s.air_date,
    }
}

pub open spec fn season_rows_of(tv_id: u64, seasons: Seq<Season>) -> Seq<SeasonRow> {
    seasons.map_values(|s: Season| season_row(tv_id, s))
}

/// The non-empty season posters, season by season.
pub open spec fn season_images(seasons: Seq<Season>) -> Seq<Seq<char>>
    decreases seasons.len(),
{
    if seasons.len() == 0 {
        Seq::<Seq<char>>::empty()
    } else {
        season_images(seasons.drop_last()) + image_of(seasons.last().poster_path)
    }
}

/// The images a tv show refers to: backdrop, poster, then each season's
/// poster, when non-empty.
pub open spec fn tv_images(t: Tv) -> Seq<Seq<char>> {
    image_of(t.backdrop_path) + image_of(t.poster_path) + season_images(t.seasons@)
}

pub open spec fn episode_row(tv_id: u64, season_id: u64, e: TvEpisode) -> EpisodeRow {
    EpisodeRow {
        id: e.id,
        season_id: season_id,
        tv_id: tv_id,
        season_number: e.season_number,
        episode_number: e.episode_number,
        release_date: e.air_date,
        title: e.name,
        overview: e.overview,
        vote_average: e.vote_average,
        vote_count: e.vote_count,
    }
}

pub open spec fn person_row(p: Person) -> PersonRow {
    PersonRow {
        id: p.id,
        name: p.name,
        birthday: p.birthday,
        deathday: p.deathday,
        known_for_department: p.known_for_department,
        gender: p.gender,
        biography: p.biography,
        popularity: p.popularity,
        place_of_birth: p.place_of_birth,
        profile_path: p.profile_path,
    }
}

impl SqlLibrary {
    pub open spec fn has_tv(&self, id: u64) -> bool {
        exists|i: int| 0 <= i < self.tv.tvs@.len() && self.tv.tvs@[i].id == id
    }

    pub open spec fn has_person(&self, id: u64) -> bool {
        exists|i: int| 0 <= i < self.persons@.len() && self.persons@[i].id == id
    }

    /// The store holds season `number` of tv show `tv_id`, under this id.
    pub open spec fn season_is(&self, tv_id: u64, number: u64, id: u64) -> bool {
        exists|i: int|
            0 <= i < self.tv.seasons@.len() && self.tv.seasons@[i].tv_id == tv_id
                && self.tv.seasons@[i].season_number == number && self.tv.seasons@[i].id == id
    }

    pub open spec fn has_season(&self, tv_id: u64, number: u64) -> bool {
        exists|i: int|
            0 <= i < self.tv.seasons@.len() && self.tv.seasons@[i].tv_id == tv_id
                && self.tv.seasons@[i].season_number == number
    }

    /// The store holds this episode of this tv show, under this id.
    pub open spec fn episode_is(&self, tv_id: u64, season: u64, episode: u64, id: u64) -> bool {
        exists|i: int|
            0 <= i < self.tv.episodes@.len() && self.tv.episodes@[i].tv_id == tv_id
                && self.tv.episodes@[i].season_number == season
                && self.tv.episodes@[i].episode_number == episode && self.tv.episodes@[i].id == id
    }

    pub open spec fn has_episode_id(&self, id: u64) -> bool {
        exists|i: int| 0 <= i < self.tv.episodes@.len() && self.tv.episodes@[i].id == id
    }

    /// The seasons of a tv document can be inserted: distinct ids and numbers,
    /// ids new to the store, and no season yet under this tv id.
    pub open spec fn tv_seasons_fit(&self, t: Tv) -> bool {
        &&& unique_by(t.seasons@, |s: Season| s.id)
        &&& unique_by(t.seasons@, |s: Season| s.season_number)
        &&& forall|i: int, j: int|
            0 <= i < self.tv.seasons@.len() && 0 <= j < t.seasons@.len() ==> (
            #[trigger] self.tv.seasons@[i]).id != (#[trigger] t.seasons@[j]).id
        &&& forall|i: int| 0 <= i < self.tv.seasons@.len() ==> (#[trigger] self.tv.seasons@[i]).tv_id != t.id
    }

    pub open spec fn tv_genres_fit(&self, t: Tv) -> bool {
        &&& unique_by(t.genres@, |g: Genre| genre_key(g))
        &&& !links_genre_parent(self.tv.genre_links@, t.id)
    }

    pub open spec fn tv_cast_fits(&self, t: Tv) -> bool {
        &&& unique_by(cast_links_of(t.id, t.credits.cast@), |l: CastLink| cast_key(l))
        &&& !links_cast_parent(self.tv.casts@, t.id)
    }

    pub open spec fn tv_accepts(&self, t: Tv) -> bool {
        &&& !self.has_tv(t.id)
        &&& self.tv_seasons_fit(t)
        &&& self.tv_genres_fit(t)
        &&& self.tv_cast_fits(t)
    }

    /// The store holds a tv show with this id.
    pub fn tv_exist(&self, tv_id: u64) -> (r: bool)
        ensures
            r == self.has_tv(tv_id),
    {
        let mut i: usize = 0;
        while i < self.tv.tvs.len()
            invariant
                i <= self.tv.tvs@.len(),
                forall|k: int| 0 <= k < i ==> self.tv.tvs@[k].id != tv_id,
            decreases self.tv.tvs@.len() - i,
        {
            if self.tv.tvs[i].id == tv_id {
                return true;
            }
            i = i + 1;
        }
        false
    }

    /// The store holds a person with this id.
    pub fn person_exist(&self, person_id: u64) -> (r: bool)
        ensures
            r == self.has_person(person_id),
    {
        let mut i: usize = 0;
        while i < self.persons.len()
            invariant
                i <= self.persons@.len(),
                forall|k: int| 0 <= k < i ==> self.persons@[k].id != person_id,
            decreases self.persons@.len() - i,
        {
            if self.persons[i].id == person_id {
                return true;
            }
            i = i + 1;
        }
        false
    }

    /// The id of season `season_number` of tv show `tv_id`, if the store holds it.
    pub fn get_season_id(&self, tv_id: u64, season_number: u64) -> (r: Option<u64>)
        ensures
            r matches Some(id) ==> self.season_is(tv_id, season_number, id),
            r is None ==> !self.has_season(tv_id, season_number),
    {
        let mut i: usize = 0;
        while i < self.tv.seasons.len()
            invariant
                i <= self.tv.seasons@.len(),
                forall|k: int|
                    0 <= k < i ==> !(self.tv.seasons@[k].tv_id == tv_id
                        && self.tv.seasons@[k].season_number == season_number),
            decreases self.tv.seasons@.len() - i,
        {
            let s = &self.tv.seasons[i];
            if s.tv_id == tv_id && s.season_number == season_number {
                return Some(s.id);
            }
            i = i + 1;
        }
        None
    }

    /// The id of an episode, if the store holds it.
    pub fn episode_exist(&self, tv_id: u64, season: u64, episode: u64) -> (r: Option<u64>)
        ensures
            r matches Some(id) ==> self.episode_is(tv_id, season, episode, id),
            r is None ==> forall|id: u64| !self.episode_is(tv_id, season, episode, id),
    {
        let mut i: usize = 0;
        while i < self.tv.episodes.len()
            invariant
                i <= self.tv.episodes@.len(),
                forall|k: int|
                    0 <= k < i ==> !(self.tv.episodes@[k].tv_id == tv_id
                        && self.tv.episodes@[k].season_number == season
                        && self.tv.episodes@[k].episode_number == episode),
            decreases self.tv.episodes@.len() - i,
        {
            let e = &self.tv.episodes[i];
            if e.tv_id == tv_id && e.season_number == season && e.episode_number == episode {
                return Some(e.id);
            }
            i = i + 1;
        }
        None
    }

    /// Whether the seasons of a tv document can be inserted.
    fn seasons_fit(&self, tv: &Tv) -> (r: bool)
        ensures
            r == self.tv_seasons_fit(*tv),
    {
        let ss = &tv.seasons;
        let mut j: usize = 0;
        while j < ss.len()
            invariant
                ss@ == tv.seasons@,
                j <= ss@.len(),
                forall|a: int, b: int|
                    #![trigger ss@[a], ss@[b]]
                    0 <= a < b < j ==> ss@[a].id != ss@[b].id && ss@[a].season_number
                        != ss@[b].season_number,
            decreases ss@.len() - j,
        {
            let mut i: usize = 0;
            while i < j
                invariant
                    ss@ == tv.seasons@,
                    i <= j < ss@.len(),
                    forall|a: int|
                        0 <= a < i ==> ss@[a].id != ss@[j as int].id && ss@[a].season_number
                            != ss@[j as int].season_number,
                decreases j - i,
            {
                if ss[i].id == ss[j].id || ss[i].season_number == ss[j].season_number {
                    proof {
                        if ss@[i as int].id == ss@[j as int].id {
                            assert(!unique_by(ss@, |s: Season| s.id));
                        } else {
                            assert(!unique_by(ss@, |s: Season| s.season_number));
                        }
                    }
                    return false;
                }
                i = i + 1;
            }
            j = j + 1;
        }
        let rows = &self.tv.seasons;
        let mut i: usize = 0;
        while i < rows.len()
            invariant
                rows@ == self.tv.seasons@,
                ss@ == tv.seasons@,
                i <= rows@.len(),
                forall|a: int, b: int|
                    0 <= a < i && 0 <= b < ss@.len() ==> (#[trigger] rows@[a]).id != (
                    #[trigger] ss@[b]).id,
                forall|a: int| 0 <= a < i ==> (#[trigger] rows@[a]).tv_id != tv.id,
            decreases rows@.len() - i,
        {
            if rows[i].tv_id == tv.id {
                assert(self.tv.seasons@[i as int].tv_id == tv.id);
                return false;
            }
            let mut k: usize = 0;
            while k < ss.len()
                invariant
                    rows@ == self.tv.seasons@,
                    ss@ == tv.seasons@,
                    i < rows@.len(),
                    k <= ss@.len(),
                    forall|b: int| 0 <= b < k ==> rows@[i as int].id != (#[trigger] ss@[b]).id,
                decreases ss@.len() - k,
            {
                if rows[i].id == ss[k].id {
                    assert(self.tv.seasons@[i as int].id == tv.seasons@[k as int].id);
                    return false;
                }
                k = k + 1;
            }
            i = i + 1;
        }
        true
    }

    /// Inserts a tv show, its seasons, its genres and its cast within the
    /// cutoff, as one transaction; a show already stored is left as it is,
    /// with nothing returned. Returns the distinct persons of the linked
    /// cast and the show's non-empty image paths.
    pub fn create_tv(&mut self, tv: &Tv) -> (r: Result<(Vec<u64>, Vec<String>), StoreError>)
        requires
            old(self).wf(),
        ensures
            final(self).wf(),
            r is Ok <==> (old(self).has_tv(tv.id) || old(self).tv_accepts(*tv)),
            r is Err ==> *final(self) == *old(self),
            old(self).has_tv(tv.id) ==> *final(self) == *old(self) && (r matches Ok((ids, paths))
                && ids@.len() == 0 && paths@.len() == 0),
            !old(self).has_tv(tv.id) && !old(self).tv_seasons_fit(*tv) ==> r == Err::<
                (Vec<u64>, Vec<String>),
                StoreError,
            >(StoreError::Constraint(Table::Seasons)),
            !old(self).has_tv(tv.id) && old(self).tv_seasons_fit(*tv) && !old(self).tv_genres_fit(
                *tv,
            ) ==> r == Err::<(Vec<u64>, Vec<String>), StoreError>(
                StoreError::Constraint(Table::TvGenreLinks),
            ),
            !old(self).has_tv(tv.id) && old(self).tv_seasons_fit(*tv) && old(self).tv_genres_fit(
                *tv,
            ) && !old(self).tv_cast_fits(*tv) ==> r == Err::<(Vec<u64>, Vec<String>), StoreError>(
                StoreError::Constraint(Table::TvCasts),
            ),
            !old(self).has_tv(tv.id) ==> (r matches Ok((ids, paths)) ==> {
                &&& final(self).tv.tvs@ == old(self).tv.tvs@.push(tv_row(*tv))
                &&& final(self).tv.seasons@ == old(self).tv.seasons@ + season_rows_of(
                    tv.id,
                    tv.seasons@,
                )
                &&& final(self).tv.genres@ == dict_after(old(self).tv.genres@, tv.genres@)
                &&& final(self).tv.genre_links@ == old(self).tv.genre_links@ + genre_links_of(
                    tv.id,
                    tv.genres@,
                )
                &&& final(self).tv.casts@ == old(self).tv.casts@ + cast_links_of(
                    tv.id,
                    tv.credits.cast@,
                )
                &&& final(self).tv.episodes == old(self).tv.episodes
                &&& final(self).tv.episode_casts == old(self).tv.episode_casts
                &&& final(self).movie == old(self).movie
                &&& final(self).persons == old(self).persons
                &&& final(self).collections == old(self).collections
                &&& final(self).video == old(self).video
                &&& distinct_cast_persons(ids@, tv.credits.cast@)
                &&& views(paths@) == tv_images(*tv)
            }),
    {
        if self.tv_exist(tv.id) {
            return Ok((Vec::new(), Vec::new()));
        }
        if !self.seasons_fit(tv) {
            return Err(StoreError::Constraint(Table::Seasons));
        }
        if !genres_distinct(&tv.genres) || genre_links_for(&self.tv.genre_links, tv.id) {
            return Err(StoreError::Constraint(Table::TvGenreLinks));
        }
        let mut cast_links = build_cast_links(tv.id, &tv.credits.cast);
        if !cast_links_distinct(&cast_links) || cast_links_for(&self.tv.casts, tv.id) {
            return Err(StoreError::Constraint(Table::TvCasts));
        }
        let ids = link_persons(&cast_links);
        let mut genre_links = build_genre_links(tv.id, &tv.genres);
        proof {
            lemma_append_cast_links(self.tv.casts@, tv.id, tv.credits.cast@);
            lemma_append_genre_links(self.tv.genre_links@, tv.id, tv.genres@);
            assert forall|k: u64| ids@.contains(k) <==> cast_person(tv.credits.cast@, k) by {
                lemma_cast_links_persons(tv.id, tv.credits.cast@, k);
            }
        }
        let ghost before = self.tv.tvs@;
        self.tv.tvs.push(TvRow::from_doc(tv));
        assert forall|a: int, b: int|
            #![trigger self.tv.tvs@[a], self.tv.tvs@[b]]
            0 <= a < b < self.tv.tvs@.len() implies self.tv.tvs@[a].id != self.tv.tvs@[b].id by {
            assert(self.tv.tvs@[a] == before[a]);
            if b < before.len() {
                assert(self.tv.tvs@[b] == before[b]);
            }
        }
        self.insert_seasons(tv);
        insert_genres(&mut self.tv.genres, &tv.genres);
        self.tv.genre_links.append(&mut genre_links);
        self.tv.casts.append(&mut cast_links);
        let mut paths: Vec<String> = Vec::new();
        push_image(&mut paths, &tv.backdrop_path);
        push_image(&mut paths, &tv.poster_path);
        let mut i: usize = 0;
        while i < tv.seasons.len()
            invariant
                i <= tv.seasons@.len(),
                views(paths@) == image_of(tv.backdrop_path) + image_of(tv.poster_path)
                    + season_images(tv.seasons@.subrange(0, i as int)),
            decreases tv.seasons@.len() - i,
        {
            proof {
                assert(tv.seasons@.subrange(0, i + 1).drop_last() =~= tv.seasons@.subrange(0, i as int));
                assert(tv.seasons@.subrange(0, i + 1).last() == tv.seasons@[i as int]);
            }
            push_image(&mut paths, &tv.seasons[i].poster_path);
            i = i + 1;
            proof {
                assert(views(paths@) =~= image_of(tv.backdrop_path) + image_of(tv.poster_path)
                    + season_images(tv.seasons@.subrange(0, i as int)));
            }
        }
        assert(tv.seasons@.subrange(0, tv.seasons@.len() as int) =~= tv.seasons@);
        Ok((ids, paths))
    }

    /// Appends the season rows of a tv document whose seasons fit.
    fn insert_seasons(&mut self, tv: &Tv)
        requires
            old(self).tv.wf(),
            old(self).tv_seasons_fit(*tv),
        ensures
            final(self).tv.seasons@ == old(self).tv.seasons@ + season_rows_of(tv.id, tv.seasons@),
            final(self).tv.wf(),
            final(self).tv.tvs == old(self).tv.tvs,
            final(self).tv.genres == old(self).tv.genres,
            final(self).tv.genre_links == old(self).tv.genre_links,
            final(self).tv.casts == old(self).tv.casts,
            final(self).tv.episodes == old(self).tv.episodes,
            final(self).tv.episode_casts == old(self).tv.episode_casts,
            final(self).movie == old(self).movie,
            final(self).persons == old(self).persons,
            final(self).collections == old(self).collections,
            final(self).video == old(self).video,
    {
        let ghost start = self.tv.seasons@;
        let mut i: usize = 0;
        while i < tv.seasons.len()
            invariant
                i <= tv.seasons@.len(),
                self.tv.seasons@ =~= start + season_rows_of(tv.id, tv.seasons@.subrange(0, i as int)),
                start == old(self).tv.seasons@,
                old(self).tv_seasons_fit(*tv),
                old(self).tv.wf(),
                self.tv.tvs == old(self).tv.tvs,
                self.tv.genres == old(self).tv.genres,
                self.tv.genre_links == old(self).tv.genre_links,
                self.tv.casts == old(self).tv.casts,
                self.tv.episodes == old(self).tv.episodes,
                self.tv.episode_casts == old(self).tv.episode_casts,
                self.movie == old(self).movie,
                self.persons == old(self).persons,
                self.collections == old(self).collections,
                self.video == old(self).video,
            decreases tv.seasons@.len() - i,
        {
            let s = &tv.seasons[i];
            self.tv.seasons.push(
                SeasonRow {
                    id: s.id,
                    tv_id: tv.id,
                    season_number: s.season_number,
                    episode_count: s.episode_count,
                    title: s.name.clone(),
                    overview: copy_text(&s.overview),
                    poster_path: copy_text(&s.poster_path),
                    release_date: copy_text(&s.air_date),
                },
            );
            i = i + 1;
            assert(self.tv.seasons@ =~= start + season_rows_of(
                tv.id,
                tv.seasons@.subrange(0, i as int),
            ));
        }
        assert(tv.seasons@.subrange(0, tv.seasons@.len() as int) =~= tv.seasons@);
        let ghost added = season_rows_of(tv.id, tv.seasons@);
        proof {
            assert forall|a: int, b: int|
                #![trigger start[a], added[b]]
                0 <= a < start.len() && 0 <= b < added.len() implies start[a].id != added[b].id
                && (start[a].tv_id, start[a].season_number) != (
                added[b].tv_id,
                added[b].season_number,
            ) by {
                assert(added[b].id == tv.seasons@[b].id);
                assert(start[a].tv_id != tv.id);
            }
            assert forall|a: int, b: int|
                #![trigger added[a], added[b]]
                0 <= a < b < added.len() implies added[a].id != added[b].id && added[a].season_number
                != added[b].season_number by {
                assert(added[a].id == tv.seasons@[a].id);
                assert(added[b].id == tv.seasons@[b].id);
            }
            crate::store::lemma_unique_append(start, added, |r: SeasonRow| r.id);
            crate::store::lemma_unique_append(
                start,
                added,
                |r: SeasonRow| (r.tv_id, r.season_number),
            );
        }
    }

    /// Inserts an episode of tv show `tv_id` and its cast within the cutoff,
    /// as one transaction. The season that holds the episode must already be
    /// in the store. Returns the distinct persons of the linked cast and the
    /// episode's non-empty still image.
    pub fn create_episode(&mut self, tv_id: u64, episode: &TvEpisode) -> (r: Result<
        (Vec<u64>, Vec<String>),
        StoreError,
    >)
        requires
            old(self).wf(),
        ensures
            final(self).wf(),
            r is Err ==> *final(self) == *old(self),
            !old(self).has_season(tv_id, episode.season_number) ==> r == Err::<
                (Vec<u64>, Vec<String>),
                StoreError,
            >(StoreError::SeasonNotFound),
            old(self).has_season(tv_id, episode.season_number) && (old(self).has_episode_id(
                episode.id,
            ) || exists|id: u64|
                old(self).episode_is(tv_id, episode.season_number, episode.episode_number, id))
                ==> r == Err::<(Vec<u64>, Vec<String>), StoreError>(
                StoreError::Constraint(Table::Episodes),
            ),
            old(self).has_season(tv_id, episode.season_number) ==> (r is Ok <==> (
            !old(self).has_episode_id(episode.id) && (forall|id: u64|
                !old(self).episode_is(tv_id, episode.season_number, episode.episode_number, id))
                && unique_by(
                cast_links_of(episode.id, episode.credits.cast@),
                |l: CastLink| cast_key(l),
            ) && !links_cast_parent(old(self).tv.episode_casts@, episode.id))),
            r matches Ok((ids, paths)) ==> exists|season_id: u64|
                {
                    &&& old(self).season_is(tv_id, episode.season_number, season_id)
                    &&& final(self).tv.episodes@ == old(self).tv.episodes@.push(
                        episode_row(tv_id, season_id, *episode),
                    )
                }
                    && final(self).tv.episode_casts@ == old(self).tv.episode_casts@
                    + cast_links_of(episode.id, episode.credits.cast@) && final(self).tv.tvs
                    == old(self).tv.tvs && final(self).tv.seasons == old(self).tv.seasons
                    && final(self).tv.genres == old(self).tv.genres && final(self).tv.genre_links
                    == old(self).tv.genre_links && final(self).tv.casts == old(self).tv.casts
                    && final(self).movie == old(self).movie && final(self).persons == old(
                    self,
                ).persons && final(self).video == old(self).video && final(self).collections == old(
                    self,
                ).collections && distinct_cast_persons(
                    ids@,
                    episode.credits.cast@,
                ) && views(paths@) == image_of(episode.still_path),
    {
        let season_id = match self.get_season_id(tv_id, episode.season_number) {
            Some(id) => id,
            None => {
                return Err(StoreError::SeasonNotFound);
            },
        };
        proof {
            let w = choose|w: int|
                0 <= w < self.tv.seasons@.len() && self.tv.seasons@[w].tv_id == tv_id
                    && self.tv.seasons@[w].season_number == episode.season_number
                    && self.tv.seasons@[w].id == season_id;
            assert(self.tv.seasons@[w].tv_id == tv_id);
        }
        let mut i: usize = 0;
        while i < self.tv.episodes.len()
            invariant
                *self == *old(self),
                old(self).wf(),
                old(self).has_season(tv_id, episode.season_number),
                i <= self.tv.episodes@.len(),
                forall|k: int|
                    0 <= k < i ==> self.tv.episodes@[k].id != episode.id && !(
                    self.tv.episodes@[k].tv_id == tv_id && self.tv.episodes@[k].season_number
                        == episode.season_number && self.tv.episodes@[k].episode_number
                        == episode.episode_number),
            decreases self.tv.episodes@.len() - i,
        {
            let e = &self.tv.episodes[i];
            if e.id == episode.id || (e.tv_id == tv_id && e.season_number == episode.season_number
                && e.episode_number == episode.episode_number) {
                proof {
                    let row = self.tv.episodes@[i as int];
                    if row.id == episode.id {
                        assert(old(self).has_episode_id(episode.id));
                    } else {
                        assert(old(self).episode_is(
                            tv_id,
                            episode.season_number,
                            episode.episode_number,
                            row.id,
                        ));
                    }
                }
                return Err(StoreError::Constraint(Table::Episodes));
            }
            i = i + 1;
        }
        let mut cast_links = build_cast_links(episode.id, &episode.credits.cast);
        if !cast_links_distinct(&cast_links) || cast_links_for(&self.tv.episode_casts, episode.id) {
            return Err(StoreError::Constraint(Table::EpisodeCasts));
        }
        let ids = link_persons(&cast_links);
        proof {
            lemma_append_cast_links(self.tv.episode_casts@, episode.id, episode.credits.cast@);
            assert forall|k: u64| ids@.contains(k) <==> cast_person(episode.credits.cast@, k) by {
                lemma_cast_links_persons(episode.id, episode.credits.cast@, k);
            }
        }
        let ghost before = self.tv.episodes@;
        self.tv.episodes.push(
            EpisodeRow {
                id: episode.id,
                season_id: season_id,
                tv_id: tv_id,
                season_number: episode.season_number,
                episode_number: episode.episode_number,
                release_date: episode.air_date.clone(),
                title: episode.name.clone(),
                overview: copy_text(&episode.overview),
                vote_average: episode.vote_average.clone(),
                vote_count: episode.vote_count,
            },
        );
        assert forall|a: int, b: int|
            #![trigger self.tv.episodes@[a], self.tv.episodes@[b]]
            0 <= a < b < self.tv.episodes@.len() implies self.tv.episodes@[a].id
            != self.tv.episodes@[b].id && (
            self.tv.episodes@[a].tv_id,
            self.tv.episodes@[a].season_number,
            self.tv.episodes@[a].episode_number,
        ) != (
            self.tv.episodes@[b].tv_id,
            self.tv.episodes@[b].season_number,
            self.tv.episodes@[b].episode_number,
        ) by {
            assert(self.tv.episodes@[a] == before[a]);
            if b < before.len() {
                assert(self.tv.episodes@[b] == before[b]);
            }
        }
        self.tv.episode_casts.append(&mut cast_links);
        let mut paths: Vec<String> = Vec::new();
        push_image(&mut paths, &episode.still_path);
        assert(views(paths@) =~= image_of(episode.still_path));
        Ok((ids, paths))
    }

    /// Inserts a person; a person already stored is left as it is, with
    /// nothing returned. A person refers to no other entity, so the first list
    /// returned is empty; the second holds the non-empty profile image.
    pub fn create_person(&mut self, person: &Person) -> (r: Result<
        (Vec<u64>, Vec<String>),
        StoreError,
    >)
        requires
            old(self).wf(),
        ensures
            final(self).wf(),
            r is Ok,
            old(self).has_person(person.id) ==> *final(self) == *old(self) && (r matches Ok(
                (ids, paths),
            ) && ids@.len() == 0 && paths@.len() == 0),
            !old(self).has_person(person.id) ==> (r matches Ok((ids, paths)) ==> {
                &&& final(self).persons@ == old(self).persons@.push(person_row(*person))
                &&& final(self).movie == old(self).movie
                &&& final(self).tv == old(self).tv
                &&& final(self).video == old(self).video
                &&& final(self).collections == old(self).collections
                &&& ids@.len() == 0
                &&& views(paths@) == image_of(person.profile_path)
            }),
    {
        if self.person_exist(person.id) {
            return Ok((Vec::new(), Vec::new()));
        }
        let ghost before = self.persons@;
        self.persons.push(
            PersonRow {
                id: person.id,
                name: person.name.clone(),
                birthday: copy_text(&person.birthday),
                deathday: copy_text(&person.deathday),
                known_for_department: copy_text(&person.known_for_department),
                gender: person.gender,
                biography: person.biography.clone(),
                popularity: person.popularity.clone(),
                place_of_birth: copy_text(&person.place_of_birth),
                profile_path: copy_text(&person.profile_path),
            },
        );
        assert forall|a: int, b: int|
            #![trigger self.persons@[a], self.persons@[b]]
            0 <= a < b < self.persons@.len() implies self.persons@[a].id != self.persons@[b].id by {
            assert(self.persons@[a] == before[a]);
            if b < before.len() {
                assert(self.persons@[b] == before[b]);
            }
        }
        let mut paths: Vec<String> = Vec::new();
        push_image(&mut paths, &person.profile_path);
        assert(views(paths@) =~= image_of(person.profile_path));
        Ok((Vec::new(), paths))
    }
}

impl TvRow {
    pub fn from_doc(t: &Tv) -> (r: TvRow)
        ensures
            r == tv_row(*t),
    {
        let run_time = if t.episode_run_time.len() > 0 {
            t.episode_run_time[0]
        } else {
            0
        };
        TvRow {
            id: t.id,
            title: t.name.clone(),
            original_title: t.original_name.clone(),
            original_language: t.original_language.clone(),
            release_date: t.first_air_date.clone(),
            overview: copy_text(&t.overview),
            popularity: t.popularity.clone(),
            poster_path: copy_text(&t.poster_path),
            backdrop_path: copy_text(&t.backdrop_path),
            status: t.status.clone(),
            vote_average: t.vote_average.clone(),
            vote_count: t.vote_count,
            in_production: t.in_production,
            number_of_episodes: t.number_of_episodes,
            number_of_seasons: t.number_of_seasons,
            episode_run_time: run_time,
        }
    }
}

} // verus!
