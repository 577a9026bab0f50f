//! Testing that a store read back from elsewhere keeps every unique key.

use vstd::prelude::*;
use crate::store::{
    cast_links_distinct, genres_distinct, unique_by, CollectionRow, EpisodeRow, GenreLink, LanguageRow,
    LastTimeRow, MovieRow, PersonRow, SeasonRow, SqlLibrary, TvRow, VideoRow,
};

verus! {

/// Whether no two rows share their key.
fn movie_ids_distinct(rows: &Vec<MovieRow>) -> (r: bool)
    ensures
        r == unique_by(rows@, |r: MovieRow| r.id),
{
    let mut j: usize = 0;
    while j < rows.len()
        invariant
            j <= rows@.len(),
            forall|a: int, b: int|
                #![trigger rows@[a], rows@[b]]
                0 <= a < b < j ==> rows@[a].id != rows@[b].id,
        decreases rows@.len() - j,
    {
        let mut i: usize = 0;
        while i < j
            invariant
                i <= j < rows@.len(),
                forall|a: int| 0 <= a < i ==> rows@[a].id != rows@[j as int].id,
            decreases j - i,
        {
            if rows[i].id == rows[j].id {
                assert(rows@[i as int].id == rows@[j as int].id);
                return false;
            }
            i = i + 1;
        }
        j = j + 1;
    }
    true
}

/// Whether no two rows share their key.
fn genre_links_distinct(rows: &Vec<GenreLink>) -> (r: bool)
    ensures
        r == unique_by(rows@, |l: GenreLink| l),
{
    let mut j: usize = 0;
    while j < rows.len()
        invariant
            j <= rows@.len(),
            forall|a: int, b: int|
                #![trigger rows@[a], rows@[b]]
                0 <= a < b < j ==> rows@[a] != rows@[b],
        decreases rows@.len() - j,
    {
        let mut i: usize = 0;
        while i < j
            invariant
                i <= j < rows@.len(),
                forall|a: int| 0 <= a < i ==> rows@[a] != rows@[j as int],
            decreases j - i,
        {
            if rows[i].parent_id == rows[j].parent_id && rows[i].genre_id == rows[j].genre_id {
                assert(rows@[i as int] == rows@[j as int]);
                return false;
            }
            i = i + 1;
        }
        j = j + 1;
    }
    true
}

/// Whether no two rows share their key.
fn tv_ids_distinct(rows: &Vec<TvRow>) -> (r: bool)
    ensures
        r == unique_by(rows@, |r: TvRow| r.id),
{
    let mut j: usize = 0;
    while j < rows.len()
        invariant
            j <= rows@.len(),
            forall|a: int, b: int|
                #![trigger rows@[a], rows@[b]]
                0 <= a < b < j ==> rows@[a].id != rows@[b].id,
        decreases rows@.len() - j,
    {
        let mut i: usize = 0;
        while i < j
            invariant
                i <= j < rows@.len(),
                forall|a: int| 0 <= a < i ==> rows@[a].id != rows@[j as int].id,
            decreases j - i,
        {
            if rows[i].id == rows[j].id {
                assert(rows@[i as int].id == rows@[j as int].id);
                return false;
            }
            i = i + 1;
        }
        j = j + 1;
    }
    true
}

/// Whether no two rows share their key.
fn season_ids_distinct(rows: &Vec<SeasonRow>) -> (r: bool)
    ensures
        r == unique_by(rows@, |r: SeasonRow| r.id),
{
    let mut j: usize = 0;
    while j < rows.len()
        invariant
            j <= rows@.len(),
            forall|a: int, b: int|
                #![trigger rows@[a], rows@[b]]
                0 <= a < b < j ==> rows@[a].id != rows@[b].id,
        decreases rows@.len() - j,
    {
        let mut i: usize = 0;
        while i < j
            invariant
                i <= j < rows@.len(),
                forall|a: int| 0 <= a < i ==> rows@[a].id != rows@[j as int].id,
            decreases j - i,
        {
            if rows[i].id == rows[j].id {
                assert(rows@[i as int].id == rows@[j as int].id);
                return false;
            }
            i = i + 1;
        }
        j = j + 1;
    }
    true
}

/// Whether no two rows share their key.
fn season_numbers_distinct(rows: &Vec<SeasonRow>) -> (r: bool)
    ensures
        r == unique_by(rows@, |r: SeasonRow| (r.tv_id, r.season_number)),
{
    let mut j: usize = 0;
    while j < rows.len()
        invariant
            j <= rows@.len(),
            forall|a: int, b: int|
                #![trigger rows@[a], rows@[b]]
                0 <= a < b < j ==> (rows@[a].tv_id, rows@[a].season_number) != (rows@[b].tv_id, rows@[b].season_number),
        decreases rows@.len() - j,
    {
        let mut i: usize = 0;
        while i < j
            invariant
                i <= j < rows@.len(),
                forall|a: int| 0 <= a < i ==> (rows@[a].tv_id, rows@[a].season_number) != (rows@[j as int].tv_id, rows@[j as int].season_number),
            decreases j - i,
        {
            if rows[i].tv_id == rows[j].tv_id && rows[i].season_number == rows[j].season_number {
                assert((rows@[i as int].tv_id, rows@[i as int].season_number) == (rows@[j as int].tv_id, rows@[j as int].season_number));
                return false;
            }
            i = i + 1;
        }
        j = j + 1;
    }
    true
}

/// Whether no two rows share their key.
fn episode_ids_distinct(rows: &Vec<EpisodeRow>) -> (r: bool)
    ensures
        r == unique_by(rows@, |r: EpisodeRow| r.id),
{
    let mut j: usize = 0;
    while j < rows.len()
        invariant
            j <= rows@.len(),
            forall|a: int, b: int|
                #![trigger rows@[a], rows@[b]]
                0 <= a < b < j ==> rows@[a].id != rows@[b].id,
        decreases rows@.len() - j,
    {
        let mut i: usize = 0;
        while i < j
            invariant
                i <= j < rows@.len(),
                forall|a: int| 0 <= a < i ==> rows@[a].id != rows@[j as int].id,
            decreases j - i,
        {
            if rows[i].id == rows[j].id {
                assert(rows@[i as int].id == rows@[j as int].id);
                return false;
            }
            i = i + 1;
        }
        j = j + 1;
    }
    true
}

/// Whether no two rows share their key.
fn episode_places_distinct(rows: &Vec<EpisodeRow>) -> (r: bool)
    ensures
        r == unique_by(rows@, |r: EpisodeRow| (r.tv_id, r.season_number, r.episode_number)),
{
    let mut j: usize = 0;
    while j < rows.len()
        invariant
            j <= rows@.len(),
            forall|a: int, b: int|
                #![trigger rows@[a], rows@[b]]
                0 <= a < b < j ==> (rows@[a].tv_id, rows@[a].season_number, rows@[a].episode_number) != (rows@[b].tv_id, rows@[b].season_number, rows@[b].episode_number),
        decreases rows@.len() - j,
    {
        let mut i: usize = 0;
        while i < j
            invariant
                i <= j < rows@.len(),
                forall|a: int| 0 <= a < i ==> (rows@[a].tv_id, rows@[a].season_number, rows@[a].episode_number) != (rows@[j as int].tv_id, rows@[j as int].season_number, rows@[j as int].episode_number),
            decreases j - i,
        {
            if rows[i].tv_id == rows[j].tv_id && rows[i].season_number == rows[j].season_number && rows[i].episode_number == rows[j].episode_number {
                assert((rows@[i as int].tv_id, rows@[i as int].season_number, rows@[i as int].episode_number) == (rows@[j as int].tv_id, rows@[j as int].season_number, rows@[j as int].episode_number));
                return false;
            }
            i = i + 1;
        }
        j = j + 1;
    }
    true
}

/// Whether no two rows share their key.
fn person_ids_distinct(rows: &Vec<PersonRow>) -> (r: bool)
    ensures
        r == unique_by(rows@, |r: PersonRow| r.id),
{
    let mut j: usize = 0;
    while j < rows.len()
        invariant
            j <= rows@.len(),
            forall|a: int, b: int|
                #![trigger rows@[a], rows@[b]]
                0 <= a < b < j ==> rows@[a].id != rows@[b].id,
        decreases rows@.len() - j,
    {
        let mut i: usize = 0;
        while i < j
            invariant
                i <= j < rows@.len(),
                forall|a: int| 0 <= a < i ==> rows@[a].id != rows@[j as int].id,
            decreases j - i,
        {
            if rows[i].id == rows[j].id {
                assert(rows@[i as int].id == rows@[j as int].id);
                return false;
            }
            i = i + 1;
        }
        j = j + 1;
    }
    true
}

/// Whether no two rows share their key.
fn video_ids_distinct(rows: &Vec<VideoRow>) -> (r: bool)
    ensures
        r == unique_by(rows@, |r: VideoRow| r.id),
{
    let mut j: usize = 0;
    while j < rows.len()
        invariant
            j <= rows@.len(),
            forall|a: int, b: int|
                #![trigger rows@[a], rows@[b]]
                0 <= a < b < j ==> rows@[a].id != rows@[b].id,
        decreases rows@.len() - j,
    {
        let mut i: usize = 0;
        while i < j
            invariant
                i <= j < rows@.len(),
                forall|a: int| 0 <= a < i ==> rows@[a].id != rows@[j as int].id,
            decreases j - i,
        {
            if rows[i].id == rows[j].id {
                assert(rows@[i as int].id == rows@[j as int].id);
                return false;
            }
            i = i + 1;
        }
        j = j + 1;
    }
    true
}

/// Whether no two rows share their key.
fn video_paths_distinct(rows: &Vec<VideoRow>) -> (r: bool)
    ensures
        r == unique_by(rows@, |r: VideoRow| r.path@),
{
    let mut j: usize = 0;
    while j < rows.len()
        invariant
            j <= rows@.len(),
            forall|a: int, b: int|
                #![trigger rows@[a], rows@[b]]
                0 <= a < b < j ==> rows@[a].path@ != rows@[b].path@,
        decreases rows@.len() - j,
    {
        let mut i: usize = 0;
        while i < j
            invariant
                i <= j < rows@.len(),
                forall|a: int| 0 <= a < i ==> rows@[a].path@ != rows@[j as int].path@,
            decreases j - i,
        {
            if rows[i].path == rows[j].path {
                assert(rows@[i as int].path@ == rows@[j as int].path@);
                return false;
            }
            i = i + 1;
        }
        j = j + 1;
    }
    true
}

/// Whether no two rows share their key.
fn languages_distinct(rows: &Vec<LanguageRow>) -> (r: bool)
    ensures
        r == unique_by(rows@, |r: LanguageRow| (r.video_id, r.language@)),
{
    let mut j: usize = 0;
    while j < rows.len()
        invariant
            j <= rows@.len(),
            forall|a: int, b: int|
                #![trigger rows@[a], rows@[b]]
                0 <= a < b < j ==> (rows@[a].video_id, rows@[a].language@) != (rows@[b].video_id, rows@[b].language@),
        decreases rows@.len() - j,
    {
        let mut i: usize = 0;
        while i < j
            invariant
                i <= j < rows@.len(),
                forall|a: int| 0 <= a < i ==> (rows@[a].video_id, rows@[a].language@) != (rows@[j as int].video_id, rows@[j as int].language@),
            decreases j - i,
        {
            if rows[i].video_id == rows[j].video_id && rows[i].language == rows[j].language {
                assert((rows@[i as int].video_id, rows@[i as int].language@) == (rows@[j as int].video_id, rows@[j as int].language@));
                return false;
            }
            i = i + 1;
        }
        j = j + 1;
    }
    true
}

/// Whether no two rows share their key.
fn last_times_distinct(rows: &Vec<LastTimeRow>) -> (r: bool)
    ensures
        r == unique_by(rows@, |r: LastTimeRow| (r.video_id, r.user_id)),
{
    let mut j: usize = 0;
    while j < rows.len()
        invariant
            j <= rows@.len(),
            forall|a: int, b: int|
                #![trigger rows@[a], rows@[b]]
                0 <= a < b < j ==> (rows@[a].video_id, rows@[a].user_id) != (rows@[b].video_id, rows@[b].user_id),
        decreases rows@.len() - j,
    {
        let mut i: usize = 0;
        while i < j
            invariant
                i <= j < rows@.len(),
                forall|a: int| 0 <= a < i ==> (rows@[a].video_id, rows@[a].user_id) != (rows@[j as int].video_id, rows@[j as int].user_id),
            decreases j - i,
        {
            if rows[i].video_id == rows[j].video_id && rows[i].user_id == rows[j].user_id {
                assert((rows@[i as int].video_id, rows@[i as int].user_id) == (rows@[j as int].video_id, rows@[j as int].user_id));
                return false;
            }
            i = i + 1;
        }
        j = j + 1;
    }
    true
}

/// Whether every row's id is below `bound`.
fn videos_below(rows: &Vec<VideoRow>, bound: u64) -> (r: bool)
    ensures
        r == forall|i: int| 0 <= i < rows@.len() ==> #[trigger] rows@[i].id < bound,
{
    let mut i: usize = 0;
    while i < rows.len()
        invariant
            i <= rows@.len(),
            forall|k: int| 0 <= k < i ==> #[trigger] rows@[k].id < bound,
        decreases rows@.len() - i,
    {
        if rows[i].id >= bound {
            return false;
        }
        i = i + 1;
    }
    true
}

/// Whether every row's id is below `bound`.
fn languages_below(rows: &Vec<LanguageRow>, bound: u64) -> (r: bool)
    ensures
        r == forall|i: int| 0 <= i < rows@.len() ==> #[trigger] rows@[i].video_id < bound,
{
    let mut i: usize = 0;
    while i < rows.len()
        invariant
            i <= rows@.len(),
            forall|k: int| 0 <= k < i ==> #[trigger] rows@[k].video_id < bound,
        decreases rows@.len() - i,
    {
        if rows[i].video_id >= bound {
            return false;
        }
        i = i + 1;
    }
    true
}

/// Whether no two collections share an id.
fn collection_ids_distinct(rows: &Vec<CollectionRow>) -> (r: bool)
    ensures
        r == unique_by(rows@, |r: CollectionRow| r.id),
{
    let mut j: usize = 0;
    while j < rows.len()
        invariant
            j <= rows@.len(),
            forall|a: int, b: int|
                #![trigger rows@[a], rows@[b]]
                0 <= a < b < j ==> rows@[a].id != rows@[b].id,
        decreases rows@.len() - j,
    {
        let mut i: usize = 0;
        while i < j
            invariant
                i <= j < rows@.len(),
                forall|a: int| 0 <= a < i ==> rows@[a].id != rows@[j as int].id,
            decreases j - i,
        {
            if rows[i].id == rows[j].id {
                assert(rows@[i as int].id == rows@[j as int].id);
                return false;
            }
            i = i + 1;
        }
        j = j + 1;
    }
    true
}

/// Whether every collection's id is below `bound`.
fn collections_below(rows: &Vec<CollectionRow>, bound: u64) -> (r: bool)
    ensures
        r == forall|i: int| 0 <= i < rows@.len() ==> #[trigger] rows@[i].id < bound,
{
    let mut i: usize = 0;
    while i < rows.len()
        invariant
            i <= rows@.len(),
            forall|k: int| 0 <= k < i ==> #[trigger] rows@[k].id < bound,
        decreases rows@.len() - i,
    {
        if rows[i].id >= bound {
            return false;
        }
        i = i + 1;
    }
    true
}

impl SqlLibrary {
    /// Whether the store is well formed: callers that fill the tables
    /// themselves (from a file, say) test this before any other call.
    pub fn well_formed(&self) -> (r: bool)
        ensures
            r == self.wf(),
    {
        movie_ids_distinct(&self.movie.movies) && genres_distinct(&self.movie.genres)
            && genre_links_distinct(&self.movie.genre_links) && cast_links_distinct(
            &self.movie.casts,
        ) && tv_ids_distinct(&self.tv.tvs) && genres_distinct(&self.tv.genres)
            && genre_links_distinct(&self.tv.genre_links) && cast_links_distinct(&self.tv.casts)
            && season_ids_distinct(&self.tv.seasons) && season_numbers_distinct(&self.tv.seasons)
            && episode_ids_distinct(&self.tv.episodes) && episode_places_distinct(
            &self.tv.episodes,
        ) && cast_links_distinct(&self.tv.episode_casts) && person_ids_distinct(&self.persons)
            && video_ids_distinct(&self.video.videos) && video_paths_distinct(&self.video.videos)
            && videos_below(&self.video.videos, self.video.next_id) && languages_below(
            &self.video.subtitles,
            self.video.next_id,
        ) && languages_below(&self.video.audios, self.video.next_id) && languages_distinct(
            &self.video.subtitles,
        ) && languages_distinct(&self.video.audios) && last_times_distinct(
            &self.video.last_times,
        ) && collection_ids_distinct(&self.collections.rows) && collections_below(
            &self.collections.rows,
            self.collections.next_id,
        )
    }
}

/// The counter that follows the ids: one past the largest, or 1 for none.
pub open spec fn follows(ids: Seq<u64>, next: u64) -> bool {
    &&& forall|i: int| 0 <= i < ids.len() ==> #[trigger] ids[i] < next
    &&& ids.len() == 0 ==> next == 1
    &&& ids.len() > 0 ==> exists|i: int| 0 <= i < ids.len() && ids[i] + 1 == next
}

pub open spec fn video_ids(rows: Seq<VideoRow>) -> Seq<u64> {
    rows.map_values(|r: VideoRow| r.id)
}

pub open spec fn collection_ids(rows: Seq<CollectionRow>) -> Seq<u64> {
    rows.map_values(|r: CollectionRow| r.id)
}

/// The counter that follows the ids, or `None` when one is the largest
/// integer.
fn counter_after(ids: &Vec<u64>) -> (r: Option<u64>)
    ensures
        r matches Some(n) ==> follows(ids@, n),
        r is None <==> exists|i: int| 0 <= i < ids@.len() && ids@[i] == u64::MAX,
{
    let mut next: u64 = 1;
    let mut i: usize = 0;
    while i < ids.len()
        invariant
            i <= ids@.len(),
            forall|k: int| 0 <= k < i ==> #[trigger] ids@[k] < next,
            forall|k: int| 0 <= k < i ==> ids@[k] != u64::MAX,
            i == 0 ==> next == 1,
            i > 0 ==> exists|k: int| 0 <= k < i && ids@[k] + 1 == next,
        decreases ids@.len() - i,
    {
        if ids[i] == u64::MAX {
            return None;
        }
        if ids[i] >= next {
            next = ids[i] + 1;
        }
        i = i + 1;
    }
    Some(next)
}

impl SqlLibrary {
    /// Sets the id counters of videos and collections to follow the stored
    /// ids, as after reading the tables back from elsewhere. Returns false,
    /// changing nothing, when a stored id is the largest integer.
    pub fn restore_counters(&mut self) -> (r: bool)
        ensures
            r ==> follows(video_ids(final(self).video.videos@), final(self).video.next_id)
                && follows(
                collection_ids(final(self).collections.rows@),
                final(self).collections.next_id,
            ),
            !r ==> *final(self) == *old(self),
            final(self).movie == old(self).movie,
            final(self).tv == old(self).tv,
            final(self).persons == old(self).persons,
            final(self).video.videos == old(self).video.videos,
            final(self).video.subtitles == old(self).video.subtitles,
            final(self).video.audios == old(self).video.audios,
            final(self).video.last_times == old(self).video.last_times,
            final(self).collections.rows == old(self).collections.rows,
    {
        let mut vids: Vec<u64> = Vec::new();
        let mut i: usize = 0;
        while i < self.video.videos.len()
            invariant
                i <= self.video.videos@.len(),
                vids@ == video_ids(self.video.videos@).subrange(0, i as int),
            decreases self.video.videos@.len() - i,
        {
            vids.push(self.video.videos[i].id);
            i = i + 1;
            assert(vids@ =~= video_ids(self.video.videos@).subrange(0, i as int));
        }
        assert(vids@ =~= video_ids(self.video.videos@));
        let mut cids: Vec<u64> = Vec::new();
        let mut j: usize = 0;
        while j < self.collections.rows.len()
            invariant
                j <= self.collections.rows@.len(),
                cids@ == collection_ids(self.collections.rows@).subrange(0, j as int),
            decreases self.collections.rows@.len() - j,
        {
            cids.push(self.collections.rows[j].id);
            j = j + 1;
            assert(cids@ =~= collection_ids(self.collections.rows@).subrange(0, j as int));
        }
        assert(cids@ =~= collection_ids(self.collections.rows@));
        match (counter_after(&vids), counter_after(&cids)) {
            (Some(v), Some(c)) => {
                self.video.next_id = v;
                self.collections.next_id = c;
                true
            },
            _ => false,
        }
    }
}

} // verus!
