//! The relational store: its rows, its tables, and the keys that each table
//! holds unique.

use vstd::prelude::*;
use crate::model::{Cast, Genre};

verus! {

/// Cast entries whose rank is at or beyond this value are not linked: of a
/// cast ranked from 0, at most the ranks 0 to 14 are kept.
pub const CAST_CUTOFF: u64 = 15;

/// The tables of the store, as named in error reports.
#[derive(PartialEq, Eq, Structural, Clone, Copy, Debug)]
pub enum Table {
    MovieGenreLinks,
    MovieCasts,
    Seasons,
    TvGenreLinks,
    TvCasts,
    Episodes,
    EpisodeCasts,
    Videos,
    Collections,
}

/// Why a store operation did not happen.
#[derive(PartialEq, Eq, Structural, Clone, Copy, Debug)]
pub enum StoreError {
    /// A row would break a unique key of the table.
    Constraint(Table),
    /// An episode was offered before the season that holds it.
    SeasonNotFound,
    /// A lookup that must find a row found none.
    NoRows,
}

pub struct MovieRow {
    pub id: u64,
    pub title: String,
    pub original_title: String,
    pub original_language: String,
    pub release_date: String,
    pub overview: Option<String>,
    pub popularity: String,
    pub poster_path: Option<String>,
    pub backdrop_path: Option<String>,
    pub vote_average: String,
    pub vote_count: u64,
    pub tagline: Option<String>,
    pub status: String,
    pub adult: bool,
}

pub struct TvRow {
    pub id: u64,
    pub title: String,
    pub original_title: String,
    pub original_language: String,
    pub release_date: String,
    pub overview: Option<String>,
    pub popularity: String,
    pub poster_path: Option<String>,
    pub backdrop_path: Option<String>,
    pub status: String,
    pub vote_average: String,
    pub vote_count: u64,
    pub in_production: bool,
    pub number_of_episodes: u64,
    pub number_of_seasons: u64,
    pub episode_run_time: u64,
}

pub struct SeasonRow {
    pub id: u64,
    pub tv_id: u64,
    pub season_number: u64,
    pub episode_count: u64,
    pub title: String,
    pub overview: Option<String>,
    pub poster_path: Option<String>,
    pub release_date: Option<String>,
}

pub struct EpisodeRow {
    pub id: u64,
    pub season_id: u64,
    pub tv_id: u64,
    pub season_number: u64,
    pub episode_number: u64,
    pub release_date: String,
    pub title: String,
    pub overview: Option<String>,
    pub vote_average: String,
    pub vote_count: u64,
}

pub struct PersonRow {
    pub id: u64,
    pub name: String,
    pub birthday: Option<String>,
    pub deathday: Option<String>,
    pub known_for_department: Option<String>,
    pub gender: u8,
    pub biography: String,
    pub popularity: String,
    pub place_of_birth: Option<String>,
    pub profile_path: Option<String>,
}

/// A row of a genre link table: the movie or tv show, and its genre.
#[derive(PartialEq, Eq, Structural, Clone, Copy, Debug)]
pub struct GenreLink {
    pub parent_id: u64,
    pub genre_id: u64,
}

/// A row of a cast link table: the movie, tv show or episode, the person, the
/// character played and the rank.
pub struct CastLink {
    pub parent_id: u64,
    pub person_id: u64,
    pub character: Option<String>,
    pub ord: u64,
}

/// The movie tables. The genre dictionary is the movies' own: tv shows keep
/// theirs apart.
pub struct MovieTables {
    pub movies: Vec<MovieRow>,
    pub genres: Vec<Genre>,
    pub genre_links: Vec<GenreLink>,
    pub casts: Vec<CastLink>,
}

/// The tv tables: shows, their genre dictionary and links, their cast, their
/// seasons, and the episodes with their cast.
pub struct TvTables {
    pub tvs: Vec<TvRow>,
    pub genres: Vec<Genre>,
    pub genre_links: Vec<GenreLink>,
    pub casts: Vec<CastLink>,
    pub seasons: Vec<SeasonRow>,
    pub episodes: Vec<EpisodeRow>,
    pub episode_casts: Vec<CastLink>,
}

/// A row of the per-video language tables (subtitles, audio tracks).
pub struct LanguageRow {
    pub video_id: u64,
    pub language: String,
}

/// The resume position of one user in one video.
#[derive(PartialEq, Eq, Structural, Clone, Copy, Debug)]
pub struct LastTimeRow {
    pub video_id: u64,
    pub user_id: u64,
    pub last_time: u64,
}

pub struct VideoRow {
    pub id: u64,
    pub path: String,
    pub media_type: u8,
    pub media_id: Option<u64>,
    pub duration: u64,
    pub bit_rate: u64,
    pub codec: Option<String>,
    pub width: u64,
    pub height: u64,
    pub size: u64,
    pub adding: String,
}

/// The video files, their languages and their users' resume positions.
pub struct VideoTables {
    pub videos: Vec<VideoRow>,
    pub subtitles: Vec<LanguageRow>,
    pub audios: Vec<LanguageRow>,
    pub last_times: Vec<LastTimeRow>,
    /// The surrogate id that the next video gets.
    pub next_id: u64,
}

/// A collection that a user made.
pub struct CollectionRow {
    pub id: u64,
    pub name: String,
    pub description: String,
    pub creator: String,
    pub creation_date: String,
    pub poster_path: String,
}

pub struct CollectionTables {
    pub rows: Vec<CollectionRow>,
    /// The id that the next collection gets.
    pub next_id: u64,
}

/// The whole store: one handle, passed explicitly to whoever reads or writes.
pub struct SqlLibrary {
    pub movie: MovieTables,
    pub tv: TvTables,
    pub persons: Vec<PersonRow>,
    pub video: VideoTables,
    pub collections: CollectionTables,
}

/// No two rows of `s` share a key.
pub open spec fn unique_by<T, K>(s: Seq<T>, key: spec_fn(T) -> K) -> bool {
    forall|i: int, j: int|
        #![trigger s[i], s[j]]
        0 <= i < j < s.len() ==> key(s[i]) != key(s[j])
}

pub open spec fn opt_view(o: Option<String>) -> Option<Seq<char>> {
    match o {
        Some(s) => Some(s@),
        None => None,
    }
}

pub open spec fn genre_key(g: Genre) -> u64 {
    g.id
}

pub open spec fn cast_key(l: CastLink) -> (u64, u64, Option<Seq<char>>) {
    (l.parent_id, l.person_id, opt_view(l.character))
}

pub open spec fn has_genre(s: Seq<Genre>, id: u64) -> bool {
    exists|i: int| 0 <= i < s.len() && s[i].id == id
}

pub open spec fn links_genre_parent(s: Seq<GenreLink>, parent: u64) -> bool {
    exists|i: int| 0 <= i < s.len() && s[i].parent_id == parent
}

pub open spec fn links_cast_parent(s: Seq<CastLink>, parent: u64) -> bool {
    exists|i: int| 0 <= i < s.len() && s[i].parent_id == parent
}

/// Whether a cast entry is within the rank cutoff.
pub open spec fn kept(c: Cast) -> bool {
    c.order < CAST_CUTOFF
}

pub open spec fn cast_link(parent: u64, c: Cast) -> CastLink {
    CastLink { parent_id: parent, person_id: c.id, character: c.character, ord: c.order }
}

/// The cast link rows of a parent: one for each entry within the cutoff, in
/// the document's order.
pub open spec fn cast_links_of(parent: u64, cast: Seq<Cast>) -> Seq<CastLink>
    decreases cast.len(),
{
    if cast.len() == 0 {
        Seq::<CastLink>::empty()
    } else {
        let prev = cast_links_of(parent, cast.drop_last());
        if kept(cast.last()) {
            prev.push(cast_link(parent, cast.last()))
        } else {
            prev
        }
    }
}

/// The genre link rows of a parent, one for each genre of the document.
pub open spec fn genre_links_of(parent: u64, genres: Seq<Genre>) -> Seq<GenreLink> {
    genres.map_values(|g: Genre| GenreLink { parent_id: parent, genre_id: g.id })
}

/// The genre dictionary after insert-or-ignore of each genre in turn.
pub open spec fn dict_after(dict: Seq<Genre>, genres: Seq<Genre>) -> Seq<Genre>
    decreases genres.len(),
{
    if genres.len() == 0 {
        dict
    } else {
        let d = dict_after(dict, genres.drop_last());
        if has_genre(d, genres.last().id) {
            d
        } else {
            d.push(genres.last())
        }
    }
}

/// Whether `k` is the person of some kept cast entry.
pub open spec fn cast_person(cast: Seq<Cast>, k: u64) -> bool {
    exists|i: int| 0 <= i < cast.len() && kept(cast[i]) && cast[i].id == k
}

/// `ids` lists each person of the kept cast entries exactly once.
pub open spec fn distinct_cast_persons(ids: Seq<u64>, cast: Seq<Cast>) -> bool {
    &&& ids.no_duplicates()
    &&& forall|k: u64| ids.contains(k) <==> cast_person(cast, k)
}

/// A non-empty image path, as a list of zero or one paths.
pub open spec fn image_of(p: Option<String>) -> Seq<Seq<char>> {
    match p {
        Some(s) => if s@.len() > 0 {
            seq![s@]
        } else {
            Seq::<Seq<char>>::empty()
        },
        None => Seq::<Seq<char>>::empty(),
    }
}

impl MovieTables {
    pub open spec fn wf(&self) -> bool {
        &&& unique_by(self.movies@, |r: MovieRow| r.id)
        &&& unique_by(self.genres@, |g: Genre| genre_key(g))
        &&& unique_by(self.genre_links@, |l: GenreLink| l)
        &&& unique_by(self.casts@, |l: CastLink| cast_key(l))
    }
}

impl TvTables {
    pub open spec fn wf(&self) -> bool {
        &&& unique_by(self.tvs@, |r: TvRow| r.id)
        &&& unique_by(self.genres@, |g: Genre| genre_key(g))
        &&& unique_by(self.genre_links@, |l: GenreLink| l)
        &&& unique_by(self.casts@, |l: CastLink| cast_key(l))
        &&& unique_by(self.seasons@, |r: SeasonRow| r.id)
        &&& unique_by(self.seasons@, |r: SeasonRow| (r.tv_id, r.season_number))
        &&& unique_by(self.episodes@, |r: EpisodeRow| r.id)
        &&& unique_by(
            self.episodes@,
            |r: EpisodeRow| (r.tv_id, r.season_number, r.episode_number),
        )
        &&& unique_by(self.episode_casts@, |l: CastLink| cast_key(l))
    }
}

impl VideoTables {
    pub open spec fn wf(&self) -> bool {
        &&& unique_by(self.videos@, |r: VideoRow| r.id)
        &&& unique_by(self.videos@, |r: VideoRow| r.path@)
        &&& forall|i: int| 0 <= i < self.videos@.len() ==> #[trigger] self.videos@[i].id < self.next_id
        &&& forall|i: int|
            0 <= i < self.subtitles@.len() ==> #[trigger] self.subtitles@[i].video_id < self.next_id
        &&& forall|i: int|
            0 <= i < self.audios@.len() ==> #[trigger] self.audios@[i].video_id < self.next_id
        &&& unique_by(self.subtitles@, |r: LanguageRow| (r.video_id, r.language@))
        &&& unique_by(self.audios@, |r: LanguageRow| (r.video_id, r.language@))
        &&& unique_by(self.last_times@, |r: LastTimeRow| (r.video_id, r.user_id))
    }
}

impl CollectionTables {
    pub open spec fn wf(&self) -> bool {
        &&& unique_by(self.rows@, |r: CollectionRow| r.id)
        &&& forall|i: int| 0 <= i < self.rows@.len() ==> #[trigger] self.rows@[i].id < self.next_id
    }
}

impl SqlLibrary {
    /// Every unique key of every table holds.
    pub open spec fn wf(&self) -> bool {
        &&& self.movie.wf()
        &&& self.tv.wf()
        &&& unique_by(self.persons@, |r: PersonRow| r.id)
        &&& self.video.wf()
        &&& self.collections.wf()
    }

    /// An empty store.
    pub fn new() -> (r: SqlLibrary)
        ensures
            r.wf(),
            r.movie.movies@.len() == 0,
            r.movie.genres@.len() == 0,
            r.movie.genre_links@.len() == 0,
            r.movie.casts@.len() == 0,
            r.tv.tvs@.len() == 0,
            r.tv.genres@.len() == 0,
            r.tv.genre_links@.len() == 0,
            r.tv.casts@.len() == 0,
            r.tv.seasons@.len() == 0,
            r.tv.episodes@.len() == 0,
            r.tv.episode_casts@.len() == 0,
            r.persons@.len() == 0,
            r.video.videos@.len() == 0,
            r.video.subtitles@.len() == 0,
            r.video.audios@.len() == 0,
            r.video.last_times@.len() == 0,
            r.video.next_id == 1,
            r.collections.rows@.len() == 0,
            r.collections.next_id == 1,
    {
        SqlLibrary {
            movie: MovieTables {
                movies: Vec::new(),
                genres: Vec::new(),
                genre_links: Vec::new(),
                casts: Vec::new(),
            },
            tv: TvTables {
                tvs: Vec::new(),
                genres: Vec::new(),
                genre_links: Vec::new(),
                casts: Vec::new(),
                seasons: Vec::new(),
                episodes: Vec::new(),
                episode_casts: Vec::new(),
            },
            persons: Vec::new(),
            video: VideoTables {
                videos: Vec::new(),
                subtitles: Vec::new(),
                audios: Vec::new(),
                last_times: Vec::new(),
                next_id: 1,
            },
            collections: CollectionTables { rows: Vec::new(), next_id: 1 },
        }
    }
}

/// Appending rows keeps a key unique when both parts are unique and no key
/// occurs in both.
pub proof fn lemma_unique_append<T, K>(a: Seq<T>, b: Seq<T>, key: spec_fn(T) -> K)
    requires
        unique_by(a, key),
        unique_by(b, key),
        forall|i: int, j: int|
            #![trigger a[i], b[j]]
            0 <= i < a.len() && 0 <= j < b.len() ==> key(a[i]) != key(b[j]),
    ensures
        unique_by(a + b, key),
{
    let s = a + b;
    assert forall|i: int, j: int| 0 <= i < j < s.len() implies key(s[i]) != key(s[j]) by {
        if j < a.len() {
            assert(s[i] == a[i] && s[j] == a[j]);
        } else if i < a.len() {
            assert(s[i] == a[i] && s[j] == b[j - a.len()]);
        } else {
            assert(s[i] == b[i - a.len()] && s[j] == b[j - a.len()]);
        }
    }
}

/// Copies a text value.
pub fn copy_text(s: &Option<String>) -> (r: Option<String>)
    ensures
        r == *s,
{
    match s {
        Some(t) => Some(t.clone()),
        None => None,
    }
}

/// Whether two optional texts are equal.
pub fn same_text(a: &Option<String>, b: &Option<String>) -> (r: bool)
    ensures
        r == (opt_view(*a) == opt_view(*b)),
{
    match (a, b) {
        (Some(x), Some(y)) => *x == *y,
        (None, None) => true,
        _ => false,
    }
}

/// Whether the genre dictionary holds a genre with this id.
pub fn genre_present(dict: &Vec<Genre>, id: u64) -> (r: bool)
    ensures
        r == has_genre(dict@, id),
{
    let mut i: usize = 0;
    while i < dict.len()
        invariant
            i <= dict@.len(),
            forall|k: int| 0 <= k < i ==> dict@[k].id != id,
        decreases dict@.len() - i,
    {
        if dict[i].id == id {
            return true;
        }
        i = i + 1;
    }
    false
}

/// Whether no two genres of a document share an id.
pub fn genres_distinct(genres: &Vec<Genre>) -> (r: bool)
    ensures
        r == unique_by(genres@, |g: Genre| genre_key(g)),
{
    let mut j: usize = 0;
    while j < genres.len()
        invariant
            j <= genres@.len(),
            forall|a: int, b: int|
                #![trigger genres@[a], genres@[b]]
                0 <= a < b < j ==> genres@[a].id != genres@[b].id,
        decreases genres@.len() - j,
    {
        let mut i: usize = 0;
        while i < j
            invariant
                i <= j < genres@.len(),
                forall|a: int| 0 <= a < i ==> genres@[a].id != genres@[j as int].id,
            decreases j - i,
        {
            if genres[i].id == genres[j].id {
                return false;
            }
            i = i + 1;
        }
        j = j + 1;
    }
    true
}

/// Whether no two cast links share their key.
pub fn cast_links_distinct(links: &Vec<CastLink>) -> (r: bool)
    ensures
        r == unique_by(links@, |l: CastLink| cast_key(l)),
{
    let mut j: usize = 0;
    while j < links.len()
        invariant
            j <= links@.len(),
            forall|a: int, b: int|
                #![trigger links@[a], links@[b]]
                0 <= a < b < j ==> cast_key(links@[a]) != cast_key(links@[b]),
        decreases links@.len() - j,
    {
        let mut i: usize = 0;
        while i < j
            invariant
                i <= j < links@.len(),
                forall|a: int| 0 <= a < i ==> cast_key(links@[a]) != cast_key(links@[j as int]),
            decreases j - i,
        {
            if links[i].parent_id == links[j].parent_id && links[i].person_id == links[j].person_id
                && same_text(&links[i].character, &links[j].character) {
                return false;
            }
            i = i + 1;
        }
        j = j + 1;
    }
    true
}

/// Whether some genre link belongs to this parent.
pub fn genre_links_for(links: &Vec<GenreLink>, parent: u64) -> (r: bool)
    ensures
        r == links_genre_parent(links@, parent),
{
    let mut i: usize = 0;
    while i < links.len()
        invariant
            i <= links@.len(),
            forall|k: int| 0 <= k < i ==> links@[k].parent_id != parent,
        decreases links@.len() - i,
    {
        if links[i].parent_id == parent {
            return true;
        }
        i = i + 1;
    }
    false
}

/// Whether some cast link belongs to this parent.
pub fn cast_links_for(links: &Vec<CastLink>, parent: u64) -> (r: bool)
    ensures
        r == links_cast_parent(links@, parent),
{
    let mut i: usize = 0;
    while i < links.len()
        invariant
            i <= links@.len(),
            forall|k: int| 0 <= k < i ==> links@[k].parent_id != parent,
        decreases links@.len() - i,
    {
        if links[i].parent_id == parent {
            return true;
        }
        i = i + 1;
    }
    false
}

/// The cast link rows of a parent, for the entries within the cutoff.
pub fn build_cast_links(parent: u64, cast: &Vec<Cast>) -> (r: Vec<CastLink>)
    ensures
        r@ == cast_links_of(parent, cast@),
{
    let mut links: Vec<CastLink> = Vec::new();
    let mut i: usize = 0;
    assert(cast@.subrange(0, 0) =~= Seq::<Cast>::empty());
    while i < cast.len()
        invariant
            i <= cast@.len(),
            links@ == cast_links_of(parent, cast@.subrange(0, i as int)),
        decreases cast@.len() - i,
    {
        let c = &cast[i];
        assert(cast@.subrange(0, i + 1).drop_last() =~= cast@.subrange(0, i as int));
        assert(cast@.subrange(0, i + 1).last() == cast@[i as int]);
        if c.order < CAST_CUTOFF {
            links.push(
                CastLink {
                    parent_id: parent,
                    person_id: c.id,
                    character: copy_text(&c.character),
                    ord: c.order,
                },
            );
        }
        i = i + 1;
    }
    assert(cast@.subrange(0, cast@.len() as int) =~= cast@);
    links
}

/// The genre link rows of a parent.
pub fn build_genre_links(parent: u64, genres: &Vec<Genre>) -> (r: Vec<GenreLink>)
    ensures
        r@ == genre_links_of(parent, genres@),
{
    let mut links: Vec<GenreLink> = Vec::new();
    let mut i: usize = 0;
    while i < genres.len()
        invariant
            i <= genres@.len(),
            links@ =~= genre_links_of(parent, genres@.subrange(0, i as int)),
        decreases genres@.len() - i,
    {
        links.push(GenreLink { parent_id: parent, genre_id: genres[i].id });
        i = i + 1;
        assert(links@ =~= genre_links_of(parent, genres@.subrange(0, i as int)));
    }
    assert(genres@.subrange(0, genres@.len() as int) =~= genres@);
    links
}

/// The distinct persons of a list of cast links, in order of first
/// appearance.
pub fn link_persons(links: &Vec<CastLink>) -> (r: Vec<u64>)
    ensures
        r@.no_duplicates(),
        forall|k: u64|
            r@.contains(k) <==> exists|i: int| 0 <= i < links@.len() && links@[i].person_id == k,
{
    let mut ids: Vec<u64> = Vec::new();
    let mut i: usize = 0;
    while i < links.len()
        invariant
            i <= links@.len(),
            ids@.no_duplicates(),
            forall|k: u64|
                ids@.contains(k) <==> exists|j: int| 0 <= j < i && links@[j].person_id == k,
        decreases links@.len() - i,
    {
        let id = links[i].person_id;
        let mut present = false;
        let mut k: usize = 0;
        while k < ids.len()
            invariant
                k <= ids@.len(),
                present == exists|m: int| 0 <= m < k && ids@[m] == id,
            decreases ids@.len() - k,
        {
            if ids[k] == id {
                present = true;
            }
            k = k + 1;
        }
        let ghost before = ids@;
        if !present {
            ids.push(id);
        }
        assert forall|q: u64|
            ids@.contains(q) <==> exists|j: int| 0 <= j < i + 1 && links@[j].person_id == q by {
            if ids@.contains(q) {
                let m = choose|m: int| 0 <= m < ids@.len() && ids@[m] == q;
                if m < before.len() {
                    assert(before[m] == q);
                    assert(before.contains(q));
                } else {
                    assert(links@[i as int].person_id == q);
                }
            }
            if exists|j: int| 0 <= j < i + 1 && links@[j].person_id == q {
                let j = choose|j: int| 0 <= j < i + 1 && links@[j].person_id == q;
                if j == i {
                    if present {
                        let m = choose|m: int| 0 <= m < k && before[m] == id;
                        assert(ids@[m] == q);
                    } else {
                        assert(ids@[ids@.len() - 1] == q);
                    }
                } else {
                    assert(before.contains(q));
                    let m = choose|m: int| 0 <= m < before.len() && before[m] == q;
                    assert(ids@[m] == q);
                }
            }
        }
        i = i + 1;
    }
    ids
}

} // verus!
