//! Listing videos through a typed filter: one predicate per column, from a
//! closed set of operators, all of them required to hold.

use vstd::prelude::*;
use crate::like::{like, matches_like};
use crate::store::{SqlLibrary, VideoRow};
use crate::video::{MEDIA_EPISODE, MEDIA_MOVIE};

verus! {

/// The filterable columns of the video listing.
#[derive(PartialEq, Eq, Structural, Clone, Copy, Debug)]
pub enum Column {
    Id,
    Path,
    MediaType,
    MediaId,
}

/// The comparison operators a filter may use.
#[derive(PartialEq, Eq, Structural, Clone, Copy, Debug)]
pub enum Operator {
    Eq,
    Ne,
    Lt,
    Gt,
    Le,
    Ge,
    /// A `LIKE` pattern; it applies to text only.
    Like,
}

/// What a column is held to. Text compares by code points, left to right;
/// a comparison of an absent value holds never.
pub enum Predicate {
    IsNull,
    Int(Operator, u64),
    Text(Operator, String),
}

pub struct Filter {
    pub column: Column,
    pub predicate: Predicate,
}

pub struct MovieMinimal {
    pub id: u64,
    pub title: String,
    pub release_date: String,
}

pub struct EpisodeMinimal {
    pub id: u64,
    pub title: String,
    pub season_number: u64,
    pub episode_number: u64,
}

/// What a video shows, as far as the store knows it.
pub enum MediaInfo {
    Tv(EpisodeMinimal),
    Movie(MovieMinimal),
    Unknown,
}

/// One line of a video listing.
pub struct VideoResult {
    pub id: u64,
    pub path: String,
    pub media_type: u8,
    pub media_id: Option<u64>,
    pub adding: String,
    pub info: MediaInfo,
}

/// A video listing under construction: at most one filter per column.
pub struct VideoSearch {
    pub parameters: Vec<Filter>,
}

pub open spec fn cmp_int(op: Operator, a: u64, b: u64) -> bool {
    match op {
        Operator::Eq => a == b,
        Operator::Ne => a != b,
        Operator::Lt => a < b,
        Operator::Gt => a > b,
        Operator::Le => a <= b,
        Operator::Ge => a >= b,
        Operator::Like => false,
    }
}

pub open spec fn int_column(row: VideoRow, c: Column) -> Option<u64> {
    match c {
        Column::Id => Some(row.id),
        Column::MediaType => Some(row.media_type as u64),
        Column::MediaId => row.media_id,
        Column::Path => None,
    }
}

/// Whether a row satisfies one filter.
pub open spec fn row_matches(row: VideoRow, f: Filter) -> bool {
    match f.predicate {
        Predicate::IsNull => f.column == Column::MediaId && row.media_id is None,
        Predicate::Int(op, v) => match int_column(row, f.column) {
            Some(x) => cmp_int(op, x, v),
            None => false,
        },
        Predicate::Text(op, t) => f.column == Column::Path && cmp_text(op, row.path@, t@),
    }
}

/// `a` sorts before `b`: at the first position where they differ `a` has the
/// smaller code point, or `a` is a proper prefix of `b`.
pub open spec fn text_less(a: Seq<char>, b: Seq<char>) -> bool
    decreases a.len(),
{
    if a.len() == 0 {
        b.len() > 0
    } else if b.len() == 0 {
        false
    } else if a[0] == b[0] {
        text_less(a.drop_first(), b.drop_first())
    } else {
        (a[0] as u32) < (b[0] as u32)
    }
}

pub open spec fn cmp_text(op: Operator, a: Seq<char>, b: Seq<char>) -> bool {
    match op {
        Operator::Eq => a == b,
        Operator::Ne => a != b,
        Operator::Lt => text_less(a, b),
        Operator::Gt => text_less(b, a),
        Operator::Le => !text_less(b, a),
        Operator::Ge => !text_less(a, b),
        Operator::Like => like(b, a),
    }
}

/// Whether `a` sorts before `b`.
pub fn less_text(a: &String, b: &String) -> (r: bool)
    ensures
        r == text_less(a@, b@),
{
    let n = a.as_str().unicode_len();
    let m = b.as_str().unicode_len();
    let mut i: usize = 0;
    assert(a@.subrange(0, n as int) =~= a@);
    assert(b@.subrange(0, m as int) =~= b@);
    while i < n && i < m
        invariant
            n == a@.len(),
            m == b@.len(),
            i <= n,
            i <= m,
            text_less(a@, b@) == text_less(a@.subrange(i as int, n as int), b@.subrange(i as int, m as int)),
        decreases n - i,
    {
        let x = a.as_str().get_char(i);
        let y = b.as_str().get_char(i);
        let ghost sa = a@.subrange(i as int, n as int);
        let ghost sb = b@.subrange(i as int, m as int);
        assert(sa[0] == x && sb[0] == y);
        if x != y {
            return (x as u32) < (y as u32);
        }
        assert(sa.drop_first() =~= a@.subrange(i + 1, n as int));
        assert(sb.drop_first() =~= b@.subrange(i + 1, m as int));
        i = i + 1;
    }
    i < m
}

/// Whether a row satisfies every filter.
pub open spec fn row_selected(row: VideoRow, filters: Seq<Filter>) -> bool {
    forall|i: int| 0 <= i < filters.len() ==> row_matches(row, #[trigger] filters[i])
}

/// The rows that satisfy every filter, in table order.
pub open spec fn select(rows: Seq<VideoRow>, filters: Seq<Filter>) -> Seq<VideoRow>
    decreases rows.len(),
{
    if rows.len() == 0 {
        Seq::<VideoRow>::empty()
    } else {
        let p = select(rows.drop_last(), filters);
        if row_selected(rows.last(), filters) {
            p.push(rows.last())
        } else {
            p
        }
    }
}

/// The filters that are not on column `c`, in order.
pub open spec fn without_column(s: Seq<Filter>, c: Column) -> Seq<Filter>
    decreases s.len(),
{
    if s.len() == 0 {
        Seq::<Filter>::empty()
    } else {
        let p = without_column(s.drop_last(), c);
        if s.last().column == c {
            p
        } else {
            p.push(s.last())
        }
    }
}

pub open spec fn columns_distinct(s: Seq<Filter>) -> bool {
    forall|i: int, j: int|
        #![trigger s[i], s[j]]
        0 <= i < j < s.len() ==> s[i].column != s[j].column
}

/// Compares two integers.
pub fn compare_int(op: Operator, a: u64, b: u64) -> (r: bool)
    ensures
        r == cmp_int(op, a, b),
{
    match op {
        Operator::Eq => a == b,
        Operator::Ne => a != b,
        Operator::Lt => a < b,
        Operator::Gt => a > b,
        Operator::Le => a <= b,
        Operator::Ge => a >= b,
        Operator::Like => false,
    }
}

/// Compares two texts; for `Like`, `b` is the pattern.
pub fn compare_text(op: Operator, a: &String, b: &String) -> (r: bool)
    ensures
        r == cmp_text(op, a@, b@),
{
    match op {
        Operator::Eq => *a == *b,
        Operator::Ne => !(*a == *b),
        Operator::Lt => less_text(a, b),
        Operator::Gt => less_text(b, a),
        Operator::Le => !less_text(b, a),
        Operator::Ge => !less_text(a, b),
        Operator::Like => matches_like(b, a),
    }
}

/// Whether a row satisfies one filter.
pub fn matches_filter(row: &VideoRow, f: &Filter) -> (r: bool)
    ensures
        r == row_matches(*row, *f),
{
    match &f.predicate {
        Predicate::IsNull => f.column == Column::MediaId && row.media_id.is_none(),
        Predicate::Int(op, v) => {
            let x = match f.column {
                Column::Id => Some(row.id),
                Column::MediaType => Some(row.media_type as u64),
                Column::MediaId => row.media_id,
                Column::Path => None,
            };
            match x {
                Some(x) => compare_int(*op, x, *v),
                None => false,
            }
        },
        Predicate::Text(op, t) => {
            if f.column != Column::Path {
                false
            } else {
                compare_text(*op, &row.path, t)
            }
        },
    }
}

/// Whether a row satisfies every filter.
pub fn selected(row: &VideoRow, filters: &Vec<Filter>) -> (r: bool)
    ensures
        r == row_selected(*row, filters@),
{
    let mut i: usize = 0;
    while i < filters.len()
        invariant
            i <= filters@.len(),
            forall|k: int| 0 <= k < i ==> row_matches(*row, #[trigger] filters@[k]),
        decreases filters@.len() - i,
    {
        if !matches_filter(row, &filters[i]) {
            return false;
        }
        i = i + 1;
    }
    true
}

fn copy_predicate(p: &Predicate) -> (r: Predicate)
    ensures
        r == *p,
{
    match p {
        Predicate::IsNull => Predicate::IsNull,
        Predicate::Int(op, v) => Predicate::Int(*op, *v),
        Predicate::Text(op, t) => Predicate::Text(*op, t.clone()),
    }
}

impl VideoSearch {
    /// A listing of every video.
    pub fn new() -> (r: VideoSearch)
        ensures
            r.parameters@.len() == 0,
    {
        VideoSearch { parameters: Vec::new() }
    }

    /// Sets the filter of one column, replacing the one it had.
    pub fn find(&mut self, column: Column, predicate: Predicate) -> (r: VideoSearch)
        requires
            columns_distinct(old(self).parameters@),
        ensures
            final(self).parameters@ == without_column(old(self).parameters@, column).push(
                Filter { column, predicate },
            ),
            columns_distinct(final(self).parameters@),
            r.parameters@ == final(self).parameters@,
    {
        let ghost start = self.parameters@;
        let mut kept: Vec<Filter> = Vec::new();
        let mut i: usize = 0;
        assert(start.subrange(0, 0) =~= Seq::<Filter>::empty());
        while i < self.parameters.len()
            invariant
                self.parameters@ == start,
                i <= start.len(),
                kept@ == without_column(start.subrange(0, i as int), column),
                forall|k: int| 0 <= k < kept@.len() ==> (#[trigger] kept@[k]).column != column,
                forall|k: int|
                    0 <= k < kept@.len() ==> exists|m: int|
                        0 <= m < i && start[m] == #[trigger] kept@[k],
                columns_distinct(kept@),
                columns_distinct(start),
            decreases start.len() - i,
        {
            assert(start.subrange(0, i + 1).drop_last() =~= start.subrange(0, i as int));
            assert(start.subrange(0, i + 1).last() == start[i as int]);
            let f = &self.parameters[i];
            if f.column != column {
                let ghost before = kept@;
                kept.push(Filter { column: f.column, predicate: copy_predicate(&f.predicate) });
                proof {
                    assert forall|a: int, b: int|
                        #![trigger kept@[a], kept@[b]]
                        0 <= a < b < kept@.len() implies kept@[a].column != kept@[b].column by {
                        if b == kept@.len() - 1 {
                            assert(kept@[a] == before[a]);
                            let m = choose|m: int| 0 <= m < i && start[m] == #[trigger] before[a];
                            assert(start[m].column != start[i as int].column);
                        } else {
                            assert(kept@[a] == before[a] && kept@[b] == before[b]);
                        }
                    }
                    assert forall|k: int| 0 <= k < kept@.len() implies exists|m: int|
                        0 <= m < i + 1 && start[m] == #[trigger] kept@[k] by {
                        if k == kept@.len() - 1 {
                            assert(start[i as int] == kept@[k]);
                        } else {
                            assert(kept@[k] == before[k]);
                            let m = choose|m: int| 0 <= m < i && start[m] == #[trigger] before[k];
                        }
                    }
                }
            }
            i = i + 1;
        }
        assert(start.subrange(0, start.len() as int) =~= start);
        let ghost before = kept@;
        let pushed = Filter { column, predicate: copy_predicate(&predicate) };
        kept.push(pushed);
        assert forall|a: int, b: int|
            #![trigger kept@[a], kept@[b]]
            0 <= a < b < kept@.len() implies kept@[a].column != kept@[b].column by {
            if b == kept@.len() - 1 {
                assert(kept@[a] == before[a]);
            } else {
                assert(kept@[a] == before[a] && kept@[b] == before[b]);
            }
        }
        self.parameters = kept;
        let mut copy: Vec<Filter> = Vec::new();
        let mut j: usize = 0;
        while j < self.parameters.len()
            invariant
                j <= self.parameters@.len(),
                copy@ == self.parameters@.subrange(0, j as int),
            decreases self.parameters@.len() - j,
        {
            copy.push(
                Filter {
                    column: self.parameters[j].column,
                    predicate: copy_predicate(&self.parameters[j].predicate),
                },
            );
            j = j + 1;
            assert(copy@ =~= self.parameters@.subrange(0, j as int));
        }
        assert(copy@ =~= self.parameters@);
        VideoSearch { parameters: copy }
    }
}

impl VideoSearch {
    /// Keeps the video with this path.
    pub fn path(&mut self, path: String) -> (r: VideoSearch)
        requires
            columns_distinct(old(self).parameters@),
        ensures
            final(self).parameters@ == without_column(old(self).parameters@, Column::Path).push(
                Filter { column: Column::Path, predicate: Predicate::Text(Operator::Eq, path) },
            ),
            columns_distinct(final(self).parameters@),
            r.parameters@ == final(self).parameters@,
    {
        self.find(Column::Path, Predicate::Text(Operator::Eq, path))
    }

    /// Keeps the videos of movies.
    pub fn movie(&mut self) -> (r: VideoSearch)
        requires
            columns_distinct(old(self).parameters@),
        ensures
            final(self).parameters@ == without_column(old(self).parameters@, Column::MediaType).push(
                Filter {
                    column: Column::MediaType,
                    predicate: Predicate::Int(Operator::Eq, MEDIA_MOVIE as u64),
                },
            ),
            columns_distinct(final(self).parameters@),
            r.parameters@ == final(self).parameters@,
    {
        self.find(Column::MediaType, Predicate::Int(Operator::Eq, MEDIA_MOVIE as u64))
    }

    /// Keeps the videos of tv episodes.
    pub fn tv(&mut self) -> (r: VideoSearch)
        requires
            columns_distinct(old(self).parameters@),
        ensures
            final(self).parameters@ == without_column(old(self).parameters@, Column::MediaType).push(
                Filter {
                    column: Column::MediaType,
                    predicate: Predicate::Int(Operator::Eq, MEDIA_EPISODE as u64),
                },
            ),
            columns_distinct(final(self).parameters@),
            r.parameters@ == final(self).parameters@,
    {
        self.find(Column::MediaType, Predicate::Int(Operator::Eq, MEDIA_EPISODE as u64))
    }

    /// Keeps the videos not yet assigned to a media.
    pub fn unknown(&mut self) -> (r: VideoSearch)
        requires
            columns_distinct(old(self).parameters@),
        ensures
            final(self).parameters@ == without_column(old(self).parameters@, Column::MediaId).push(
                Filter { column: Column::MediaId, predicate: Predicate::IsNull },
            ),
            columns_distinct(final(self).parameters@),
            r.parameters@ == final(self).parameters@,
    {
        self.find(Column::MediaId, Predicate::IsNull)
    }

    /// Keeps the videos assigned to this media.
    pub fn media_id(&mut self, id: u64) -> (r: VideoSearch)
        requires
            columns_distinct(old(self).parameters@),
        ensures
            final(self).parameters@ == without_column(old(self).parameters@, Column::MediaId).push(
                Filter { column: Column::MediaId, predicate: Predicate::Int(Operator::Eq, id) },
            ),
            columns_distinct(final(self).parameters@),
            r.parameters@ == final(self).parameters@,
    {
        self.find(Column::MediaId, Predicate::Int(Operator::Eq, id))
    }

    /// Keeps the video with this id.
    pub fn id(&mut self, id: u64) -> (r: VideoSearch)
        requires
            columns_distinct(old(self).parameters@),
        ensures
            final(self).parameters@ == without_column(old(self).parameters@, Column::Id).push(
                Filter { column: Column::Id, predicate: Predicate::Int(Operator::Eq, id) },
            ),
            columns_distinct(final(self).parameters@),
            r.parameters@ == final(self).parameters@,
    {
        self.find(Column::Id, Predicate::Int(Operator::Eq, id))
    }

    /// The listing over a store.
    pub fn results(&self, library: &SqlLibrary) -> (r: Vec<VideoResult>)
        ensures
            r@.len() == select(library.video.videos@, self.parameters@).len(),
            forall|i: int|
                0 <= i < r@.len() ==> result_of(
                    #[trigger] r@[i],
                    select(library.video.videos@, self.parameters@)[i],
                ) && library.info_ok(
                    r@[i].info,
                    select(library.video.videos@, self.parameters@)[i].media_type,
                    select(library.video.videos@, self.parameters@)[i].media_id,
                ),
    {
        library.get_videos(self)
    }

    /// Whether the listing over a store is non-empty.
    pub fn exist(&self, library: &SqlLibrary) -> (r: bool)
        ensures
            r == (select(library.video.videos@, self.parameters@).len() > 0),
    {
        self.results(library).len() > 0
    }
}

/// A listing line shows a row.
pub open spec fn result_of(v: VideoResult, row: VideoRow) -> bool {
    &&& v.id == row.id
    &&& v.path == row.path
    &&& v.media_type == row.media_type
    &&& v.media_id == row.media_id
    &&& v.adding == row.adding
}

impl SqlLibrary {
    /// `info` describes the media of this type and id, as the store knows it.
    pub open spec fn info_ok(&self, info: MediaInfo, media_type: u8, media_id: Option<u64>) -> bool {
        match info {
            MediaInfo::Movie(m) => media_type == MEDIA_MOVIE && media_id == Some(m.id) && exists|
                i: int,
            |
                0 <= i < self.movie.movies@.len() && self.movie.movies@[i].id == m.id
                    && self.movie.movies@[i].title == m.title
                    && self.movie.movies@[i].release_date == m.release_date,
            MediaInfo::Tv(e) => media_type == MEDIA_EPISODE && media_id == Some(e.id) && exists|
                i: int,
                j: int,
            |
                0 <= i < self.tv.episodes@.len() && 0 <= j < self.tv.tvs@.len()
                    && self.tv.episodes@[i].id == e.id && self.tv.tvs@[j].id
                    == self.tv.episodes@[i].tv_id && self.tv.tvs@[j].title == e.title
                    && self.tv.episodes@[i].season_number == e.season_number
                    && self.tv.episodes@[i].episode_number == e.episode_number,
            MediaInfo::Unknown => match media_id {
                None => true,
                Some(id) => (media_type == MEDIA_MOVIE ==> !self.has_movie(id)) && (media_type
                    == MEDIA_EPISODE ==> forall|i: int, j: int|
                    0 <= i < self.tv.episodes@.len() && 0 <= j < self.tv.tvs@.len()
                        && self.tv.episodes@[i].id == id ==> self.tv.tvs@[j].id
                        != self.tv.episodes@[i].tv_id),
            },
        }
    }

    /// What a video of this media type and media id shows.
    pub fn media_info(&self, media_type: u8, media_id: Option<u64>) -> (r: MediaInfo)
        ensures
            self.info_ok(r, media_type, media_id),
    {
        let id = match media_id {
            None => {
                return MediaInfo::Unknown;
            },
            Some(id) => id,
        };
        if media_type == MEDIA_MOVIE {
            let mut i: usize = 0;
            while i < self.movie.movies.len()
                invariant
                    media_id == Some(id),
                    media_type == MEDIA_MOVIE,
                    i <= self.movie.movies@.len(),
                    forall|k: int| 0 <= k < i ==> self.movie.movies@[k].id != id,
                decreases self.movie.movies@.len() - i,
            {
                let m = &self.movie.movies[i];
                if m.id == id {
                    let info = MovieMinimal {
                        id: id,
                        title: m.title.clone(),
                        release_date: m.release_date.clone(),
                    };
                    assert(self.movie.movies@[i as int].id == info.id
                        && self.movie.movies@[i as int].title == info.title
                        && self.movie.movies@[i as int].release_date == info.release_date);
                    return MediaInfo::Movie(info);
                }
                i = i + 1;
            }
            MediaInfo::Unknown
        } else if media_type == MEDIA_EPISODE {
            let mut i: usize = 0;
            while i < self.tv.episodes.len()
                invariant
                    media_id == Some(id),
                    media_type == MEDIA_EPISODE,
                    i <= self.tv.episodes@.len(),
                    forall|k: int, j: int|
                        0 <= k < i && 0 <= j < self.tv.tvs@.len() && self.tv.episodes@[k].id == id
                            ==> self.tv.tvs@[j].id != self.tv.episodes@[k].tv_id,
                decreases self.tv.episodes@.len() - i,
            {
                let e = &self.tv.episodes[i];
                if e.id == id {
                    let mut j: usize = 0;
                    while j < self.tv.tvs.len()
                        invariant
                            media_id == Some(id),
                            media_type == MEDIA_EPISODE,
                            i < self.tv.episodes@.len(),
                            self.tv.episodes@[i as int].id == id,
                            j <= self.tv.tvs@.len(),
                            forall|q: int|
                                0 <= q < j ==> self.tv.tvs@[q].id != self.tv.episodes@[i as int].tv_id,
                        decreases self.tv.tvs@.len() - j,
                    {
                        if self.tv.tvs[j].id == self.tv.episodes[i].tv_id {
                            let info = EpisodeMinimal {
                                id: id,
                                title: self.tv.tvs[j].title.clone(),
                                season_number: self.tv.episodes[i].season_number,
                                episode_number: self.tv.episodes[i].episode_number,
                            };
                            assert(self.tv.episodes@[i as int].id == info.id && self.tv.tvs@[j as int].id
                                == self.tv.episodes@[i as int].tv_id && self.tv.tvs@[j as int].title
                                == info.title && self.tv.episodes@[i as int].season_number
                                == info.season_number && self.tv.episodes@[i as int].episode_number
                                == info.episode_number);
                            return MediaInfo::Tv(info);
                        }
                        j = j + 1;
                    }
                }
                i = i + 1;
            }
            MediaInfo::Unknown
        } else {
            MediaInfo::Unknown
        }
    }

    /// The videos that satisfy every filter of a listing, in table order.
    pub fn get_videos(&self, search: &VideoSearch) -> (r: Vec<VideoResult>)
        ensures
            r@.len() == select(self.video.videos@, search.parameters@).len(),
            forall|i: int|
                0 <= i < r@.len() ==> result_of(
                    #[trigger] r@[i],
                    select(self.video.videos@, search.parameters@)[i],
                ) && self.info_ok(
                    r@[i].info,
                    select(self.video.videos@, search.parameters@)[i].media_type,
                    select(self.video.videos@, search.parameters@)[i].media_id,
                ),
    {
        let rows = &self.video.videos;
        let filters = &search.parameters;
        let mut out: Vec<VideoResult> = Vec::new();
        let mut i: usize = 0;
        assert(rows@.subrange(0, 0) =~= Seq::<VideoRow>::empty());
        while i < rows.len()
            invariant
                rows@ == self.video.videos@,
                filters@ == search.parameters@,
                i <= rows@.len(),
                out@.len() == select(rows@.subrange(0, i as int), filters@).len(),
                forall|k: int|
                    0 <= k < out@.len() ==> result_of(
                        #[trigger] out@[k],
                        select(rows@.subrange(0, i as int), filters@)[k],
                    ) && self.info_ok(
                        out@[k].info,
                        select(rows@.subrange(0, i as int), filters@)[k].media_type,
                        select(rows@.subrange(0, i as int), filters@)[k].media_id,
                    ),
            decreases rows@.len() - i,
        {
            let ghost prev = select(rows@.subrange(0, i as int), filters@);
            assert(rows@.subrange(0, i + 1).drop_last() =~= rows@.subrange(0, i as int));
            assert(rows@.subrange(0, i + 1).last() == rows@[i as int]);
            let row = &rows[i];
            if selected(row, filters) {
                let line = VideoResult {
                    id: row.id,
                    path: row.path.clone(),
                    media_type: row.media_type,
                    media_id: row.media_id,
                    adding: row.adding.clone(),
                    info: self.media_info(row.media_type, row.media_id),
                };
                out.push(line);
                assert(select(rows@.subrange(0, i + 1), filters@) == prev.push(rows@[i as int]));
                assert forall|k: int| 0 <= k < out@.len() implies result_of(
                    #[trigger] out@[k],
                    select(rows@.subrange(0, i + 1), filters@)[k],
                ) && self.info_ok(
                    out@[k].info,
                    select(rows@.subrange(0, i + 1), filters@)[k].media_type,
                    select(rows@.subrange(0, i + 1), filters@)[k].media_id,
                ) by {
                    if k < out@.len() - 1 {
                        assert(select(rows@.subrange(0, i + 1), filters@)[k] == prev[k]);
                    }
                }
            }
            i = i + 1;
        }
        assert(rows@.subrange(0, rows@.len() as int) =~= rows@);
        out
    }

    /// The store holds an episode with this id.
    pub fn episode_id_exist(&self, episode_id: u64) -> (r: bool)
        ensures
            r == self.has_episode_id(episode_id),
    {
        let mut i: usize = 0;
        while i < self.tv.episodes.len()
            invariant
                i <= self.tv.episodes@.len(),
                forall|k: int| 0 <= k < i ==> self.tv.episodes@[k].id != episode_id,
            decreases self.tv.episodes@.len() - i,
        {
            if self.tv.episodes[i].id == episode_id {
                return true;
            }
            i = i + 1;
        }
        false
    }

    /// In a well-formed store, a video id sits at one index only.
    pub proof fn lemma_video_unique_index(&self, video_id: u64)
        requires
            self.wf(),
        ensures
            forall|i: int, j: int|
                self.video_at(i, video_id) && self.video_at(j, video_id) ==> i == j,
    {
        assert forall|i: int, j: int|
            self.video_at(i, video_id) && self.video_at(j, video_id) implies i == j by {
            if i < j {
                assert(self.video.videos@[i].id != self.video.videos@[j].id);
            } else if j < i {
                assert(self.video.videos@[j].id != self.video.videos@[i].id);
            }
        }
    }
}

} // verus!
