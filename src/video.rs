//! Video files: their rows, their subtitle and audio languages, and the
//! media (movie or episode) they are assigned to.

use vstd::prelude::*;
use crate::concat::views;
use crate::store::{
    copy_text, unique_by, LanguageRow, LastTimeRow, SqlLibrary, StoreError, Table, VideoRow,
};

verus! {

/// The media type of a video showing a movie.
pub const MEDIA_MOVIE: u8 = 0;

/// The media type of a video showing a tv episode.
pub const MEDIA_EPISODE: u8 = 1;

/// A video file with what a media probe found in it.
pub struct Video {
    pub id: u64,
    pub path: String,
    pub media_type: u8,
    pub media_id: Option<u64>,
    pub bit_rate: u64,
    pub duration: u64,
    pub size: u64,
    pub adding: String,
    pub codec: Option<String>,
    pub width: u64,
    pub height: u64,
    pub subtitles: Vec<String>,
    pub audios: Vec<String>,
}

/// Why a video could not be assigned to a media.
#[derive(PartialEq, Eq, Structural, Clone, Copy, Debug)]
pub enum ErrorKind {
    /// The file name does not say what the video shows.
    ParseName,
    /// The video's media type is not the one asked for.
    MediaType,
    /// No video has this id.
    NoVideo,
    /// The store holds no movie or episode with this id.
    NoMedia,
}

pub open spec fn video_row(id: u64, v: Video) -> VideoRow {
    VideoRow {
        id: id,
        path: v.path,
        media_type: v.media_type,
        media_id: None,
        duration: v.duration,
        bit_rate: v.bit_rate,
        codec: v.codec,
        width: v.width,
        height: v.height,
        size: v.size,
        adding: v.adding,
    }
}

pub open spec fn lang_key(r: LanguageRow) -> (u64, Seq<char>) {
    (r.video_id, r.language@)
}

pub open spec fn has_lang(rows: Seq<LanguageRow>, vid: u64, l: Seq<char>) -> bool {
    exists|i: int| 0 <= i < rows.len() && rows[i].video_id == vid && rows[i].language@ == l
}

/// The language table after insert-or-ignore of each language of a video.
pub open spec fn langs_after(rows: Seq<LanguageRow>, vid: u64, langs: Seq<String>) -> Seq<
    LanguageRow,
>
    decreases langs.len(),
{
    if langs.len() == 0 {
        rows
    } else {
        let r = langs_after(rows, vid, langs.drop_last());
        if has_lang(r, vid, langs.last()@) {
            r
        } else {
            r.push(LanguageRow { video_id: vid, language: langs.last() })
        }
    }
}

/// The languages of one video, in table order.
pub open spec fn langs_of(rows: Seq<LanguageRow>, vid: u64) -> Seq<Seq<char>>
    decreases rows.len(),
{
    if rows.len() == 0 {
        Seq::<Seq<char>>::empty()
    } else {
        let p = langs_of(rows.drop_last(), vid);
        if rows.last().video_id == vid {
            p.push(rows.last().language@)
        } else {
            p
        }
    }
}

pub open spec fn with_media(r: VideoRow, media_id: u64) -> VideoRow {
    VideoRow {
        id: r.id,
        path: r.path,
        media_type: r.media_type,
        media_id: Some(media_id),
        duration: r.duration,
        bit_rate: r.bit_rate,
        codec: r.codec,
        width: r.width,
        height: r.height,
        size: r.size,
        adding: r.adding,
    }
}

pub open spec fn with_path(r: VideoRow, path: String) -> VideoRow {
    VideoRow {
        id: r.id,
        path: path,
        media_type: r.media_type,
        media_id: r.media_id,
        duration: r.duration,
        bit_rate: r.bit_rate,
        codec: r.codec,
        width: r.width,
        height: r.height,
        size: r.size,
        adding: r.adding,
    }
}

/// The languages listed for a video are those of its rows.
pub proof fn lemma_langs_of_contains(rows: Seq<LanguageRow>, vid: u64, l: Seq<char>)
    ensures
        langs_of(rows, vid).contains(l) <==> has_lang(rows, vid, l),
    decreases rows.len(),
{
    if rows.len() > 0 {
        let init = rows.drop_last();
        lemma_langs_of_contains(init, vid, l);
        let p = langs_of(init, vid);
        if has_lang(init, vid, l) {
            let i = choose|i: int| 0 <= i < init.len() && init[i].video_id == vid && init[i].language@ == l;
            assert(rows[i] == init[i]);
        }
        if has_lang(rows, vid, l) {
            let i = choose|i: int| 0 <= i < rows.len() && rows[i].video_id == vid && rows[i].language@ == l;
            if i < init.len() {
                assert(init[i] == rows[i]);
                assert(p.contains(l));
                let k = choose|k: int| 0 <= k < p.len() && p[k] == l;
                assert(langs_of(rows, vid)[k] == l);
            } else {
                assert(rows.last() == rows[i]);
                assert(langs_of(rows, vid).last() == l);
            }
        }
        if langs_of(rows, vid).contains(l) {
            let k = choose|k: int| 0 <= k < langs_of(rows, vid).len() && langs_of(rows, vid)[k] == l;
            if k < p.len() {
                assert(p[k] == l);
                assert(p.contains(l));
            } else {
                assert(rows[rows.len() - 1] == rows.last());
            }
        }
    }
}

/// After insert-or-ignore of a video's languages, the video has a language
/// exactly when it had it before or it was among those inserted.
pub proof fn lemma_langs_after(rows: Seq<LanguageRow>, vid: u64, langs: Seq<String>, l: Seq<char>)
    ensures
        has_lang(langs_after(rows, vid, langs), vid, l) <==> (has_lang(rows, vid, l) || exists|
            j: int,
        |
            0 <= j < langs.len() && langs[j]@ == l),
    decreases langs.len(),
{
    if langs.len() > 0 {
        let init = langs.drop_last();
        lemma_langs_after(rows, vid, init, l);
        let r = langs_after(rows, vid, init);
        let cur = langs_after(rows, vid, langs);
        if exists|j: int| 0 <= j < init.len() && init[j]@ == l {
            let j = choose|j: int| 0 <= j < init.len() && init[j]@ == l;
            assert(langs[j] == init[j]);
        }
        if has_lang(r, vid, l) && !has_lang(r, vid, langs.last()@) {
            let i = choose|i: int| 0 <= i < r.len() && r[i].video_id == vid && r[i].language@ == l;
            assert(cur[i] == r[i]);
        }
        if exists|j: int| 0 <= j < langs.len() && langs[j]@ == l {
            let j = choose|j: int| 0 <= j < langs.len() && langs[j]@ == l;
            if j < init.len() {
                assert(init[j] == langs[j]);
            } else if !has_lang(r, vid, langs.last()@) {
                assert(langs[j] == langs.last());
                assert(cur[cur.len() - 1].video_id == vid);
                assert(cur[cur.len() - 1].language@ == l);
            }
        }
        if has_lang(cur, vid, l) && !has_lang(r, vid, langs.last()@) {
            let i = choose|i: int| 0 <= i < cur.len() && cur[i].video_id == vid && cur[i].language@ == l;
            if i < r.len() {
                assert(r[i] == cur[i]);
            } else {
                assert(langs[langs.len() - 1] == langs.last());
            }
        }
    }
}

/// Subtitles and audio languages survive the round trip through the store:
/// once a video's languages are inserted under a fresh id, the languages
/// listed for that id are, as a set, those given.
pub proof fn lemma_languages_round_trip(
    rows: Seq<LanguageRow>,
    vid: u64,
    langs: Seq<String>,
    l: Seq<char>,
)
    requires
        forall|i: int| 0 <= i < rows.len() ==> (#[trigger] rows[i]).video_id != vid,
    ensures
        langs_of(langs_after(rows, vid, langs), vid).contains(l) <==> exists|j: int|
            0 <= j < langs.len() && langs[j]@ == l,
{
    lemma_langs_of_contains(langs_after(rows, vid, langs), vid, l);
    lemma_langs_after(rows, vid, langs, l);
}

/// Insert-or-ignore of each language of a video.
fn insert_langs(rows: &mut Vec<LanguageRow>, vid: u64, langs: &Vec<String>, Ghost(bound): Ghost<u64>)
    requires
        unique_by(old(rows)@, |r: LanguageRow| lang_key(r)),
        vid < bound,
        forall|i: int| 0 <= i < old(rows)@.len() ==> (#[trigger] old(rows)@[i]).video_id < bound,
    ensures
        final(rows)@ == langs_after(old(rows)@, vid, langs@),
        unique_by(final(rows)@, |r: LanguageRow| lang_key(r)),
        forall|i: int| 0 <= i < final(rows)@.len() ==> (#[trigger] final(rows)@[i]).video_id < bound,
{
    let ghost start = rows@;
    let mut i: usize = 0;
    assert(langs@.subrange(0, 0) =~= Seq::<String>::empty());
    while i < langs.len()
        invariant
            i <= langs@.len(),
            vid < bound,
            rows@ == langs_after(start, vid, langs@.subrange(0, i as int)),
            unique_by(rows@, |r: LanguageRow| lang_key(r)),
            forall|k: int| 0 <= k < rows@.len() ==> (#[trigger] rows@[k]).video_id < bound,
        decreases langs@.len() - i,
    {
        let l = &langs[i];
        assert(langs@.subrange(0, i + 1).drop_last() =~= langs@.subrange(0, i as int));
        assert(langs@.subrange(0, i + 1).last() == langs@[i as int]);
        let mut present = false;
        let mut k: usize = 0;
        while k < rows.len()
            invariant
                k <= rows@.len(),
                present == exists|m: int|
                    0 <= m < k && rows@[m].video_id == vid && rows@[m].language@ == l@,
            decreases rows@.len() - k,
        {
            if rows[k].video_id == vid && rows[k].language == *l {
                present = true;
            }
            k = k + 1;
        }
        if !present {
            let ghost before = rows@;
            rows.push(LanguageRow { video_id: vid, language: l.clone() });
            assert forall|a: int, b: int|
                #![trigger rows@[a], rows@[b]]
                0 <= a < b < rows@.len() implies lang_key(rows@[a]) != lang_key(rows@[b]) by {
                assert(rows@[a] == before[a]);
                if b < before.len() {
                    assert(rows@[b] == before[b]);
                }
            }
            assert forall|k: int| 0 <= k < rows@.len() implies (#[trigger] rows@[k]).video_id
                < bound by {
                if k < before.len() {
                    assert(rows@[k] == before[k]);
                }
            }
        }
        i = i + 1;
    }
    assert(langs@.subrange(0, langs@.len() as int) =~= langs@);
}

/// The languages of one video, in table order.
fn collect_langs(rows: &Vec<LanguageRow>, vid: u64) -> (r: Vec<String>)
    ensures
        views(r@) == langs_of(rows@, vid),
{
    let mut out: Vec<String> = Vec::new();
    let mut i: usize = 0;
    assert(rows@.subrange(0, 0) =~= Seq::<LanguageRow>::empty());
    while i < rows.len()
        invariant
            i <= rows@.len(),
            views(out@) == langs_of(rows@.subrange(0, i as int), vid),
        decreases rows@.len() - i,
    {
        assert(rows@.subrange(0, i + 1).drop_last() =~= rows@.subrange(0, i as int));
        assert(rows@.subrange(0, i + 1).last() == rows@[i as int]);
        let ghost before = out@;
        if rows[i].video_id == vid {
            out.push(rows[i].language.clone());
        }
        assert(views(out@) =~= langs_of(rows@.subrange(0, i + 1), vid));
        i = i + 1;
    }
    assert(rows@.subrange(0, rows@.len() as int) =~= rows@);
    out
}

impl Video {
    /// A video of this path and media type, not yet probed or assigned.
    pub fn new(path: String, media_type: u8) -> (r: Video)
        ensures
            r.id == 0,
            r.path == path,
            r.media_type == media_type,
            r.media_id is None,
            r.bit_rate == 0 && r.duration == 0 && r.size == 0,
            r.adding@.len() == 0,
            r.codec is None,
            r.width == 0 && r.height == 0,
            r.subtitles@.len() == 0 && r.audios@.len() == 0,
    {
        Video {
            id: 0,
            path,
            media_type,
            media_id: None,
            bit_rate: 0,
            duration: 0,
            size: 0,
            adding: String::new(),
            codec: None,
            width: 0,
            height: 0,
            subtitles: Vec::new(),
            audios: Vec::new(),
        }
    }
}

impl SqlLibrary {
    pub open spec fn has_path(&self, path: Seq<char>) -> bool {
        exists|i: int| 0 <= i < self.video.videos@.len() && self.video.videos@[i].path@ == path
    }

    pub open spec fn has_video(&self, id: u64) -> bool {
        exists|i: int| 0 <= i < self.video.videos@.len() && self.video.videos@[i].id == id
    }

    /// The row of this video is at index `i`.
    pub open spec fn video_at(&self, i: int, id: u64) -> bool {
        0 <= i < self.video.videos@.len() && self.video.videos@[i].id == id
    }

    /// The index of the video with this id, if any.
    fn find_video(&self, video_id: u64) -> (r: Option<usize>)
        ensures
            r matches Some(i) ==> self.video_at(i as int, video_id),
            r is None ==> !self.has_video(video_id),
    {
        let mut i: usize = 0;
        while i < self.video.videos.len()
            invariant
                i <= self.video.videos@.len(),
                forall|k: int| 0 <= k < i ==> self.video.videos@[k].id != video_id,
            decreases self.video.videos@.len() - i,
        {
            if self.video.videos[i].id == video_id {
                return Some(i);
            }
            i = i + 1;
        }
        None
    }

    /// The index of the video with this path, if any.
    fn find_path(&self, path: &String) -> (r: Option<usize>)
        ensures
            r matches Some(i) ==> i < self.video.videos@.len() && self.video.videos@[i as int].path@
                == path@,
            r is None ==> !self.has_path(path@),
    {
        let mut i: usize = 0;
        while i < self.video.videos.len()
            invariant
                i <= self.video.videos@.len(),
                forall|k: int| 0 <= k < i ==> self.video.videos@[k].path@ != path@,
            decreases self.video.videos@.len() - i,
        {
            if self.video.videos[i].path == *path {
                return Some(i);
            }
            i = i + 1;
        }
        None
    }

    /// Inserts a video under a fresh id, with its subtitle and audio languages
    /// (each language once). Fails when another video has the same path.
    pub fn create_video(&mut self, video: &Video) -> (r: Result<u64, StoreError>)
        requires
            old(self).wf(),
            old(self).video.next_id < u64::MAX,
        ensures
            final(self).wf(),
            r is Err <==> old(self).has_path(video.path@),
            r is Err ==> *final(self) == *old(self) && r == Err::<u64, StoreError>(
                StoreError::Constraint(Table::Videos),
            ),
            r matches Ok(id) ==> {
                &&& id == old(self).video.next_id
                &&& final(self).video.next_id == id + 1
                &&& final(self).video.videos@ == old(self).video.videos@.push(video_row(id, *video))
                &&& final(self).video.subtitles@ == langs_after(
                    old(self).video.subtitles@,
                    id,
                    video.subtitles@,
                )
                &&& final(self).video.audios@ == langs_after(
                    old(self).video.audios@,
                    id,
                    video.audios@,
                )
                &&& final(self).video.last_times == old(self).video.last_times
                &&& final(self).movie == old(self).movie
                &&& final(self).tv == old(self).tv
                &&& final(self).persons == old(self).persons
                &&& final(self).collections == old(self).collections
            },
    {
        if self.find_path(&video.path).is_some() {
            return Err(StoreError::Constraint(Table::Videos));
        }
        let id = self.video.next_id;
        let ghost before = self.video.videos@;
        self.video.videos.push(
            VideoRow {
                id: id,
                path: video.path.clone(),
                media_type: video.media_type,
                media_id: None,
                duration: video.duration,
                bit_rate: video.bit_rate,
                codec: copy_text(&video.codec),
                width: video.width,
                height: video.height,
                size: video.size,
                adding: video.adding.clone(),
            },
        );
        assert forall|a: int, b: int|
            #![trigger self.video.videos@[a], self.video.videos@[b]]
            0 <= a < b < self.video.videos@.len() implies self.video.videos@[a].id
            != self.video.videos@[b].id && self.video.videos@[a].path@
            != self.video.videos@[b].path@ by {
            assert(self.video.videos@[a] == before[a]);
            if b < before.len() {
                assert(self.video.videos@[b] == before[b]);
            }
        }
        self.video.next_id = id + 1;
        assert forall|i: int| 0 <= i < self.video.videos@.len() implies #[trigger] self.video.videos@[i].id
            < self.video.next_id by {
            if i < before.len() {
                assert(self.video.videos@[i] == before[i]);
            }
        }
        insert_langs(&mut self.video.subtitles, id, &video.subtitles, Ghost(self.video.next_id));
        insert_langs(&mut self.video.audios, id, &video.audios, Ghost(self.video.next_id));
        Ok(id)
    }

    /// Adds a subtitle language to a video; a language it has already is
    /// kept once.
    pub fn create_video_subtitle(&mut self, video_id: u64, language: &String) -> (r: Result<
        (),
        StoreError,
    >)
        requires
            old(self).wf(),
        ensures
            final(self).wf(),
            r is Err <==> !old(self).has_video(video_id),
            r is Err ==> *final(self) == *old(self) && r == Err::<(), StoreError>(StoreError::NoRows),
            r is Ok ==> final(self).video.subtitles@ == langs_after(
                old(self).video.subtitles@,
                video_id,
                seq![*language],
            ) && final(self).video.videos == old(self).video.videos && final(self).video.audios
                == old(self).video.audios && final(self).video.last_times
                == old(self).video.last_times && final(self).video.next_id
                == old(self).video.next_id && final(self).movie == old(self).movie
                && final(self).tv == old(self).tv && final(self).persons == old(self).persons
                && final(self).collections == old(self).collections,
    {
        match self.find_video(video_id) {
            None => Err(StoreError::NoRows),
            Some(i) => {
                assert(self.video.videos@[i as int].id < self.video.next_id);
                let mut one: Vec<String> = Vec::new();
                one.push(language.clone());
                assert(one@ =~= seq![*language]);
                insert_langs(&mut self.video.subtitles, video_id, &one, Ghost(self.video.next_id));
                Ok(())
            },
        }
    }

    /// Adds an audio language to a video; a language it has already is kept
    /// once.
    pub fn create_video_audio(&mut self, video_id: u64, language: &String) -> (r: Result<
        (),
        StoreError,
    >)
        requires
            old(self).wf(),
        ensures
            final(self).wf(),
            r is Err <==> !old(self).has_video(video_id),
            r is Err ==> *final(self) == *old(self) && r == Err::<(), StoreError>(StoreError::NoRows),
            r is Ok ==> final(self).video.audios@ == langs_after(
                old(self).video.audios@,
                video_id,
                seq![*language],
            ) && final(self).video.videos == old(self).video.videos && final(self).video.subtitles
                == old(self).video.subtitles && final(self).video.last_times
                == old(self).video.last_times && final(self).video.next_id
                == old(self).video.next_id && final(self).movie == old(self).movie
                && final(self).tv == old(self).tv && final(self).persons == old(self).persons
                && final(self).collections == old(self).collections,
    {
        match self.find_video(video_id) {
            None => Err(StoreError::NoRows),
            Some(i) => {
                assert(self.video.videos@[i as int].id < self.video.next_id);
                let mut one: Vec<String> = Vec::new();
                one.push(language.clone());
                assert(one@ =~= seq![*language]);
                insert_langs(&mut self.video.audios, video_id, &one, Ghost(self.video.next_id));
                Ok(())
            },
        }
    }

    /// The video with this id, with its languages, if the store holds it.
    pub fn get_video(&self, video_id: u64) -> (r: Option<Video>)
        ensures
            r is None <==> !self.has_video(video_id),
            r matches Some(v) ==> exists|i: int|
                {
                    &&& #[trigger] self.video_at(i, video_id)
                    &&& v.id == video_id
                    &&& v.path == self.video.videos@[i].path
                    &&& v.media_type == self.video.videos@[i].media_type
                    &&& v.media_id == self.video.videos@[i].media_id
                    &&& v.bit_rate == self.video.videos@[i].bit_rate
                    &&& v.duration == self.video.videos@[i].duration
                    &&& v.size == self.video.videos@[i].size
                    &&& v.adding == self.video.videos@[i].adding
                    &&& v.codec == self.video.videos@[i].codec
                    &&& v.width == self.video.videos@[i].width
                    &&& v.height == self.video.videos@[i].height
                },
            r matches Some(v) ==> views(v.subtitles@) == langs_of(self.video.subtitles@, video_id)
                && views(v.audios@) == langs_of(self.video.audios@, video_id),
    {
        match self.find_video(video_id) {
            None => None,
            Some(i) => {
                let row = &self.video.videos[i];
                let v = Video {
                    id: row.id,
                    path: row.path.clone(),
                    media_type: row.media_type,
                    media_id: row.media_id,
                    bit_rate: row.bit_rate,
                    duration: row.duration,
                    size: row.size,
                    adding: row.adding.clone(),
                    codec: copy_text(&row.codec),
                    width: row.width,
                    height: row.height,
                    subtitles: collect_langs(&self.video.subtitles, video_id),
                    audios: collect_langs(&self.video.audios, video_id),
                };
                assert(self.video_at(i as int, video_id));
                Some(v)
            },
        }
    }

    /// The id of the video with this path.
    pub fn get_video_id(&self, path: &String) -> (r: Result<u64, StoreError>)
        ensures
            r is Err <==> !self.has_path(path@),
            r is Err ==> r == Err::<u64, StoreError>(StoreError::NoRows),
            r matches Ok(id) ==> exists|i: int|
                0 <= i < self.video.videos@.len() && self.video.videos@[i].id == id
                    && self.video.videos@[i].path@ == path@,
    {
        match self.find_path(path) {
            None => Err(StoreError::NoRows),
            Some(i) => {
                let id = self.video.videos[i].id;
                assert(self.video.videos@[i as int].id == id && self.video.videos@[i as int].path@
                    == path@);
                Ok(id)
            },
        }
    }

    /// The media type of the video with this id, if the store holds it.
    pub fn get_video_media_type(&self, video_id: u64) -> (r: Option<u8>)
        ensures
            r is None <==> !self.has_video(video_id),
            r matches Some(t) ==> exists|i: int|
                #[trigger] self.video_at(i, video_id) && self.video.videos@[i].media_type == t,
    {
        match self.find_video(video_id) {
            None => None,
            Some(i) => Some(self.video.videos[i].media_type),
        }
    }

    /// Sets the media a video shows. A video id that the store does not hold
    /// changes nothing.
    pub fn edit_video_media_id(&mut self, video_id: u64, media_id: u64)
        requires
            old(self).wf(),
        ensures
            final(self).wf(),
            final(self).video.videos@.len() == old(self).video.videos@.len(),
            forall|i: int|
                0 <= i < old(self).video.videos@.len() ==> #[trigger] final(self).video.videos@[i]
                    == if old(self).video.videos@[i].id == video_id {
                    with_media(old(self).video.videos@[i], media_id)
                } else {
                    old(self).video.videos@[i]
                },
            final(self).video.next_id == old(self).video.next_id,
            final(self).video.subtitles == old(self).video.subtitles,
            final(self).video.audios == old(self).video.audios,
            final(self).video.last_times == old(self).video.last_times,
            final(self).movie == old(self).movie,
            final(self).tv == old(self).tv,
            final(self).persons == old(self).persons,
            final(self).collections == old(self).collections,
    {
        match self.find_video(video_id) {
            None => {},
            Some(i) => {
                let ghost before = self.video.videos@;
                self.video.videos[i].media_id = Some(media_id);
                assert(self.video.videos@[i as int] == with_media(before[i as int], media_id));
                assert forall|a: int, b: int|
                    #![trigger self.video.videos@[a], self.video.videos@[b]]
                    0 <= a < b < self.video.videos@.len() implies self.video.videos@[a].id
                    != self.video.videos@[b].id && self.video.videos@[a].path@
                    != self.video.videos@[b].path@ by {
                    assert(before[a].id != before[b].id && before[a].path@ != before[b].path@);
                }
                assert forall|k: int| 0 <= k < self.video.videos@.len() implies #[trigger] self.video.videos@[k].id
                    < self.video.next_id by {
                    assert(before[k].id < self.video.next_id);
                }
                assert forall|k: int| 0 <= k < before.len() && before[k].id == video_id implies k == i by {
                    if k != i {
                        if k < i {
                            assert(before[k].id != before[i as int].id);
                        } else {
                            assert(before[i as int].id != before[k].id);
                        }
                    }
                }
            },
        }
    }

    /// Moves a video to another path. Fails when another video has that path;
    /// a video id that the store does not hold changes nothing.
    pub fn edit_video_path(&mut self, video_id: u64, path: &String) -> (r: Result<(), StoreError>)
        requires
            old(self).wf(),
        ensures
            final(self).wf(),
            r is Err <==> exists|i: int|
                0 <= i < old(self).video.videos@.len() && old(self).video.videos@[i].path@ == path@
                    && old(self).video.videos@[i].id != video_id,
            r is Err ==> *final(self) == *old(self) && r == Err::<(), StoreError>(
                StoreError::Constraint(Table::Videos),
            ),
            r is Ok ==> final(self).video.videos@.len() == old(self).video.videos@.len()
                && forall|i: int|
                0 <= i < old(self).video.videos@.len() ==> #[trigger] final(self).video.videos@[i]
                    == if old(self).video.videos@[i].id == video_id {
                    with_path(old(self).video.videos@[i], *path)
                } else {
                    old(self).video.videos@[i]
                },
            final(self).video.next_id == old(self).video.next_id,
            final(self).video.subtitles == old(self).video.subtitles,
            final(self).video.audios == old(self).video.audios,
            final(self).video.last_times == old(self).video.last_times,
            final(self).movie == old(self).movie,
            final(self).tv == old(self).tv,
            final(self).persons == old(self).persons,
            final(self).collections == old(self).collections,
    {
        match self.find_path(path) {
            Some(j) => {
                if self.video.videos[j].id != video_id {
                    return Err(StoreError::Constraint(Table::Videos));
                }
            },
            None => {},
        }
        assert(forall|k: int|
            0 <= k < self.video.videos@.len() && self.video.videos@[k].path@ == path@
                ==> self.video.videos@[k].id == video_id) by {
            assert forall|k: int|
                0 <= k < self.video.videos@.len() && self.video.videos@[k].path@ == path@ implies self.video.videos@[k].id
                == video_id by {
                let w = choose|w: int|
                    0 <= w < self.video.videos@.len() && self.video.videos@[w].path@ == path@;
                if k != w {
                    if k < w {
                        assert(self.video.videos@[k].path@ != self.video.videos@[w].path@);
                    } else {
                        assert(self.video.videos@[w].path@ != self.video.videos@[k].path@);
                    }
                }
            }
        }
        match self.find_video(video_id) {
            None => {},
            Some(i) => {
                let ghost before = self.video.videos@;
                self.video.videos[i].path = path.clone();
                assert(self.video.videos@[i as int] == with_path(before[i as int], *path));
                assert forall|a: int, b: int|
                    #![trigger self.video.videos@[a], self.video.videos@[b]]
                    0 <= a < b < self.video.videos@.len() implies self.video.videos@[a].id
                    != self.video.videos@[b].id && self.video.videos@[a].path@
                    != self.video.videos@[b].path@ by {
                    assert(before[a].id != before[b].id && before[a].path@ != before[b].path@);
                    if a == i && before[b].path@ == path@ {
                        assert(before[b].id == video_id);
                    }
                    if b == i && before[a].path@ == path@ {
                        assert(before[a].id == video_id);
                    }
                }
                assert forall|k: int| 0 <= k < self.video.videos@.len() implies #[trigger] self.video.videos@[k].id
                    < self.video.next_id by {
                    assert(before[k].id < self.video.next_id);
                }
                assert forall|k: int| 0 <= k < before.len() && before[k].id == video_id implies k == i by {
                    if k != i {
                        if k < i {
                            assert(before[k].id != before[i as int].id);
                        } else {
                            assert(before[i as int].id != before[k].id);
                        }
                    }
                }
            },
        }
        Ok(())
    }

    /// Records where a user stopped in a video, replacing what was recorded
    /// for that pair before.
    pub fn edit_last_time(&mut self, video_id: u64, user_id: u64, last_time: u64)
        requires
            old(self).wf(),
        ensures
            final(self).wf(),
            exists|i: int|
                0 <= i < final(self).video.last_times@.len() && final(self).video.last_times@[i]
                    == (LastTimeRow { video_id, user_id, last_time }),
            forall|i: int|
                0 <= i < old(self).video.last_times@.len() && !(old(self).video.last_times@[i].video_id
                    == video_id && old(self).video.last_times@[i].user_id == user_id)
                    ==> final(self).video.last_times@.contains(old(self).video.last_times@[i]),
            forall|i: int|
                0 <= i < final(self).video.last_times@.len() ==> (final(self).video.last_times@[i]
                    == (LastTimeRow { video_id, user_id, last_time })
                    || old(self).video.last_times@.contains(final(self).video.last_times@[i])),
            final(self).video.videos == old(self).video.videos,
            final(self).video.next_id == old(self).video.next_id,
            final(self).video.subtitles == old(self).video.subtitles,
            final(self).video.audios == old(self).video.audios,
            final(self).movie == old(self).movie,
            final(self).tv == old(self).tv,
            final(self).persons == old(self).persons,
            final(self).collections == old(self).collections,
    {
        let row = LastTimeRow { video_id: video_id, user_id: user_id, last_time: last_time };
        let ghost before = self.video.last_times@;
        let mut i: usize = 0;
        while i < self.video.last_times.len()
            invariant
                *self == *old(self),
                old(self).wf(),
                row == (LastTimeRow { video_id: video_id, user_id: user_id, last_time: last_time }),
                self.video.last_times@ == before,
                i <= before.len(),
                forall|k: int|
                    0 <= k < i ==> !(before[k].video_id == video_id && before[k].user_id == user_id),
            decreases before.len() - i,
        {
            if self.video.last_times[i].video_id == video_id && self.video.last_times[i].user_id
                == user_id {
                assert(before[i as int].video_id == video_id && before[i as int].user_id == user_id);
                self.video.last_times.set(i, row);
                assert(self.video.last_times@[i as int] == row);
                assert(self.video.last_times@[i as int].video_id == before[i as int].video_id);
                assert(self.video.last_times@[i as int].user_id == before[i as int].user_id);
                assert(forall|k: int|
                    0 <= k < before.len() && k != i ==> self.video.last_times@[k] == before[k]);
                assert forall|a: int, b: int|
                    #![trigger self.video.last_times@[a], self.video.last_times@[b]]
                    0 <= a < b < self.video.last_times@.len() implies (
                    self.video.last_times@[a].video_id,
                    self.video.last_times@[a].user_id,
                ) != (self.video.last_times@[b].video_id, self.video.last_times@[b].user_id) by {
                    assert((before[a].video_id, before[a].user_id) != (
                        before[b].video_id,
                        before[b].user_id,
                    ));
                }
                assert forall|k: int|
                    0 <= k < before.len() && !(before[k].video_id == video_id && before[k].user_id
                        == user_id) implies self.video.last_times@.contains(before[k]) by {
                    assert(self.video.last_times@[k] == before[k]);
                }
                assert forall|k: int|
                    0 <= k < self.video.last_times@.len() implies (self.video.last_times@[k] == row
                    || before.contains(self.video.last_times@[k])) by {
                    if k != i {
                        assert(self.video.last_times@[k] == before[k]);
                    }
                }
                return;
            }
            i = i + 1;
        }
        self.video.last_times.push(row);
        assert(self.video.last_times@[before.len() as int] == row);
        assert forall|a: int, b: int|
            #![trigger self.video.last_times@[a], self.video.last_times@[b]]
            0 <= a < b < self.video.last_times@.len() implies (
            self.video.last_times@[a].video_id,
            self.video.last_times@[a].user_id,
        ) != (self.video.last_times@[b].video_id, self.video.last_times@[b].user_id) by {
            assert(self.video.last_times@[a] == before[a]);
            if b < before.len() {
                assert(self.video.last_times@[b] == before[b]);
            }
        }
        assert forall|k: int|
            0 <= k < before.len() && !(before[k].video_id == video_id && before[k].user_id
                == user_id) implies self.video.last_times@.contains(before[k]) by {
            assert(self.video.last_times@[k] == before[k]);
        }
        assert forall|k: int|
            0 <= k < self.video.last_times@.len() implies (self.video.last_times@[k] == row
            || before.contains(self.video.last_times@[k])) by {
            if k < before.len() {
                assert(self.video.last_times@[k] == before[k]);
            }
        }
    }
}

} // verus!
