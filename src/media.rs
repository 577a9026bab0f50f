//! What a video shows: assigning it to a movie or an episode of the store,
//! and looking that media up.

use vstd::prelude::*;
use crate::store::{copy_text, EpisodeRow, MovieRow, SqlLibrary};
use crate::video::{with_media, ErrorKind, Video, MEDIA_EPISODE, MEDIA_MOVIE};

verus! {

/// `b` is `a` with at most its media id changed.
pub open spec fn same_but_media(a: Video, b: Video) -> bool {
    &&& a.id == b.id
    &&& a.path == b.path
    &&& a.media_type == b.media_type
    &&& a.bit_rate == b.bit_rate
    &&& a.duration == b.duration
    &&& a.size == b.size
    &&& a.adding == b.adding
    &&& a.codec == b.codec
    &&& a.width == b.width
    &&& a.height == b.height
    &&& a.subtitles == b.subtitles
    &&& a.audios == b.audios
}

/// `after` is `before` with the media of video `video_id` set to `media_id`.
pub open spec fn media_assigned(before: SqlLibrary, after: SqlLibrary, video_id: u64, media_id: u64) -> bool {
    &&& after.video.videos@.len() == before.video.videos@.len()
    &&& forall|i: int|
        0 <= i < before.video.videos@.len() ==> #[trigger] after.video.videos@[i] == if before.video.videos@[i].id
            == video_id {
            with_media(before.video.videos@[i], media_id)
        } else {
            before.video.videos@[i]
        }
    &&& after.video.next_id == before.video.next_id
    &&& after.video.subtitles == before.video.subtitles
    &&& after.video.audios == before.video.audios
    &&& after.video.last_times == before.video.last_times
    &&& after.movie == before.movie
    &&& after.tv == before.tv
    &&& after.persons == before.persons
    &&& after.collections == before.collections
}

impl SqlLibrary {
    /// The store holds a movie with this id, as this row.
    pub open spec fn movie_row_is(&self, id: u64, row: MovieRow) -> bool {
        exists|i: int|
            0 <= i < self.movie.movies@.len() && self.movie.movies@[i] == row && row.id == id
    }

    /// The store holds an episode with this id, as this row.
    pub open spec fn episode_row_is(&self, id: u64, row: EpisodeRow) -> bool {
        exists|i: int|
            0 <= i < self.tv.episodes@.len() && self.tv.episodes@[i] == row && row.id == id
    }

    /// The store holds a video with this id.
    pub fn video_exist(&self, video_id: u64) -> (r: bool)
        ensures
            r == self.has_video(video_id),
    {
        self.get_video_media_type(video_id).is_some()
    }
}

impl MovieRow {
    pub fn copy(&self) -> (r: MovieRow)
        ensures
            r == *self,
    {
        MovieRow {
            id: self.id,
            title: self.title.clone(),
            original_title: self.original_title.clone(),
            original_language: self.original_language.clone(),
            release_date: self.release_date.clone(),
            overview: copy_text(&self.overview),
            popularity: self.popularity.clone(),
            poster_path: copy_text(&self.poster_path),
            backdrop_path: copy_text(&self.backdrop_path),
            vote_average: self.vote_average.clone(),
            vote_count: self.vote_count,
            tagline: copy_text(&self.tagline),
            status: self.status.clone(),
            adult: self.adult,
        }
    }
}

impl EpisodeRow {
    pub fn copy(&self) -> (r: EpisodeRow)
        ensures
            r == *self,
    {
        EpisodeRow {
            id: self.id,
            season_id: self.season_id,
            tv_id: self.tv_id,
            season_number: self.season_number,
            episode_number: self.episode_number,
            release_date: self.release_date.clone(),
            title: self.title.clone(),
            overview: copy_text(&self.overview),
            vote_average: self.vote_average.clone(),
            vote_count: self.vote_count,
        }
    }
}

impl Video {
    /// Assigns this video, which must be of a movie, to a movie of the store.
    pub fn set_movie(&mut self, library: &mut SqlLibrary, movie_id: u64) -> (r: Result<(), ErrorKind>)
        requires
            old(library).wf(),
        ensures
            final(library).wf(),
            r is Err ==> *final(library) == *old(library) && *final(self) == *old(self),
            old(self).media_type != MEDIA_MOVIE ==> r == Err::<(), ErrorKind>(ErrorKind::MediaType),
            old(self).media_type == MEDIA_MOVIE && !old(library).has_video(old(self).id) ==> r
                == Err::<(), ErrorKind>(ErrorKind::NoVideo),
            old(self).media_type == MEDIA_MOVIE && old(library).has_video(old(self).id)
                && !old(library).has_movie(movie_id) ==> r == Err::<(), ErrorKind>(
                ErrorKind::NoMedia,
            ),
            r is Ok <==> old(self).media_type == MEDIA_MOVIE && old(library).has_video(old(self).id)
                && old(library).has_movie(movie_id),
            r is Ok ==> final(self).media_id == Some(movie_id) && same_but_media(
                *old(self),
                *final(self),
            ) && media_assigned(*old(library), *final(library), old(self).id, movie_id),
    {
        if self.media_type != MEDIA_MOVIE {
            return Err(ErrorKind::MediaType);
        }
        if !library.video_exist(self.id) {
            return Err(ErrorKind::NoVideo);
        }
        if !library.movie_exist(movie_id) {
            return Err(ErrorKind::NoMedia);
        }
        library.edit_video_media_id(self.id, movie_id);
        self.media_id = Some(movie_id);
        Ok(())
    }

    /// Assigns this video, which must be of an episode, to an episode of the
    /// store.
    pub fn set_tv(&mut self, library: &mut SqlLibrary, episode_id: u64) -> (r: Result<(), ErrorKind>)
        requires
            old(library).wf(),
        ensures
            final(library).wf(),
            r is Err ==> *final(library) == *old(library) && *final(self) == *old(self),
            old(self).media_type != MEDIA_EPISODE ==> r == Err::<(), ErrorKind>(
                ErrorKind::MediaType,
            ),
            old(self).media_type == MEDIA_EPISODE && !old(library).has_video(old(self).id) ==> r
                == Err::<(), ErrorKind>(ErrorKind::NoVideo),
            old(self).media_type == MEDIA_EPISODE && old(library).has_video(old(self).id)
                && !old(library).has_episode_id(episode_id) ==> r == Err::<(), ErrorKind>(
                ErrorKind::NoMedia,
            ),
            r is Ok <==> old(self).media_type == MEDIA_EPISODE && old(library).has_video(
                old(self).id,
            ) && old(library).has_episode_id(episode_id),
            r is Ok ==> final(self).media_id == Some(episode_id) && same_but_media(
                *old(self),
                *final(self),
            ) && media_assigned(*old(library), *final(library), old(self).id, episode_id),
    {
        if self.media_type != MEDIA_EPISODE {
            return Err(ErrorKind::MediaType);
        }
        if !library.video_exist(self.id) {
            return Err(ErrorKind::NoVideo);
        }
        if !library.episode_id_exist(episode_id) {
            return Err(ErrorKind::NoMedia);
        }
        library.edit_video_media_id(self.id, episode_id);
        self.media_id = Some(episode_id);
        Ok(())
    }

    /// The movie this video shows, if it is assigned to one that the store
    /// holds.
    pub fn movie(&self, library: &SqlLibrary) -> (r: Result<Option<MovieRow>, ErrorKind>)
        requires
            library.wf(),
        ensures
            self.media_type != MEDIA_MOVIE ==> r == Err::<Option<MovieRow>, ErrorKind>(
                ErrorKind::MediaType,
            ),
            self.media_type == MEDIA_MOVIE ==> r is Ok,
            r matches Ok(None) ==> match self.media_id {
                None => true,
                Some(id) => !library.has_movie(id),
            },
            r matches Ok(Some(row)) ==> self.media_id == Some(row.id) && library.movie_row_is(
                row.id,
                row,
            ),
    {
        if self.media_type != MEDIA_MOVIE {
            return Err(ErrorKind::MediaType);
        }
        let id = match self.media_id {
            None => {
                return Ok(None);
            },
            Some(id) => id,
        };
        let mut i: usize = 0;
        while i < library.movie.movies.len()
            invariant
                self.media_id == Some(id),
                self.media_type == MEDIA_MOVIE,
                i <= library.movie.movies@.len(),
                forall|k: int| 0 <= k < i ==> library.movie.movies@[k].id != id,
            decreases library.movie.movies@.len() - i,
        {
            if library.movie.movies[i].id == id {
                let row = library.movie.movies[i].copy();
                assert(library.movie.movies@[i as int] == row);
                return Ok(Some(row));
            }
            i = i + 1;
        }
        Ok(None)
    }

    /// The episode this video shows, if it is assigned to one that the store
    /// holds.
    pub fn tv_episode(&self, library: &SqlLibrary) -> (r: Result<Option<EpisodeRow>, ErrorKind>)
        requires
            library.wf(),
        ensures
            self.media_type != MEDIA_EPISODE ==> r == Err::<Option<EpisodeRow>, ErrorKind>(
                ErrorKind::MediaType,
            ),
            self.media_type == MEDIA_EPISODE ==> r is Ok,
            r matches Ok(None) ==> match self.media_id {
                None => true,
                Some(id) => !library.has_episode_id(id),
            },
            r matches Ok(Some(row)) ==> self.media_id == Some(row.id) && library.episode_row_is(
                row.id,
                row,
            ),
    {
        if self.media_type != MEDIA_EPISODE {
            return Err(ErrorKind::MediaType);
        }
        let id = match self.media_id {
            None => {
                return Ok(None);
            },
            Some(id) => id,
        };
        let mut i: usize = 0;
        while i < library.tv.episodes.len()
            invariant
                self.media_id == Some(id),
                self.media_type == MEDIA_EPISODE,
                i <= library.tv.episodes@.len(),
                forall|k: int| 0 <= k < i ==> library.tv.episodes@[k].id != id,
            decreases library.tv.episodes@.len() - i,
        {
            if library.tv.episodes[i].id == id {
                let row = library.tv.episodes[i].copy();
                assert(library.tv.episodes@[i as int] == row);
                return Ok(Some(row));
            }
            i = i + 1;
        }
        Ok(None)
    }
}

} // verus!
