//! Building a video from what a media probe reports about its tracks.

use vstd::prelude::*;
use crate::concat::views;
use crate::store::{copy_text, opt_view};
use crate::video::Video;

verus! {

/// One track of a media file, as a probe reports it.
pub enum Track {
    General { bit_rate: u64, duration: u64, size: u64 },
    Video { codec: Option<String>, width: u64, height: u64 },
    Audio { language: Option<String> },
    Text { language: Option<String> },
    Other,
}

/// Bit rate, duration and size of the last general track.
pub open spec fn general_of(tracks: Seq<Track>) -> Option<(u64, u64, u64)>
    decreases tracks.len(),
{
    if tracks.len() == 0 {
        None
    } else {
        match tracks.last() {
            Track::General { bit_rate, duration, size } => Some((bit_rate, duration, size)),
            _ => general_of(tracks.drop_last()),
        }
    }
}

/// Codec, width and height of the last video track.
pub open spec fn picture_of(tracks: Seq<Track>) -> Option<(Option<Seq<char>>, u64, u64)>
    decreases tracks.len(),
{
    if tracks.len() == 0 {
        None
    } else {
        match tracks.last() {
            Track::Video { codec, width, height } => Some((opt_view(codec), width, height)),
            _ => picture_of(tracks.drop_last()),
        }
    }
}

/// The languages of the audio tracks that name one, in track order.
pub open spec fn audio_langs(tracks: Seq<Track>) -> Seq<Seq<char>>
    decreases tracks.len(),
{
    if tracks.len() == 0 {
        Seq::<Seq<char>>::empty()
    } else {
        let p = audio_langs(tracks.drop_last());
        match tracks.last() {
            Track::Audio { language: Some(l) } => p.push(l@),
            _ => p,
        }
    }
}

/// The languages of the text (subtitle) tracks that name one, in track
/// order.
pub open spec fn text_langs(tracks: Seq<Track>) -> Seq<Seq<char>>
    decreases tracks.len(),
{
    if tracks.len() == 0 {
        Seq::<Seq<char>>::empty()
    } else {
        let p = text_langs(tracks.drop_last());
        match tracks.last() {
            Track::Text { language: Some(l) } => p.push(l@),
            _ => p,
        }
    }
}

impl Video {
    /// A video of this path and media type with the facts of its tracks:
    /// the last general track gives bit rate, duration and size, the last
    /// video track gives codec and picture size, and every audio and text
    /// track that names a language adds it.
    pub fn from_tracks(path: String, media_type: u8, tracks: &Vec<Track>) -> (r: Video)
        ensures
            r.id == 0,
            r.path == path,
            r.media_type == media_type,
            r.media_id is None,
            r.adding@.len() == 0,
            match general_of(tracks@) {
                Some((b, d, s)) => r.bit_rate == b && r.duration == d && r.size == s,
                None => r.bit_rate == 0 && r.duration == 0 && r.size == 0,
            },
            match picture_of(tracks@) {
                Some((c, w, h)) => opt_view(r.codec) == c && r.width == w && r.height == h,
                None => r.codec is None && r.width == 0 && r.height == 0,
            },
            views(r.audios@) == audio_langs(tracks@),
            views(r.subtitles@) == text_langs(tracks@),
    {
        let mut v = Video::new(path, media_type);
        let mut i: usize = 0;
        assert(tracks@.subrange(0, 0) =~= Seq::<Track>::empty());
        assert(views(v.audios@) =~= Seq::<Seq<char>>::empty());
        assert(views(v.subtitles@) =~= Seq::<Seq<char>>::empty());
        while i < tracks.len()
            invariant
                i <= tracks@.len(),
                v.id == 0,
                v.path == path,
                v.media_type == media_type,
                v.media_id is None,
                v.adding@.len() == 0,
                match general_of(tracks@.subrange(0, i as int)) {
                    Some((b, d, s)) => v.bit_rate == b && v.duration == d && v.size == s,
                    None => v.bit_rate == 0 && v.duration == 0 && v.size == 0,
                },
                match picture_of(tracks@.subrange(0, i as int)) {
                    Some((c, w, h)) => opt_view(v.codec) == c && v.width == w && v.height == h,
                    None => v.codec is None && v.width == 0 && v.height == 0,
                },
                views(v.audios@) == audio_langs(tracks@.subrange(0, i as int)),
                views(v.subtitles@) == text_langs(tracks@.subrange(0, i as int)),
            decreases tracks@.len() - i,
        {
            assert(tracks@.subrange(0, i + 1).drop_last() =~= tracks@.subrange(0, i as int));
            assert(tracks@.subrange(0, i + 1).last() == tracks@[i as int]);
            let ghost audios_before = v.audios@;
            let ghost subs_before = v.subtitles@;
            match &tracks[i] {
                Track::General { bit_rate, duration, size } => {
                    v.bit_rate = *bit_rate;
                    v.duration = *duration;
                    v.size = *size;
                },
                Track::Video { codec, width, height } => {
                    v.codec = copy_text(codec);
                    v.width = *width;
                    v.height = *height;
                },
                Track::Audio { language } => {
                    match language {
                        Some(l) => {
                            v.audios.push(l.clone());
                            assert(views(v.audios@) =~= views(audios_before).push(l@));
                        },
                        None => {},
                    }
                },
                Track::Text { language } => {
                    match language {
                        Some(l) => {
                            v.subtitles.push(l.clone());
                            assert(views(v.subtitles@) =~= views(subs_before).push(l@));
                        },
                        None => {},
                    }
                },
                Track::Other => {},
            }
            i = i + 1;
        }
        assert(tracks@.subrange(0, tracks@.len() as int) =~= tracks@);
        v
    }
}

} // verus!
