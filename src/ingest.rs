//! The ingestion orchestrator, as a state machine. The caller performs each
//! fetch that a step asks for and hands back what came of it; the machine
//! decides what to store and what to fetch next.
//!
//! The entity asked for is required: a failed fetch of it ends the ingestion
//! with an error. Persons found in its cast are best effort: a failed fetch
//! of one is skipped. A movie, tv show or person that was stored between the
//! existence check and the upsert counts as stored, not as an error. A tv
//! show, with its seasons, persons and images, is complete before the episode
//! that needs it is fetched.

use vstd::prelude::*;
use crate::concat::views;
use crate::model::{Movie, Person, Season, Tv, TvEpisode};
use crate::store::{
    cast_key, cast_links_of, distinct_cast_persons, image_of, links_cast_parent, unique_by,
    CastLink, SqlLibrary, StoreError, Table,
};
use crate::tv::{episode_row, person_row, season_images, season_rows_of, tv_images, tv_row};
use crate::upsert::{movie_images, movie_row};

verus! {

/// Where remote images are fetched from; the image path is appended.
pub const IMAGE_BASE_URL: &'static str = "https://image.tmdb.org/t/p/original";

/// What an ingestion is asked to bring into the store.
#[derive(PartialEq, Eq, Structural, Clone, Copy, Debug)]
pub enum Target {
    Movie(u64),
    Tv(u64),
    /// Tv show id, season number, episode number.
    Episode(u64, u64, u64),
    Person(u64),
}

/// Why the remote metadata service gave no document.
pub enum RemoteError {
    Timeout,
    Connection,
    Malformed,
    NotFound,
    ProviderRejected(String),
}

/// An outside task for the caller.
pub enum Fetch {
    Movie(u64),
    Tv(u64),
    Episode(u64, u64, u64),
    Person(u64),
    /// Download the image of this path into the resource directory.
    Image(String),
}

/// What came of the last fetch.
pub enum Reply {
    Movie(Movie),
    Tv(Tv),
    Episode(TvEpisode),
    Person(Person),
    ImageStored,
    Failed(RemoteError),
}

pub enum IngestError {
    /// A required document could not be fetched; the target says which.
    Remote(Target, RemoteError),
    Store(StoreError),
    /// A reply that answers no outstanding fetch.
    Unexpected,
}

/// What the caller does next.
pub enum Step {
    Fetch(Fetch),
    /// The ingestion is complete; the id of the entity asked for.
    Done(u64),
    Failed(IngestError),
}

/// Which fetch the machine waits for.
#[derive(PartialEq, Eq, Structural, Clone, Copy, Debug)]
pub enum Stage {
    /// The document of the target.
    Primary,
    /// The tv show of the episode asked for.
    Parent,
    Person,
    Image,
    Finished,
}

pub struct Ingestion {
    pub target: Target,
    pub stage: Stage,
    /// Persons still to bring in.
    pub persons: Vec<u64>,
    /// Image paths still to download.
    pub images: Vec<String>,
    /// The episode is still to fetch once the tv show is in.
    pub episode_pending: bool,
    /// The id reported when done.
    pub result: u64,
}

impl SqlLibrary {
    /// The target's entity is already in the store.
    pub open spec fn holds(&self, t: Target) -> bool {
        match t {
            Target::Movie(id) => self.has_movie(id),
            Target::Tv(id) => self.has_tv(id),
            Target::Person(id) => self.has_person(id),
            Target::Episode(tv_id, s, e) => exists|id: u64| self.episode_is(tv_id, s, e, id),
        }
    }
}

/// The URL of a remote image.
pub fn image_url(path: &String) -> (r: String)
    ensures
        r@ == IMAGE_BASE_URL@ + path@,
{
    let base = String::from_str(IMAGE_BASE_URL);
    base.concat(path.as_str())
}

/// Where a downloaded image is kept: the path appended to the resource
/// directory.
pub fn resource_file(dir: &String, path: &String) -> (r: String)
    ensures
        r@ == dir@ + path@,
{
    dir.clone().concat(path.as_str())
}

/// Every person of the list is in the store.
pub open spec fn all_stored(library: SqlLibrary, persons: Seq<u64>) -> bool {
    forall|j: int| 0 <= j < persons.len() ==> library.has_person(#[trigger] persons[j])
}

/// No path of the list is empty.
pub open spec fn all_nonempty(paths: Seq<Seq<char>>) -> bool {
    forall|i: int| 0 <= i < paths.len() ==> (#[trigger] paths[i]).len() > 0
}

/// How the machine works through what is queued, given the persons and
/// images queued and whether the episode is still to fetch: the persons
/// from the last queued on, each fetched unless already stored; then the
/// images from the last queued on; then the episode; then done, with the
/// id reported.
pub open spec fn advances(
    persons: Seq<u64>,
    images: Seq<String>,
    pending: bool,
    library: SqlLibrary,
    after: Ingestion,
    r: Step,
) -> bool {
    match r {
        Step::Fetch(Fetch::Person(p)) => exists|k: int|
            0 <= k < persons.len() && persons[k] == p && !library.has_person(p)
                && after.persons@ == persons.subrange(0, k) && all_stored(
                library,
                persons.subrange(k + 1, persons.len() as int),
            ) && after.images@ == images && after.episode_pending == pending && after.stage
                == Stage::Person,
        Step::Fetch(Fetch::Image(x)) => all_stored(library, persons) && images.len() > 0 && x
            == images.last() && after.persons@.len() == 0 && after.images@ == images.drop_last()
            && after.episode_pending == pending && after.stage == Stage::Image,
        Step::Fetch(Fetch::Episode(a, b, c)) => all_stored(library, persons) && images.len() == 0
            && pending && after.target == Target::Episode(a, b, c) && after.persons@.len() == 0
            && after.images@.len() == 0 && !after.episode_pending && after.stage == Stage::Primary,
        Step::Done(x) => all_stored(library, persons) && images.len() == 0 && !pending && x
            == after.result && after.persons@.len() == 0 && after.images@.len() == 0
            && !after.episode_pending && after.stage == Stage::Finished,
        _ => false,
    }
}

pub proof fn lemma_image_of_nonempty(p: Option<String>)
    ensures
        all_nonempty(image_of(p)),
{
}

pub proof fn lemma_concat_nonempty(a: Seq<Seq<char>>, b: Seq<Seq<char>>)
    requires
        all_nonempty(a),
        all_nonempty(b),
    ensures
        all_nonempty(a + b),
{
    assert forall|i: int| 0 <= i < (a + b).len() implies (#[trigger] (a + b)[i]).len() > 0 by {
        if i < a.len() {
            assert((a + b)[i] == a[i]);
        } else {
            assert((a + b)[i] == b[i - a.len()]);
        }
    }
}

pub proof fn lemma_season_images_nonempty(seasons: Seq<Season>)
    ensures
        all_nonempty(season_images(seasons)),
    decreases seasons.len(),
{
    if seasons.len() > 0 {
        lemma_season_images_nonempty(seasons.drop_last());
        lemma_image_of_nonempty(seasons.last().poster_path);
        lemma_concat_nonempty(season_images(seasons.drop_last()), image_of(seasons.last().poster_path));
    }
}

/// A tv document answers the fetch of this stage: the target show's own, or
/// the show of the episode asked for.
pub open spec fn wants_tv(stage: Stage, target: Target, id: u64) -> bool {
    match target {
        Target::Tv(t) => stage == Stage::Primary && t == id,
        Target::Episode(t, _, _) => stage == Stage::Parent && t == id,
        _ => false,
    }
}

impl Ingestion {
    /// What holds between steps: queued paths are not empty; only an
    /// episode waits for anything; while its show is fetched, it waits.
    pub open spec fn inv(&self) -> bool {
        &&& forall|i: int| 0 <= i < self.images@.len() ==> (#[trigger] self.images@[i])@.len() > 0
        &&& self.episode_pending ==> self.target is Episode
        &&& self.stage == Stage::Parent ==> self.episode_pending
    }
}

impl Ingestion {
    /// Begins an ingestion. An entity already in the store ends it at once,
    /// with no fetch.
    pub fn start(library: &SqlLibrary, target: Target) -> (r: (Ingestion, Step))
        requires
            library.wf(),
        ensures
            r.0.inv(),
            r.0.target == target,
            r.0.persons@.len() == 0,
            r.0.images@.len() == 0,
            library.holds(target) ==> r.0.stage == Stage::Finished && r.1 is Done,
            !library.holds(target) ==> r.1 is Fetch,
            match target {
                Target::Movie(id) => (library.has_movie(id) ==> r.1 == Step::Done(id)) && (
                !library.has_movie(id) ==> r.1 == Step::Fetch(Fetch::Movie(id))
                    && r.0.stage == Stage::Primary),
                Target::Tv(id) => (library.has_tv(id) ==> r.1 == Step::Done(id)) && (
                !library.has_tv(id) ==> r.1 == Step::Fetch(Fetch::Tv(id)) && r.0.stage
                    == Stage::Primary),
                Target::Person(id) => (library.has_person(id) ==> r.1 == Step::Done(id)) && (
                !library.has_person(id) ==> r.1 == Step::Fetch(Fetch::Person(id)) && r.0.stage
                    == Stage::Primary),
                Target::Episode(tv_id, s, e) => (forall|id: u64|
                    library.episode_is(tv_id, s, e, id) ==> r.1 == Step::Done(id)) && (
                !library.holds(target) && !library.has_tv(tv_id) ==> r.1 == Step::Fetch(
                    Fetch::Tv(tv_id),
                ) && r.0.stage == Stage::Parent && r.0.episode_pending) && (!library.holds(
                    target,
                ) && library.has_tv(tv_id) ==> r.1 == Step::Fetch(Fetch::Episode(tv_id, s, e))
                    && r.0.stage == Stage::Primary),
            },
    {
        let mut ing = Ingestion {
            target,
            stage: Stage::Primary,
            persons: Vec::new(),
            images: Vec::new(),
            episode_pending: false,
            result: 0,
        };
        match target {
            Target::Movie(id) => {
                ing.result = id;
                if library.movie_exist(id) {
                    ing.stage = Stage::Finished;
                    (ing, Step::Done(id))
                } else {
                    (ing, Step::Fetch(Fetch::Movie(id)))
                }
            },
            Target::Tv(id) => {
                ing.result = id;
                if library.tv_exist(id) {
                    ing.stage = Stage::Finished;
                    (ing, Step::Done(id))
                } else {
                    (ing, Step::Fetch(Fetch::Tv(id)))
                }
            },
            Target::Person(id) => {
                ing.result = id;
                if library.person_exist(id) {
                    ing.stage = Stage::Finished;
                    (ing, Step::Done(id))
                } else {
                    (ing, Step::Fetch(Fetch::Person(id)))
                }
            },
            Target::Episode(tv_id, s, e) => {
                match library.episode_exist(tv_id, s, e) {
                    Some(id) => {
                        proof {
                            library.lemma_episode_unique(tv_id, s, e, id);
                        }
                        ing.result = id;
                        ing.stage = Stage::Finished;
                        (ing, Step::Done(id))
                    },
                    None => {
                        if library.tv_exist(tv_id) {
                            (ing, Step::Fetch(Fetch::Episode(tv_id, s, e)))
                        } else {
                            ing.stage = Stage::Parent;
                            ing.episode_pending = true;
                            (ing, Step::Fetch(Fetch::Tv(tv_id)))
                        }
                    },
                }
            },
        }
    }

    /// The next outside task once the last reply has been handled: persons
    /// not yet in the store, then images, then the episode waiting for its
    /// tv show; when nothing is left, done.
    fn next(&mut self, library: &SqlLibrary) -> (r: Step)
        requires
            old(self).inv(),
        ensures
            final(self).inv(),
            final(self).target == old(self).target,
            final(self).result == old(self).result,
            advances(
                old(self).persons@,
                old(self).images@,
                old(self).episode_pending,
                *library,
                *final(self),
                r,
            ),
            r matches Step::Fetch(Fetch::Image(x)) ==> x@.len() > 0,
    {
        let ghost persons0 = self.persons@;
        while self.persons.len() > 0
            invariant
                self.target == old(self).target,
                self.result == old(self).result,
                self.episode_pending == old(self).episode_pending,
                self.images == old(self).images,
                persons0 == old(self).persons@,
                old(self).inv(),
                self.stage == old(self).stage,
                self.persons@.len() <= persons0.len(),
                self.persons@ == persons0.subrange(0, self.persons@.len() as int),
                all_stored(*library, persons0.subrange(self.persons@.len() as int, persons0.len() as int)),
            decreases self.persons@.len(),
        {
            let ghost k = self.persons@.len() - 1;
            let p = self.persons.pop().unwrap();
            assert(p == persons0[k]);
            assert(self.persons@ =~= persons0.subrange(0, k));
            if !library.person_exist(p) {
                self.stage = Stage::Person;
                assert(advances(persons0, old(self).images@, old(self).episode_pending, *library, *self, Step::Fetch(Fetch::Person(p))));
                return Step::Fetch(Fetch::Person(p));
            }
            assert forall|j: int| 0 <= j < persons0.subrange(k, persons0.len() as int).len() implies library.has_person(
                #[trigger] persons0.subrange(k, persons0.len() as int)[j],
            ) by {
                if j > 0 {
                    assert(persons0.subrange(k, persons0.len() as int)[j] == persons0.subrange(
                        k + 1,
                        persons0.len() as int,
                    )[j - 1]);
                }
            }
        }
        assert(persons0.subrange(0, persons0.len() as int) =~= persons0);
        if self.images.len() > 0 {
            let ghost images0 = self.images@;
            let path = self.images.pop().unwrap();
            self.stage = Stage::Image;
            assert(self.images@ =~= images0.drop_last());
            assert(path == images0[images0.len() - 1]);
            return Step::Fetch(Fetch::Image(path));
        }
        if self.episode_pending {
            self.episode_pending = false;
            self.stage = Stage::Primary;
            match self.target {
                Target::Episode(tv_id, s, e) => {
                    return Step::Fetch(Fetch::Episode(tv_id, s, e));
                },
                _ => {},
            }
        }
        self.episode_pending = false;
        self.stage = Stage::Finished;
        Step::Done(self.result)
    }

    /// Queues what an upsert refers to.
    fn enqueue(&mut self, ids: Vec<u64>, paths: Vec<String>)
        requires
            old(self).inv(),
            all_nonempty(views(paths@)),
        ensures
            final(self).inv(),
            final(self).target == old(self).target,
            final(self).result == old(self).result,
            final(self).stage == old(self).stage,
            final(self).episode_pending == old(self).episode_pending,
            final(self).persons@ == old(self).persons@ + ids@,
            final(self).images@ == old(self).images@ + paths@,
    {
        let mut ids = ids;
        let mut paths = paths;
        let ghost added = paths@;
        self.persons.append(&mut ids);
        self.images.append(&mut paths);
        assert forall|i: int| 0 <= i < self.images@.len() implies (#[trigger] self.images@[i])@.len() > 0 by {
            if i >= old(self).images@.len() {
                assert(self.images@[i] == added[i - old(self).images@.len()]);
                assert(views(added)[i - old(self).images@.len()] == added[i - old(self).images@.len()]@);
            }
        }
    }

    /// Ends the ingestion with an error.
    fn fail(&mut self, e: IngestError) -> (r: Step)
        requires
            old(self).inv(),
        ensures
            final(self).inv(),
            final(self).target == old(self).target,
            final(self).result == old(self).result,
            final(self).stage == Stage::Finished,
            r == Step::Failed(e),
    {
        self.stage = Stage::Finished;
        Step::Failed(e)
    }

    /// Handles the reply to the outstanding fetch.
    ///
    /// A movie, tv show or person document of the target is stored, and what
    /// it refers to is queued; a tv show fetched for an episode is stored
    /// with its seasons before the episode is asked for; a stored episode
    /// sets the id that the ingestion reports. A document stored meanwhile
    /// by another writer counts as stored.
    pub fn step(&mut self, library: &mut SqlLibrary, reply: Reply) -> (r: Step)
        requires
            old(library).wf(),
            old(self).inv(),
        ensures
            final(library).wf(),
            final(self).inv(),
            final(self).target == old(self).target,
            r matches Step::Fetch(Fetch::Person(p)) ==> !final(library).has_person(p),
            r matches Step::Fetch(Fetch::Image(x)) ==> x@.len() > 0,
            r matches Step::Failed(IngestError::Store(_)) ==> *final(library) == *old(library),
            !(old(self).stage == Stage::Primary && reply is Episode) ==> final(self).result == old(self).result,
            old(self).stage == Stage::Person ==> !(r is Failed),
            old(self).stage == Stage::Person && !(reply is Person) ==> *final(library) == *old(library) && advances(
                old(self).persons@,
                old(self).images@,
                old(self).episode_pending,
                *final(library),
                *final(self),
                r,
            ),
            old(self).stage == Stage::Person ==> (reply matches Reply::Person(p) ==> final(library).has_person(p.id) && exists|paths: Seq<String>|
                advances(
                    old(self).persons@,
                    old(self).images@ + paths,
                    old(self).episode_pending,
                    *final(library),
                    *final(self),
                    r,
                )),
            old(self).stage == Stage::Image && reply is ImageStored ==> *final(library) == *old(library) && advances(
                old(self).persons@,
                old(self).images@,
                old(self).episode_pending,
                *final(library),
                *final(self),
                r,
            ),
            old(self).stage == Stage::Primary ==> (reply matches Reply::Failed(e) ==> *final(library)
                == *old(library) && r == Step::Failed(IngestError::Remote(old(self).target, e))),
            old(self).stage == Stage::Parent && reply is Failed ==> *final(library) == *old(library) && r is Failed,
            old(self).stage == Stage::Primary ==> (reply matches Reply::Movie(m) ==> (old(self).target == Target::Movie(m.id) ==> (old(library).has_movie(m.id) ==> *final(library)
                == *old(library) && advances(
                old(self).persons@,
                old(self).images@,
                old(self).episode_pending,
                *final(library),
                *final(self),
                r,
            )) && (!old(library).has_movie(m.id) && old(library).movie_genres_fit(m) && old(library).movie_cast_fits(m) ==> final(library).has_movie(m.id) && exists|
                ids: Seq<u64>,
                paths: Seq<String>,
            |
                distinct_cast_persons(ids, m.credits.cast@) && views(paths) == movie_images(m)
                    && advances(
                    old(self).persons@ + ids,
                    old(self).images@ + paths,
                    old(self).episode_pending,
                    *final(library),
                    *final(self),
                    r,
                )))),
            reply matches Reply::Tv(t) ==> (wants_tv(old(self).stage, old(self).target, t.id) ==> (old(library).has_tv(t.id)
                ==> *final(library) == *old(library) && advances(
                old(self).persons@,
                old(self).images@,
                old(self).episode_pending,
                *final(library),
                *final(self),
                r,
            )) && (old(library).tv_accepts(t) ==> final(library).has_tv(t.id) && final(library).tv.seasons@ == old(library).tv.seasons@ + season_rows_of(t.id, t.seasons@) && exists|
                ids: Seq<u64>,
                paths: Seq<String>,
            |
                distinct_cast_persons(ids, t.credits.cast@) && views(paths) == tv_images(t)
                    && advances(
                    old(self).persons@ + ids,
                    old(self).images@ + paths,
                    old(self).episode_pending,
                    *final(library),
                    *final(self),
                    r,
                ))),
            old(self).stage == Stage::Parent ==> !(r is Done),
            old(self).stage == Stage::Primary ==> (reply matches Reply::Episode(ep) ==> (old(self).target matches Target::Episode(tv_id, s, e) ==> (ep.season_number == s
                && ep.episode_number == e ==> (!old(library).has_season(tv_id, s) ==> r
                == Step::Failed(IngestError::Store(StoreError::SeasonNotFound)) && *final(library)
                == *old(library)) && (old(library).has_season(tv_id, s) ==> (forall|id: u64|
                old(library).episode_is(tv_id, s, e, id) ==> final(self).result == id && *final(library) == *old(library) && advances(
                old(self).persons@,
                old(self).images@,
                old(self).episode_pending,
                *final(library),
                *final(self),
                r,
            ))) && (old(library).has_season(tv_id, s) && !old(library).has_episode_id(ep.id) && (
            forall|id: u64| !old(library).episode_is(tv_id, s, e, id)) && unique_by(
                cast_links_of(ep.id, ep.credits.cast@),
                |l: CastLink| cast_key(l),
            ) && !links_cast_parent(old(library).tv.episode_casts@, ep.id) ==> final(self).result
                == ep.id && final(library).episode_is(tv_id, s, e, ep.id) && exists|
                ids: Seq<u64>,
                paths: Seq<String>,
            |
                distinct_cast_persons(ids, ep.credits.cast@) && views(paths) == image_of(
                    ep.still_path,
                ) && advances(
                    old(self).persons@ + ids,
                    old(self).images@ + paths,
                    old(self).episode_pending,
                    *final(library),
                    *final(self),
                    r,
                ))))),
            old(self).stage == Stage::Primary ==> (reply matches Reply::Person(p) ==> (old(self).target == Target::Person(p.id) ==> final(library).has_person(p.id) && exists|
                paths: Seq<String>,
            |
                advances(
                    old(self).persons@,
                    old(self).images@ + paths,
                    old(self).episode_pending,
                    *final(library),
                    *final(self),
                    r,
                ))),
    {
        let stage = self.stage;
        let ghost persons0 = self.persons@;
        let ghost images0 = self.images@;
        match reply {
            Reply::Failed(e) => {
                if stage == Stage::Person {
                    return self.next(library);
                }
                if stage == Stage::Parent {
                    let tv_id = match self.target {
                        Target::Episode(tv_id, _, _) => tv_id,
                        Target::Movie(id) => id,
                        Target::Tv(id) => id,
                        Target::Person(id) => id,
                    };
                    return self.fail(IngestError::Remote(Target::Tv(tv_id), e));
                }
                let t = self.target;
                self.fail(IngestError::Remote(t, e))
            },
            Reply::ImageStored => {
                if stage == Stage::Person || stage == Stage::Image {
                    return self.next(library);
                }
                self.fail(IngestError::Unexpected)
            },
            Reply::Movie(m) => {
                if stage != Stage::Primary || self.target != Target::Movie(m.id) {
                    if stage == Stage::Person {
                        return self.next(library);
                    }
                    return self.fail(IngestError::Unexpected);
                }
                match library.create_movie(&m) {
                    Ok((ids, paths)) => {
                        let ghost gi = ids@;
                        let ghost gp = paths@;
                        proof {
                            if !old(library).has_movie(m.id) {
                                assert(library.movie.movies@[library.movie.movies@.len() - 1].id
                                    == m.id);
                                lemma_image_of_nonempty(m.backdrop_path);
                                lemma_image_of_nonempty(m.poster_path);
                                lemma_concat_nonempty(image_of(m.backdrop_path), image_of(m.poster_path));
                            }
                        }
                        self.enqueue(ids, paths);
                        let r = self.next(library);
                        proof {
                            if old(library).has_movie(m.id) {
                                assert(persons0 + gi =~= persons0);
                                assert(images0 + gp =~= images0);
                            }
                        }
                        assert(advances(persons0 + gi, images0 + gp, old(self).episode_pending, *library, *self, r));
                        r
                    },
                    Err(e) => self.fail(IngestError::Store(e)),
                }
            },
            Reply::Tv(t) => {
                let wanted = match self.target {
                    Target::Tv(id) => stage == Stage::Primary && id == t.id,
                    Target::Episode(tv_id, _, _) => stage == Stage::Parent && tv_id == t.id,
                    _ => false,
                };
                if !wanted {
                    if stage == Stage::Person {
                        return self.next(library);
                    }
                    return self.fail(IngestError::Unexpected);
                }
                match library.create_tv(&t) {
                    Ok((ids, paths)) => {
                        let ghost gi = ids@;
                        let ghost gp = paths@;
                        proof {
                          if !old(library).has_tv(t.id) {
                            assert(library.tv.tvs@[library.tv.tvs@.len() - 1].id == t.id);
                            lemma_image_of_nonempty(t.backdrop_path);
                            lemma_image_of_nonempty(t.poster_path);
                            lemma_concat_nonempty(image_of(t.backdrop_path), image_of(t.poster_path));
                            lemma_season_images_nonempty(t.seasons@);
                            lemma_concat_nonempty(
                                image_of(t.backdrop_path) + image_of(t.poster_path),
                                season_images(t.seasons@),
                            );
                          }
                        }
                        self.enqueue(ids, paths);
                        let r = self.next(library);
                        proof {
                            if old(library).has_tv(t.id) {
                                assert(persons0 + gi =~= persons0);
                                assert(images0 + gp =~= images0);
                            }
                        }
                        assert(advances(persons0 + gi, images0 + gp, old(self).episode_pending, *library, *self, r));
                        r
                    },
                    Err(e) => self.fail(IngestError::Store(e)),
                }
            },
            Reply::Episode(ep) => {
                let (tv_id, s, e) = match self.target {
                    Target::Episode(tv_id, s, e) => {
                        if stage != Stage::Primary || ep.season_number != s || ep.episode_number
                            != e {
                            if stage == Stage::Person {
                                return self.next(library);
                            }
                            return self.fail(IngestError::Unexpected);
                        }
                        (tv_id, s, e)
                    },
                    _ => {
                        if stage == Stage::Person {
                            return self.next(library);
                        }
                        return self.fail(IngestError::Unexpected);
                    },
                };
                match library.create_episode(tv_id, &ep) {
                    Ok((ids, paths)) => {
                        let ghost gi = ids@;
                        let ghost gp = paths@;
                        proof {
                            lemma_image_of_nonempty(ep.still_path);
                            let season_id = choose|season_id: u64|
                                {
                                    &&& old(library).season_is(tv_id, ep.season_number, season_id)
                                    &&& library.tv.episodes@ == old(library).tv.episodes@.push(
                                        episode_row(tv_id, season_id, ep),
                                    )
                                };
                            assert(library.tv.episodes@[library.tv.episodes@.len() - 1].id == ep.id);
                        }
                        self.result = ep.id;
                        self.enqueue(ids, paths);
                        let r = self.next(library);
                        assert(advances(persons0 + gi, images0 + gp, old(self).episode_pending, *library, *self, r));
                        r
                    },
                    Err(StoreError::Constraint(Table::Episodes)) => {
                        match library.episode_exist(tv_id, s, e) {
                            Some(id) => {
                                proof {
                                    library.lemma_episode_unique(tv_id, s, e, id);
                                }
                                self.result = id;
                                self.next(library)
                            },
                            None => self.fail(IngestError::Store(StoreError::Constraint(Table::Episodes))),
                        }
                    },
                    Err(err) => self.fail(IngestError::Store(err)),
                }
            },
            Reply::Person(p) => {
                let wanted = match self.target {
                    Target::Person(id) => stage == Stage::Primary && id == p.id,
                    _ => false,
                };
                if !wanted && stage != Stage::Person {
                    return self.fail(IngestError::Unexpected);
                }
                match library.create_person(&p) {
                    Ok((_ids, paths)) => {
                        let ghost gp = paths@;
                        proof {
                            if !old(library).has_person(p.id) {
                                assert(library.persons@[library.persons@.len() - 1].id == p.id);
                                lemma_image_of_nonempty(p.profile_path);
                            }
                        }
                        self.enqueue(Vec::new(), paths);
                        let r = self.next(library);
                        assert(persons0 + Seq::<u64>::empty() =~= persons0);
                        assert(advances(persons0, images0 + gp, old(self).episode_pending, *library, *self, r));
                        r
                    },
                    Err(_) => {
                        let r = self.next(library);
                        assert(images0 + Seq::<String>::empty() =~= images0);
                        r
                    },
                }
            },
        }
    }
}

impl SqlLibrary {
    /// In a well-formed store, an episode's place names one id only.
    pub proof fn lemma_episode_unique(&self, tv_id: u64, s: u64, e: u64, id: u64)
        requires
            self.wf(),
            self.episode_is(tv_id, s, e, id),
        ensures
            forall|other: u64| self.episode_is(tv_id, s, e, other) ==> other == id,
    {
        assert forall|other: u64| self.episode_is(tv_id, s, e, other) implies other == id by {
            let i = choose|i: int|
                0 <= i < self.tv.episodes@.len() && self.tv.episodes@[i].tv_id == tv_id
                    && self.tv.episodes@[i].season_number == s
                    && self.tv.episodes@[i].episode_number == e && self.tv.episodes@[i].id == id;
            let j = choose|j: int|
                0 <= j < self.tv.episodes@.len() && self.tv.episodes@[j].tv_id == tv_id
                    && self.tv.episodes@[j].season_number == s
                    && self.tv.episodes@[j].episode_number == e && self.tv.episodes@[j].id == other;
            if i < j {
                assert(self.tv.episodes@[i].id != self.tv.episodes@[j].id || (
                self.tv.episodes@[i].tv_id,
                self.tv.episodes@[i].season_number,
                self.tv.episodes@[i].episode_number,
                ) != (
                self.tv.episodes@[j].tv_id,
                self.tv.episodes@[j].season_number,
                self.tv.episodes@[j].episode_number,
                ));
            } else if j < i {
                assert((
                self.tv.episodes@[j].tv_id,
                self.tv.episodes@[j].season_number,
                self.tv.episodes@[j].episode_number,
                ) != (
                self.tv.episodes@[i].tv_id,
                self.tv.episodes@[i].season_number,
                self.tv.episodes@[i].episode_number,
                ));
            }
        }
    }
}

} // verus!
