//! Collections: named lists that users make.

use vstd::prelude::*;
use crate::store::{CollectionRow, SqlLibrary, StoreError, Table};

verus! {

/// A collection as a user sees it.
pub struct Collection {
    pub user: String,
    pub id: u64,
    pub name: String,
    pub description: String,
    pub creator: String,
    pub creation_date: String,
    pub poster_path: String,
}

/// One line of a collection listing.
pub struct CollectionResult {
    pub user: String,
    pub id: u64,
    pub name: String,
    pub creator: String,
    pub creation_date: String,
    pub poster_path: String,
}

/// `c` shows row `r` to `user`.
pub open spec fn shows(c: Collection, r: CollectionRow, user: String) -> bool {
    &&& c.user == user
    &&& c.id == r.id
    &&& c.name == r.name
    &&& c.description == r.description
    &&& c.creator == r.creator
    &&& c.creation_date == r.creation_date
    &&& c.poster_path == r.poster_path
}

pub open spec fn row_of(c: Collection) -> CollectionRow {
    CollectionRow {
        id: c.id,
        name: c.name,
        description: c.description,
        creator: c.creator,
        creation_date: c.creation_date,
        poster_path: c.poster_path,
    }
}

/// The rows of `rows` without the one of id `id`, in order.
pub open spec fn without_id(rows: Seq<CollectionRow>, id: u64) -> Seq<CollectionRow>
    decreases rows.len(),
{
    if rows.len() == 0 {
        rows
    } else {
        let p = without_id(rows.drop_last(), id);
        if rows.last().id == id {
            p
        } else {
            p.push(rows.last())
        }
    }
}

/// Rows kept by `without_id` come from the table and keep their ids apart.
pub proof fn lemma_without_id(rows: Seq<CollectionRow>, id: u64)
    ensures
        forall|k: int|
            0 <= k < without_id(rows, id).len() ==> (#[trigger] without_id(rows, id)[k]).id != id
                && rows.contains(without_id(rows, id)[k]),
        forall|i: int| 0 <= i < rows.len() && rows[i].id != id ==> without_id(rows, id).contains(
            #[trigger] rows[i],
        ),
        without_id(rows, id).len() <= rows.len(),
    decreases rows.len(),
{
    if rows.len() > 0 {
        let init = rows.drop_last();
        lemma_without_id(init, id);
        let p = without_id(init, id);
        let cur = without_id(rows, id);
        assert forall|k: int| 0 <= k < cur.len() implies (#[trigger] cur[k]).id != id
            && rows.contains(cur[k]) by {
            if k < p.len() {
                assert(cur[k] == p[k]);
                let m = choose|m: int| 0 <= m < init.len() && init[m] == p[k];
                assert(rows[m] == init[m]);
            } else {
                assert(rows[rows.len() - 1] == rows.last());
            }
        }
        assert forall|i: int| 0 <= i < rows.len() && rows[i].id != id implies cur.contains(
            #[trigger] rows[i],
        ) by {
            if i < init.len() {
                assert(init[i] == rows[i]);
                let m = choose|m: int| 0 <= m < p.len() && p[m] == init[i];
                assert(cur[m] == p[m]);
            } else {
                assert(cur[cur.len() - 1] == rows.last());
            }
        }
    }
}

fn copy_row(r: &CollectionRow) -> (c: CollectionRow)
    ensures
        c == *r,
{
    CollectionRow {
        id: r.id,
        name: r.name.clone(),
        description: r.description.clone(),
        creator: r.creator.clone(),
        creation_date: r.creation_date.clone(),
        poster_path: r.poster_path.clone(),
    }
}

impl SqlLibrary {
    pub open spec fn has_collection(&self, id: u64) -> bool {
        exists|i: int| 0 <= i < self.collections.rows@.len() && self.collections.rows@[i].id == id
    }

    /// The store holds this collection row.
    pub open spec fn collection_is(&self, r: CollectionRow) -> bool {
        exists|i: int| 0 <= i < self.collections.rows@.len() && self.collections.rows@[i] == r
    }

    /// A new, empty collection named `name`, made by `user` on
    /// `creation_date`, under a fresh id.
    pub fn create_collection(&mut self, user: &String, name: String, creation_date: String) -> (r:
        Collection)
        requires
            old(self).wf(),
            old(self).collections.next_id < u64::MAX,
        ensures
            final(self).wf(),
            r.id == old(self).collections.next_id,
            final(self).collections.next_id == r.id + 1,
            final(self).collections.rows@ == old(self).collections.rows@.push(row_of(r)),
            r.user == *user && r.name == name && r.creator == *user && r.creation_date
                == creation_date,
            r.description@.len() == 0 && r.poster_path@.len() == 0,
            final(self).movie == old(self).movie,
            final(self).tv == old(self).tv,
            final(self).persons == old(self).persons,
            final(self).video == old(self).video,
    {
        let id = self.collections.next_id;
        let c = Collection {
            user: user.clone(),
            id,
            name,
            description: String::new(),
            creator: user.clone(),
            creation_date,
            poster_path: String::new(),
        };
        let ghost before = self.collections.rows@;
        self.collections.rows.push(
            CollectionRow {
                id,
                name: c.name.clone(),
                description: c.description.clone(),
                creator: c.creator.clone(),
                creation_date: c.creation_date.clone(),
                poster_path: c.poster_path.clone(),
            },
        );
        self.collections.next_id = id + 1;
        assert forall|a: int, b: int|
            #![trigger self.collections.rows@[a], self.collections.rows@[b]]
            0 <= a < b < self.collections.rows@.len() implies self.collections.rows@[a].id
            != self.collections.rows@[b].id by {
            assert(self.collections.rows@[a] == before[a]);
            if b < before.len() {
                assert(self.collections.rows@[b] == before[b]);
            }
        }
        assert forall|i: int| 0 <= i < self.collections.rows@.len() implies #[trigger] self.collections.rows@[i].id
            < self.collections.next_id by {
            if i < before.len() {
                assert(self.collections.rows@[i] == before[i]);
            }
        }
        c
    }

    /// The collection with this id, as `user` sees it, if the store holds it.
    pub fn get_collection(&self, user: &String, collection_id: u64) -> (r: Option<Collection>)
        ensures
            r is None <==> !self.has_collection(collection_id),
            r matches Some(c) ==> c.id == collection_id && exists|i: int|
                0 <= i < self.collections.rows@.len() && shows(
                    c,
                    #[trigger] self.collections.rows@[i],
                    *user,
                ),
    {
        let mut i: usize = 0;
        while i < self.collections.rows.len()
            invariant
                i <= self.collections.rows@.len(),
                forall|k: int| 0 <= k < i ==> self.collections.rows@[k].id != collection_id,
            decreases self.collections.rows@.len() - i,
        {
            let row = &self.collections.rows[i];
            if row.id == collection_id {
                let c = Collection {
                    user: user.clone(),
                    id: row.id,
                    name: row.name.clone(),
                    description: row.description.clone(),
                    creator: row.creator.clone(),
                    creation_date: row.creation_date.clone(),
                    poster_path: row.poster_path.clone(),
                };
                assert(shows(c, self.collections.rows@[i as int], *user));
                return Some(c);
            }
            i = i + 1;
        }
        None
    }

    /// Every collection, in the order they were stored, as `user` sees them.
    pub fn get_collections(&self, user: &String) -> (r: Vec<CollectionResult>)
        ensures
            r@.len() == self.collections.rows@.len(),
            forall|i: int|
                0 <= i < r@.len() ==> {
                    let c = #[trigger] r@[i];
                    let row = self.collections.rows@[i];
                    &&& c.user == *user
                    &&& c.id == row.id
                    &&& c.name == row.name
                    &&& c.creator == row.creator
                    &&& c.creation_date == row.creation_date
                    &&& c.poster_path == row.poster_path
                },
    {
        let mut out: Vec<CollectionResult> = Vec::new();
        let mut i: usize = 0;
        while i < self.collections.rows.len()
            invariant
                i <= self.collections.rows@.len(),
                out@.len() == i,
                forall|k: int|
                    0 <= k < i ==> {
                        let c = #[trigger] out@[k];
                        let row = self.collections.rows@[k];
                        &&& c.user == *user
                        &&& c.id == row.id
                        &&& c.name == row.name
                        &&& c.creator == row.creator
                        &&& c.creation_date == row.creation_date
                        &&& c.poster_path == row.poster_path
                    },
            decreases self.collections.rows@.len() - i,
        {
            let row = &self.collections.rows[i];
            out.push(
                CollectionResult {
                    user: user.clone(),
                    id: row.id,
                    name: row.name.clone(),
                    creator: row.creator.clone(),
                    creation_date: row.creation_date.clone(),
                    poster_path: row.poster_path.clone(),
                },
            );
            i = i + 1;
        }
        out
    }

    /// Stores a collection under its id, replacing the row that had that id
    /// or adding one; returns it as `user` sees it. Fresh ids are given out
    /// past it from then on; the largest id is refused.
    pub fn update_collection(&mut self, user: &String, collection: &Collection) -> (r: Result<
        Collection,
        StoreError,
    >)
        requires
            old(self).wf(),
        ensures
            final(self).wf(),
            r is Err <==> collection.id == u64::MAX,
            r is Err ==> *final(self) == *old(self) && r == Err::<Collection, StoreError>(
                StoreError::Constraint(Table::Collections),
            ),
            r is Ok ==> final(self).collections.next_id == if collection.id < old(
                self,
            ).collections.next_id {
                old(self).collections.next_id
            } else {
                (collection.id + 1) as u64
            },
            r matches Ok(c) ==> shows(c, row_of(*collection), *user),
            r is Ok ==> final(self).collection_is(row_of(*collection)),
            r is Ok ==> forall|i: int|
                0 <= i < old(self).collections.rows@.len() && old(self).collections.rows@[i].id
                    != collection.id ==> #[trigger] final(self).collection_is(
                    old(self).collections.rows@[i],
                ),
            r is Ok ==> forall|i: int|
                #![trigger final(self).collections.rows@[i]]
                0 <= i < final(self).collections.rows@.len() ==> final(self).collections.rows@[i]
                    == row_of(*collection) || old(self).collections.rows@.contains(
                    final(self).collections.rows@[i],
                ),
            final(self).movie == old(self).movie,
            final(self).tv == old(self).tv,
            final(self).persons == old(self).persons,
            final(self).video == old(self).video,
    {
        if collection.id == u64::MAX {
            return Err(StoreError::Constraint(Table::Collections));
        }
        if collection.id >= self.collections.next_id {
            self.collections.next_id = collection.id + 1;
        }
        let row = CollectionRow {
            id: collection.id,
            name: collection.name.clone(),
            description: collection.description.clone(),
            creator: collection.creator.clone(),
            creation_date: collection.creation_date.clone(),
            poster_path: collection.poster_path.clone(),
        };
        let ghost start = self.collections.rows@;
        self.remove_collection(collection.id);
        let ghost kept = self.collections.rows@;
        proof {
            lemma_without_id(start, collection.id);
        }
        self.collections.rows.push(copy_row(&row));
        assert(self.collections.rows@[kept.len() as int] == row);
        assert forall|a: int, b: int|
            #![trigger self.collections.rows@[a], self.collections.rows@[b]]
            0 <= a < b < self.collections.rows@.len() implies self.collections.rows@[a].id
            != self.collections.rows@[b].id by {
            assert(self.collections.rows@[a] == kept[a]);
            if b < kept.len() {
                assert(self.collections.rows@[b] == kept[b]);
            }
        }
        assert forall|i: int| 0 <= i < self.collections.rows@.len() implies #[trigger] self.collections.rows@[i].id
            < self.collections.next_id by {
            if i < kept.len() {
                assert(self.collections.rows@[i] == kept[i]);
                let m = choose|m: int| 0 <= m < start.len() && start[m] == kept[i];
            }
        }
        assert forall|i: int|
            0 <= i < start.len() && start[i].id != collection.id implies #[trigger] self.collection_is(
            start[i],
        ) by {
            assert(kept.contains(start[i]));
            let m = choose|m: int| 0 <= m < kept.len() && kept[m] == start[i];
            assert(self.collections.rows@[m] == kept[m]);
        }
        assert forall|i: int| 0 <= i < self.collections.rows@.len() implies (
        #[trigger] self.collections.rows@[i] == row_of(*collection) || start.contains(
            self.collections.rows@[i],
        )) by {
            if i < kept.len() {
                assert(self.collections.rows@[i] == kept[i]);
            }
        }
        Ok(
            Collection {
                user: user.clone(),
                id: row.id,
                name: row.name,
                description: row.description,
                creator: row.creator,
                creation_date: row.creation_date,
                poster_path: row.poster_path,
            },
        )
    }

    /// Takes the collection with this id out of the store, if it holds one.
    fn remove_collection(&mut self, collection_id: u64)
        requires
            old(self).wf(),
        ensures
            final(self).collections.rows@ == without_id(old(self).collections.rows@, collection_id),
            final(self).collections.next_id == old(self).collections.next_id,
            unique_by_id(final(self).collections.rows@),
            final(self).movie == old(self).movie,
            final(self).tv == old(self).tv,
            final(self).persons == old(self).persons,
            final(self).video == old(self).video,
    {
        let ghost start = self.collections.rows@;
        let mut kept: Vec<CollectionRow> = Vec::new();
        let mut i: usize = 0;
        assert(start.subrange(0, 0) =~= Seq::<CollectionRow>::empty());
        while i < self.collections.rows.len()
            invariant
                self.collections.rows@ == start,
                i <= start.len(),
                kept@ == without_id(start.subrange(0, i as int), collection_id),
            decreases start.len() - i,
        {
            assert(start.subrange(0, i + 1).drop_last() =~= start.subrange(0, i as int));
            assert(start.subrange(0, i + 1).last() == start[i as int]);
            if self.collections.rows[i].id != collection_id {
                kept.push(copy_row(&self.collections.rows[i]));
            }
            i = i + 1;
        }
        assert(start.subrange(0, start.len() as int) =~= start);
        proof {
            lemma_without_id(start, collection_id);
            assert forall|a: int, b: int| 0 <= a < b < kept@.len() implies #[trigger] kept@[a].id
                != #[trigger] kept@[b].id by {
                lemma_without_id_order(start, collection_id, a, b);
            }
        }
        self.collections.rows = kept;
    }

    /// Deletes the collection with this id; one the store does not hold
    /// changes nothing.
    pub fn delete_collection(&mut self, collection_id: u64)
        requires
            old(self).wf(),
        ensures
            final(self).wf(),
            !final(self).has_collection(collection_id),
            final(self).collections.rows@ == without_id(old(self).collections.rows@, collection_id),
            final(self).collections.next_id == old(self).collections.next_id,
            final(self).movie == old(self).movie,
            final(self).tv == old(self).tv,
            final(self).persons == old(self).persons,
            final(self).video == old(self).video,
    {
        let ghost start = self.collections.rows@;
        self.remove_collection(collection_id);
        proof {
            lemma_without_id(start, collection_id);
            assert forall|i: int| 0 <= i < self.collections.rows@.len() implies #[trigger] self.collections.rows@[i].id
                < self.collections.next_id by {
                let m = choose|m: int| 0 <= m < start.len() && start[m] == self.collections.rows@[i];
            }
        }
    }
}

pub open spec fn unique_by_id(rows: Seq<CollectionRow>) -> bool {
    forall|a: int, b: int| 0 <= a < b < rows.len() ==> #[trigger] rows[a].id != #[trigger] rows[b].id
}

/// Rows that `without_id` keeps come in table order and, in a table of
/// distinct ids, keep distinct ids.
pub proof fn lemma_without_id_order(rows: Seq<CollectionRow>, id: u64, a: int, b: int)
    requires
        crate::store::unique_by(rows, |r: CollectionRow| r.id),
        0 <= a < b < without_id(rows, id).len(),
    ensures
        without_id(rows, id)[a].id != without_id(rows, id)[b].id,
    decreases rows.len(),
{
    let init = rows.drop_last();
    let p = without_id(init, id);
    assert forall|x: int, y: int|
        #![trigger init[x], init[y]]
        0 <= x < y < init.len() implies init[x].id != init[y].id by {
        assert(init[x] == rows[x] && init[y] == rows[y]);
    }
    if b < p.len() {
        lemma_without_id_order(init, id, a, b);
    } else {
        lemma_without_id(init, id);
        let m = choose|m: int| 0 <= m < init.len() && init[m] == p[a];
        assert(rows[m] == init[m]);
        assert(rows[rows.len() - 1] == rows.last());
        assert(rows[m].id != rows[rows.len() - 1].id);
    }
}

} // verus!
