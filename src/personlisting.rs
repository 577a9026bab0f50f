//! Listing persons through a typed filter.

use vstd::prelude::*;
use crate::listing::plays_in;
use crate::query::{cmp_int, cmp_text, compare_int, compare_text, Operator};
use crate::store::{copy_text, CastLink, PersonRow, SqlLibrary};

verus! {

/// One condition on a person.
pub enum PersonFilter {
    Id(Operator, u64),
    Name(Operator, String),
    /// The person plays in the movie.
    InMovie(u64),
    /// The person plays in the tv show.
    InTv(u64),
}

/// A person listing under construction; every filter must hold.
pub struct PersonSearch {
    pub filters: Vec<PersonFilter>,
}

/// One line of a person listing.
pub struct PersonResult {
    pub id: u64,
    pub name: String,
    pub known_for_department: Option<String>,
    pub profile_path: Option<String>,
}

impl SqlLibrary {
    /// Whether a person row satisfies one filter.
    pub open spec fn person_matches(&self, row: PersonRow, f: PersonFilter) -> bool {
        match f {
            PersonFilter::Id(op, v) => cmp_int(op, row.id, v),
            PersonFilter::Name(op, t) => cmp_text(op, row.name@, t@),
            PersonFilter::InMovie(m) => plays_in(self.movie.casts@, m, row.id),
            PersonFilter::InTv(t) => plays_in(self.tv.casts@, t, row.id),
        }
    }

    pub open spec fn person_selected(&self, row: PersonRow, filters: Seq<PersonFilter>) -> bool {
        forall|i: int| 0 <= i < filters.len() ==> self.person_matches(row, #[trigger] filters[i])
    }

    /// The persons that satisfy every filter, in table order.
    pub open spec fn select_persons(&self, rows: Seq<PersonRow>, filters: Seq<PersonFilter>) -> Seq<
        PersonRow,
    >
        decreases rows.len(),
    {
        if rows.len() == 0 {
            Seq::<PersonRow>::empty()
        } else {
            let p = self.select_persons(rows.drop_last(), filters);
            if self.person_selected(rows.last(), filters) {
                p.push(rows.last())
            } else {
                p
            }
        }
    }
}

/// A listing line shows a person row.
pub open spec fn person_line(p: PersonResult, row: PersonRow) -> bool {
    &&& p.id == row.id
    &&& p.name == row.name
    &&& p.known_for_department == row.known_for_department
    &&& p.profile_path == row.profile_path
}

fn plays(casts: &Vec<CastLink>, parent: u64, person: u64) -> (r: bool)
    ensures
        r == plays_in(casts@, parent, person),
{
    let mut i: usize = 0;
    while i < casts.len()
        invariant
            i <= casts@.len(),
            forall|k: int|
                0 <= k < i ==> !(casts@[k].parent_id == parent && casts@[k].person_id == person),
        decreases casts@.len() - i,
    {
        if casts[i].parent_id == parent && casts[i].person_id == person {
            return true;
        }
        i = i + 1;
    }
    false
}

impl SqlLibrary {
    /// Whether a person row satisfies one filter.
    pub fn person_matches_filter(&self, row: &PersonRow, f: &PersonFilter) -> (r: bool)
        ensures
            r == self.person_matches(*row, *f),
    {
        match f {
            PersonFilter::Id(op, v) => compare_int(*op, row.id, *v),
            PersonFilter::Name(op, t) => compare_text(*op, &row.name, t),
            PersonFilter::InMovie(m) => plays(&self.movie.casts, *m, row.id),
            PersonFilter::InTv(t) => plays(&self.tv.casts, *t, row.id),
        }
    }

    /// The persons that satisfy every filter of a listing, in table order.
    pub fn get_persons(&self, search: &PersonSearch) -> (r: Vec<PersonResult>)
        ensures
            r@.len() == self.select_persons(self.persons@, search.filters@).len(),
            forall|i: int|
                0 <= i < r@.len() ==> person_line(
                    #[trigger] r@[i],
                    self.select_persons(self.persons@, search.filters@)[i],
                ),
    {
        let rows = &self.persons;
        let filters = &search.filters;
        let mut out: Vec<PersonResult> = Vec::new();
        let mut i: usize = 0;
        assert(rows@.subrange(0, 0) =~= Seq::<PersonRow>::empty());
        while i < rows.len()
            invariant
                rows@ == self.persons@,
                filters@ == search.filters@,
                i <= rows@.len(),
                out@.len() == self.select_persons(rows@.subrange(0, i as int), filters@).len(),
                forall|k: int|
                    0 <= k < out@.len() ==> person_line(
                        #[trigger] out@[k],
                        self.select_persons(rows@.subrange(0, i as int), filters@)[k],
                    ),
            decreases rows@.len() - i,
        {
            let ghost prev = self.select_persons(rows@.subrange(0, i as int), filters@);
            assert(rows@.subrange(0, i + 1).drop_last() =~= rows@.subrange(0, i as int));
            assert(rows@.subrange(0, i + 1).last() == rows@[i as int]);
            let row = &rows[i];
            let mut all = true;
            let mut j: usize = 0;
            while j < filters.len()
                invariant
                    j <= filters@.len(),
                    all == forall|q: int|
                        0 <= q < j ==> self.person_matches(*row, #[trigger] filters@[q]),
                decreases filters@.len() - j,
            {
                if !self.person_matches_filter(row, &filters[j]) {
                    all = false;
                }
                j = j + 1;
            }
            if all {
                out.push(
                    PersonResult {
                        id: row.id,
                        name: row.name.clone(),
                        known_for_department: copy_text(&row.known_for_department),
                        profile_path: copy_text(&row.profile_path),
                    },
                );
                assert(self.select_persons(rows@.subrange(0, i + 1), filters@) == prev.push(
                    rows@[i as int],
                ));
                assert forall|k: int| 0 <= k < out@.len() implies person_line(
                    #[trigger] out@[k],
                    self.select_persons(rows@.subrange(0, i + 1), filters@)[k],
                ) by {
                    if k < out@.len() - 1 {
                        assert(self.select_persons(rows@.subrange(0, i + 1), filters@)[k] == prev[k]);
                    }
                }
            }
            i = i + 1;
        }
        assert(rows@.subrange(0, rows@.len() as int) =~= rows@);
        out
    }
}

impl PersonSearch {
    /// A listing of every person.
    pub fn new() -> (r: PersonSearch)
        ensures
            r.filters@.len() == 0,
    {
        PersonSearch { filters: Vec::new() }
    }

    /// Adds a filter.
    pub fn find(&mut self, filter: PersonFilter)
        ensures
            final(self).filters@ == old(self).filters@.push(filter),
    {
        self.filters.push(filter);
    }

    /// Keeps the person with this id.
    pub fn id(&mut self, id: u64)
        ensures
            final(self).filters@ == old(self).filters@.push(PersonFilter::Id(Operator::Eq, id)),
    {
        self.filters.push(PersonFilter::Id(Operator::Eq, id));
    }

    /// The listing over a store.
    pub fn results(&self, library: &SqlLibrary) -> (r: Vec<PersonResult>)
        ensures
            r@.len() == library.select_persons(library.persons@, self.filters@).len(),
            forall|i: int|
                0 <= i < r@.len() ==> person_line(
                    #[trigger] r@[i],
                    library.select_persons(library.persons@, self.filters@)[i],
                ),
    {
        library.get_persons(self)
    }

    /// Whether the listing over a store is non-empty.
    pub fn exist(&self, library: &SqlLibrary) -> (r: bool)
        ensures
            r == (library.select_persons(library.persons@, self.filters@).len() > 0),
    {
        library.get_persons(self).len() > 0
    }
}

} // verus!
