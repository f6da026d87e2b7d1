//! Ingredients: their forms, new ingredient rows, and the resolution of a
//! recipe's ingredient list to stored ingredient identifiers.

use vstd::prelude::*;
use std::collections::HashMap;
use crate::ids::{new_random_id, uuid_variant, uuid_version};
use crate::reply::Progress;

verus! {

broadcast use vstd::std_specs::hash::group_hash_axioms;

/// One ingredient line of a recipe. The quantity is an `f32` held by its bit
/// pattern (`f32::to_bits`), which the library carries but never computes on.
#[derive(Debug, PartialEq, Eq)]
pub struct IngredientData {
    pub name: String,
    pub quantity_bits: u32,
    pub unit: String,
    pub required: bool,
}

/// A stored ingredient: its identifier and its name.
#[derive(Debug, PartialEq, Eq)]
pub struct Ingredient {
    pub id: u128,
    pub name: String,
}

/// Builds the row for a new ingredient: a fresh identifier and the name of
/// the ingredient line.
pub fn new_ingredient_row(form: &IngredientData) -> (row: Ingredient)
    ensures
        row.name@ == form.name@,
        uuid_version(row.id) == 4,
        uuid_variant(row.id) == 2,
{
    ingredient_row(form, new_random_id())
}

/// The row under identifier `id` for a new ingredient named as the line.
pub fn ingredient_row(form: &IngredientData, id: u128) -> (row: Ingredient)
    ensures
        row.id == id,
        row.name@ == form.name@,
{
    Ingredient { id, name: form.name.clone() }
}

/// What to do with an ingredient line after looking its name up.
#[derive(Debug, PartialEq, Eq)]
pub enum IngredientLookup<E> {
    /// An ingredient of that name is stored under this identifier.
    Existing(u128),
    /// No ingredient has that name: store a new one.
    Missing,
    /// The lookup failed with this error.
    Failed(E),
}

/// Reads the outcome of looking an ingredient's name up: an existing
/// identifier is used as it is, a missing ingredient is to be inserted, and a
/// failed lookup is passed on.
pub fn add_ingredient_db_step<E>(lookup: Result<Option<u128>, E>) -> (next: IngredientLookup<E>)
    ensures
        match lookup {
            Ok(Some(id)) => next == IngredientLookup::<E>::Existing(id),
            Ok(None) => next is Missing,
            Err(e) => next == IngredientLookup::Failed(e),
        },
{
    match lookup {
        Ok(Some(id)) => IngredientLookup::Existing(id),
        Ok(None) => IngredientLookup::Missing,
        Err(e) => IngredientLookup::Failed(e),
    }
}

/// The map from ingredient identifiers to ingredient lines that resolving the
/// lines gives, when line `i` resolved to `ids[i]`: each identifier maps to the
/// last line that resolved to it (a later line with the same identifier
/// replaces an earlier one).
pub open spec fn ids_to_lines(ids: Seq<u128>) -> Map<u128, usize>
    decreases ids.len(),
{
    if ids.len() == 0 {
        Map::empty()
    } else {
        ids_to_lines(ids.drop_last()).insert(ids.last(), (ids.len() - 1) as usize)
    }
}

/// Resolves a recipe's ingredient lines one by one to stored identifiers,
/// and collects the map from identifier to line.
pub struct IngredientResolver {
    count: usize,
    next: usize,
    ids: HashMap<u128, usize>,
    resolved: Ghost<Seq<u128>>,
}

impl IngredientResolver {
    /// The identifiers that the lines resolved to so far, in line order.
    pub closed spec fn resolved(&self) -> Seq<u128> {
        self.resolved@
    }

    /// The number of lines to resolve.
    pub closed spec fn count(&self) -> nat {
        self.count as nat
    }

    pub closed spec fn wf(&self) -> bool {
        &&& self.next == self.resolved@.len()
        &&& self.next <= self.count
        &&& self.ids@ == ids_to_lines(self.resolved@)
    }

    /// Starts resolving `count` lines.
    pub fn new(count: usize) -> (r: Self)
        ensures
            r.wf(),
            r.count() == count,
            r.resolved() == Seq::<u128>::empty(),
    {
        IngredientResolver { count, next: 0, ids: HashMap::new(), resolved: Ghost(Seq::empty()) }
    }

    pub open spec fn next_spec<E>(&self) -> Progress<E> {
        if self.resolved().len() < self.count() {
            Progress::Next(self.resolved().len() as usize)
        } else {
            Progress::Done
        }
    }

    /// The next line to resolve, or `Done` when all are.
    pub fn next_step<E>(&self) -> (step: Progress<E>)
        requires
            self.wf(),
        ensures
            step == self.next_spec::<E>(),
            step is Done <==> self.resolved().len() == self.count(),
            step matches Progress::Next(i) ==> i == self.resolved().len() && i < self.count(),
            !(step is Failed),
    {
        if self.next < self.count {
            Progress::Next(self.next)
        } else {
            Progress::Done
        }
    }

    /// Records the outcome of resolving the line that `next_step` named: on
    /// success the line's identifier is recorded and the following step is
    /// returned; a failure is handed back, and nothing is recorded. When no
    /// line was pending the outcome is ignored.
    pub fn record<E>(&mut self, outcome: Result<u128, E>) -> (step: Progress<E>)
        requires
            old(self).wf(),
        ensures
            final(self).wf(),
            final(self).count() == old(self).count(),
            old(self).resolved().len() >= old(self).count() ==> {
                &&& final(self).resolved() == old(self).resolved()
                &&& step is Done
            },
            old(self).resolved().len() < old(self).count() ==> match outcome {
                Ok(id) => {
                    &&& final(self).resolved() == old(self).resolved().push(id)
                    &&& step == final(self).next_spec::<E>()
                    &&& (step is Done <==> final(self).resolved().len() == final(self).count())
                    &&& (step matches Progress::Next(i) ==> i == final(self).resolved().len())
                },
                Err(e) => {
                    &&& final(self).resolved() == old(self).resolved()
                    &&& step == Progress::Failed(e)
                },
            },
    {
        if self.next >= self.count {
            return Progress::Done;
        }
        match outcome {
            Ok(id) => {
                let line = self.next;
                self.ids.insert(id, line);
                self.next = self.next + 1;
                self.resolved = Ghost(self.resolved@.push(id));
                proof {
                    assert(self.resolved@.drop_last() =~= old(self).resolved@);
                }
                self.next_step()
            },
            Err(e) => Progress::Failed(e),
        }
    }

    /// The map from each resolved identifier to the last line that resolved
    /// to it.
    pub fn into_ids(self) -> (ids: HashMap<u128, usize>)
        requires
            self.wf(),
        ensures
            ids@ == ids_to_lines(self.resolved()),
            forall|id: u128| #[trigger] ids@.contains_key(id) ==> ids@[id] < self.count(),
            ids@.dom() == self.resolved().to_set(),
            forall|i: int| 0 <= i < self.resolved().len() ==> ids@.contains_key(#[trigger] self.resolved()[i]),
    {
        proof {
            lemma_ids_to_lines(self.resolved@);
        }
        self.ids
    }
}

/// Resolving asks for the lines in order and stops only when every line is
/// resolved: while lines remain, the next one asked for is the first line not
/// yet resolved, and `Done` comes exactly when all `count` lines are.
pub proof fn lemma_resolver_resolves_every_line<E>(resolver: IngredientResolver)
    requires
        resolver.wf(),
    ensures
        resolver.next_spec::<E>() is Done <==> resolver.resolved().len() == resolver.count(),
        resolver.next_spec::<E>() matches Progress::Next(i) ==> i == resolver.resolved().len() && i < resolver.count(),
{
}

/// Every resolved identifier is a key of the map, and each key maps to the
/// last line that resolved to it.
pub proof fn lemma_ids_to_lines(ids: Seq<u128>)
    requires
        ids.len() <= usize::MAX,
    ensures
        ids_to_lines(ids).dom() == ids.to_set(),
        forall|id: u128| #[trigger] ids_to_lines(ids).contains_key(id) ==> {
            let line = ids_to_lines(ids)[id] as int;
            &&& 0 <= line < ids.len()
            &&& ids[line] == id
            &&& forall|j: int| line < j < ids.len() ==> ids[j] != id
        },
    decreases ids.len(),
{
    if ids.len() > 0 {
        lemma_ids_to_lines(ids.drop_last());
        assert(ids.drop_last().push(ids.last()) =~= ids);
        assert(ids_to_lines(ids).dom() =~= ids.to_set()) by {
            assert forall|x: u128| ids.to_set().contains(x) implies ids_to_lines(ids).dom().contains(x) by {
                let j = choose|j: int| 0 <= j < ids.len() && ids[j] == x;
                if j < ids.len() - 1 {
                    assert(ids.drop_last()[j] == x);
                    assert(ids.drop_last().to_set().contains(x));
                }
            }
            assert forall|x: u128| ids_to_lines(ids).dom().contains(x) implies ids.to_set().contains(x) by {
                if x != ids.last() {
                    assert(ids.drop_last().to_set().contains(x));
                    let j = choose|j: int| 0 <= j < ids.drop_last().len() && ids.drop_last()[j] == x;
                    assert(ids[j] == x);
                } else {
                    assert(ids[ids.len() - 1] == x);
                }
            }
        }
        let prev = ids.drop_last();
        assert forall|id: u128| #[trigger] ids_to_lines(ids).contains_key(id) implies {
            let line = ids_to_lines(ids)[id] as int;
            &&& 0 <= line < ids.len()
            &&& ids[line] == id
            &&& forall|j: int| line < j < ids.len() ==> ids[j] != id
        } by {
            assert(ids_to_lines(ids) == ids_to_lines(prev).insert(ids.last(), (ids.len() - 1) as usize));
            if id != ids.last() {
                assert(ids_to_lines(prev).contains_key(id));
                assert(ids_to_lines(ids)[id] == ids_to_lines(prev)[id]);
                let line = ids_to_lines(prev)[id] as int;
                assert(ids[line] == prev[line]);
                assert forall|j: int| line < j < ids.len() implies ids[j] != id by {
                    if j < ids.len() - 1 {
                        assert(ids[j] == prev[j]);
                    }
                }
            }
        }
    } else {
        assert(ids_to_lines(ids).dom() =~= ids.to_set());
    }
}

} // verus!
