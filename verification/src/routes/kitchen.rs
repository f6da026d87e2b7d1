//! A user's kitchen: the ingredients the user has at hand.

use vstd::prelude::*;
use crate::ids::{new_random_id, uuid_variant, uuid_version};
use crate::routes::ingredients::Ingredient;
use crate::reply::{Progress, Reply, StoreError};

verus! {

/// A request for the kitchen of `user_id`.
#[derive(Debug, PartialEq, Eq)]
pub struct GetKitchenData {
    pub user_id: u128,
}

/// A request that replaces the kitchen of `user_id` with `ingredients`.
#[derive(Debug, PartialEq, Eq)]
pub struct UpdateKitchenData {
    pub user_id: u128,
    pub ingredients: Vec<Ingredient>,
}

/// The row that puts one ingredient in a user's kitchen.
#[derive(Debug, PartialEq, Eq)]
pub struct KitchenRow {
    pub id: u128,
    pub user_id: u128,
    pub ingredient_id: u128,
}

/// Builds the row that puts `ingredient_id` in the kitchen of `user_id`,
/// under a fresh identifier.
pub fn new_kitchen_row(user_id: u128, ingredient_id: u128) -> (row: KitchenRow)
    ensures
        row.user_id == user_id,
        row.ingredient_id == ingredient_id,
        uuid_version(row.id) == 4,
        uuid_variant(row.id) == 2,
{
    kitchen_row(new_random_id(), user_id, ingredient_id)
}

/// The row under identifier `id` that puts `ingredient_id` in the kitchen of
/// `user_id`.
pub fn kitchen_row(id: u128, user_id: u128, ingredient_id: u128) -> (row: KitchenRow)
    ensures
        row == (KitchenRow { id, user_id, ingredient_id }),
{
    KitchenRow { id, user_id, ingredient_id }
}

/// Stores a kitchen's ingredients one row at a time, stopping at the first
/// failure.
pub struct KitchenFiller {
    count: usize,
    next: usize,
}

impl KitchenFiller {
    /// The number of ingredients stored so far.
    pub closed spec fn stored(&self) -> nat {
        self.next as nat
    }

    /// The number of ingredients to store.
    pub closed spec fn count(&self) -> nat {
        self.count as nat
    }

    pub closed spec fn wf(&self) -> bool {
        self.next <= self.count
    }

    /// Starts storing `count` ingredients.
    pub fn new(count: usize) -> (r: Self)
        ensures
            r.wf(),
            r.count() == count,
            r.stored() == 0,
    {
        KitchenFiller { count, next: 0 }
    }

    pub open spec fn next_spec<E>(&self) -> Progress<E> {
        if self.stored() < self.count() {
            Progress::Next(self.stored() as usize)
        } else {
            Progress::Done
        }
    }

    /// The next ingredient to store, or `Done` when all are.
    pub fn next_step<E>(&self) -> (step: Progress<E>)
        requires
            self.wf(),
        ensures
            step == self.next_spec::<E>(),
            step is Done <==> self.stored() == self.count(),
            step matches Progress::Next(i) ==> i == self.stored() && i < self.count(),
            !(step is Failed),
    {
        if self.next < self.count {
            Progress::Next(self.next)
        } else {
            Progress::Done
        }
    }

    /// Records the outcome of storing the ingredient that `next_step` named:
    /// on success the following step is returned, a failure is handed back.
    /// When nothing was pending the outcome is ignored.
    pub fn record<E>(&mut self, outcome: Result<(), E>) -> (step: Progress<E>)
        requires
            old(self).wf(),
        ensures
            final(self).wf(),
            final(self).count() == old(self).count(),
            old(self).stored() >= old(self).count() ==> {
                &&& final(self).stored() == old(self).stored()
                &&& step is Done
            },
            old(self).stored() < old(self).count() ==> match outcome {
                Ok(()) => {
                    &&& final(self).stored() == old(self).stored() + 1
                    &&& step == final(self).next_spec::<E>()
                    &&& (step is Done <==> final(self).stored() == final(self).count())
                    &&& (step matches Progress::Next(i) ==> i == final(self).stored())
                },
                Err(e) => {
                    &&& final(self).stored() == old(self).stored()
                    &&& step == Progress::Failed(e)
                },
            },
    {
        if self.next >= self.count {
            return Progress::Done;
        }
        match outcome {
            Ok(()) => {
                self.next = self.next + 1;
                self.next_step()
            },
            Err(e) => Progress::Failed(e),
        }
    }
}

/// Filling a kitchen stores the ingredients in order and stops only when
/// every one is stored: while some remain, the next one asked for is the
/// first not yet stored, and `Done` comes exactly when all `count` are.
pub proof fn lemma_filler_stores_every_ingredient<E>(filler: KitchenFiller)
    requires
        filler.wf(),
    ensures
        filler.next_spec::<E>() is Done <==> filler.stored() == filler.count(),
        filler.next_spec::<E>() matches Progress::Next(i) ==> i == filler.stored() && i < filler.count(),
{
}

/// What has just happened while replacing a user's kitchen.
#[derive(Debug, PartialEq, Eq)]
pub enum UpdateKitchenEvent {
    /// The request arrived.
    Received,
    /// Emptying the user's kitchen gave this.
    KitchenEmptied(Result<(), StoreError>),
    /// Storing the new ingredients gave this.
    KitchenFilled(Result<(), StoreError>),
}

/// What to do next while replacing a user's kitchen.
#[derive(Debug, PartialEq, Eq)]
pub enum UpdateKitchenAction {
    EmptyKitchen,
    FillKitchen,
    Respond(Reply<()>),
}

/// The decisions of replacing a user's kitchen: empty it, then store the new
/// ingredients; 200 when both succeed, 500 as soon as one fails.
pub open spec fn update_kitchen_next(event: UpdateKitchenEvent) -> UpdateKitchenAction {
    match event {
        UpdateKitchenEvent::Received => UpdateKitchenAction::EmptyKitchen,
        UpdateKitchenEvent::KitchenEmptied(Ok(())) => UpdateKitchenAction::FillKitchen,
        UpdateKitchenEvent::KitchenEmptied(Err(_)) => UpdateKitchenAction::Respond(Reply::InternalError),
        UpdateKitchenEvent::KitchenFilled(Ok(())) => UpdateKitchenAction::Respond(Reply::Success),
        UpdateKitchenEvent::KitchenFilled(Err(_)) => UpdateKitchenAction::Respond(Reply::InternalError),
    }
}

/// The next step of replacing a user's kitchen after `event`.
pub fn update_kitchen_step(event: UpdateKitchenEvent) -> (action: UpdateKitchenAction)
    ensures
        action == update_kitchen_next(event),
{
    match event {
        UpdateKitchenEvent::Received => UpdateKitchenAction::EmptyKitchen,
        UpdateKitchenEvent::KitchenEmptied(Ok(())) => UpdateKitchenAction::FillKitchen,
        UpdateKitchenEvent::KitchenEmptied(Err(_)) => UpdateKitchenAction::Respond(Reply::InternalError),
        UpdateKitchenEvent::KitchenFilled(Ok(())) => UpdateKitchenAction::Respond(Reply::Success),
        UpdateKitchenEvent::KitchenFilled(Err(_)) => UpdateKitchenAction::Respond(Reply::InternalError),
    }
}

/// `event` is a possible outcome of carrying out `action`.
pub open spec fn update_kitchen_answers(action: UpdateKitchenAction, event: UpdateKitchenEvent) -> bool {
    match action {
        UpdateKitchenAction::EmptyKitchen => event is KitchenEmptied,
        UpdateKitchenAction::FillKitchen => event is KitchenFilled,
        UpdateKitchenAction::Respond(_) => false,
    }
}

/// A run of the handler: it starts when the request arrives, and each later
/// event is the outcome of the action decided on the event before it.
pub open spec fn update_kitchen_run(events: Seq<UpdateKitchenEvent>) -> bool {
    &&& events.len() > 0
    &&& events[0] is Received
    &&& forall|i: int|
        0 <= i < events.len() - 1 ==> update_kitchen_answers(#[trigger] update_kitchen_next(events[i]), events[i + 1])
}

/// The new ingredients are stored only into an emptied kitchen: in every
/// run, the kitchen is filled only right after emptying it succeeded, and a
/// success is answered only after both steps succeeded.
pub proof fn lemma_update_kitchen_fills_after_emptying(events: Seq<UpdateKitchenEvent>, k: int)
    requires
        update_kitchen_run(events),
        0 <= k < events.len(),
    ensures
        update_kitchen_next(events[k]) is FillKitchen ==> k == 1 && events[1] matches UpdateKitchenEvent::KitchenEmptied(Ok(_)),
        update_kitchen_next(events[k]) == UpdateKitchenAction::Respond(Reply::Success) ==> {
            &&& k == 2
            &&& events[1] matches UpdateKitchenEvent::KitchenEmptied(Ok(_))
            &&& events[2] matches UpdateKitchenEvent::KitchenFilled(Ok(_))
        },
    decreases k,
{
    if k > 0 {
        assert(update_kitchen_answers(update_kitchen_next(events[k - 1]), events[k]));
        if k > 1 {
            assert(update_kitchen_answers(update_kitchen_next(events[k - 2]), events[k - 1]));
        }
        if update_kitchen_next(events[k]) is Respond {
            lemma_update_kitchen_fills_after_emptying(events, k - 1);
        }
    }
}

} // verus!
