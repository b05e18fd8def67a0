use crate::clock::seconds_since_epoch;
use crate::ident::random_id;
use crate::item::{ItemId, ItemView};
use crate::store::{after_insert, insert_outcome, with_completed, InsertError, Store};
use vstd::prelude::*;

verus! {

/// The state of the list's one window: the store and the text that is being
/// typed into the entry field.
pub struct Session {
    pub store: Store,
    pub pending: String,
}

/// What a [`Session`] is: the map of its items and the pending text.
pub struct SessionView {
    pub store: Map<ItemId, ItemView>,
    pub pending: Seq<char>,
}

impl View for Session {
    type V = SessionView;

    open spec fn view(&self) -> SessionView {
        SessionView { store: self.store@, pending: self.pending@ }
    }
}

/// What the user did.
pub enum Action {
    /// The entry field now reads this text.
    SetText(String),
    /// The pending text is to become an item.
    Commit,
    /// The completion flag of this item is to be set to this value.
    Toggle(ItemId, bool),
    /// This item is to be deleted.
    Delete(ItemId),
}

/// What is to be done outside after an action was applied.
#[derive(Clone, Copy, Debug, PartialEq, Eq, Structural)]
pub enum Effect {
    /// Nothing: the store was not touched.
    Idle,
    /// The whole store is to be saved.
    Persist,
}

/// The state after a commit with the drawn identifier `id` at clock reading
/// `clock`: the pending text has become an item and the field is empty, or,
/// where no item was added, nothing has changed.
pub open spec fn committed(s: SessionView, id: ItemId, clock: Option<u64>) -> SessionView {
    SessionView {
        store: after_insert(s.store, id, clock, s.pending),
        pending: if insert_outcome(s.store, id, clock) is Ok {
            Seq::empty()
        } else {
            s.pending
        },
    }
}

/// The state after `action`; a commit draws `id` and reads `clock`.
pub open spec fn applied(s: SessionView, action: Action, id: ItemId, clock: Option<u64>)
    -> SessionView {
    match action {
        Action::SetText(text) => SessionView { store: s.store, pending: text@ },
        Action::Commit => committed(s, id, clock),
        Action::Toggle(target, value) => SessionView {
            store: with_completed(s.store, target, value),
            pending: s.pending,
        },
        Action::Delete(target) => SessionView { store: s.store.remove(target), pending: s.pending },
    }
}

/// What `action` asks of the outside: to save after a commit that added an
/// item, after a toggle that found its item, and after every deletion.
pub open spec fn effect_of(s: SessionView, action: Action, id: ItemId, clock: Option<u64>)
    -> Effect {
    match action {
        Action::SetText(_) => Effect::Idle,
        Action::Commit => if insert_outcome(s.store, id, clock) is Ok {
            Effect::Persist
        } else {
            Effect::Idle
        },
        Action::Toggle(target, _) => if s.store.contains_key(target) {
            Effect::Persist
        } else {
            Effect::Idle
        },
        Action::Delete(_) => Effect::Persist,
    }
}

impl Session {
    /// A session on `store`, with an empty entry field.
    pub fn new(store: Store) -> (session: Session)
        ensures
            session@ == (SessionView { store: store@, pending: Seq::empty() }),
    {
        Session { store, pending: String::new() }
    }

    /// Replaces the pending text.
    pub fn set_text(&mut self, text: String)
        ensures
            final(self)@ == (SessionView { store: old(self)@.store, pending: text@ }),
    {
        self.pending = text;
    }

    /// Turns the pending text, empty or not, into an item under the drawn
    /// identifier `id`, created at `clock`, and empties the field. Where no
    /// item is added, the text stays.
    pub fn commit_with(&mut self, id: ItemId, clock: Option<u64>) -> (added: Result<
        ItemId,
        InsertError,
    >)
        ensures
            added == insert_outcome(old(self)@.store, id, clock),
            final(self)@ == committed(old(self)@, id, clock),
    {
        let text = self.pending.clone();
        let added = self.store.insert_with(id, clock, text);
        if added.is_ok() {
            self.pending = String::new();
        }
        added
    }

    /// Turns the pending text into an item, under a freshly drawn random
    /// identifier and with the current time: a commit with some drawn
    /// identifier and some clock reading.
    pub fn commit(&mut self) -> (added: Result<ItemId, InsertError>)
        ensures
            exists|id: ItemId, clock: Option<u64>|
                added == insert_outcome(old(self)@.store, id, clock) && final(self)@ == committed(
                    old(self)@,
                    id,
                    clock,
                ),
    {
        let clock = seconds_since_epoch();
        let id = random_id();
        let added = self.commit_with(id, clock);
        assert(added == insert_outcome(old(self)@.store, id, clock) && self@ == committed(
            old(self)@,
            id,
            clock,
        ));
        added
    }

    /// Sets the completion flag of an item. Says whether the item exists.
    pub fn toggle(&mut self, id: ItemId, value: bool) -> (found: bool)
        ensures
            found == old(self)@.store.contains_key(id),
            final(self)@ == applied(old(self)@, Action::Toggle(id, value), 0, None),
    {
        self.store.set_completed(id, value)
    }

    /// Deletes an item. Says whether the item existed.
    pub fn delete(&mut self, id: ItemId) -> (removed: bool)
        ensures
            removed == old(self)@.store.contains_key(id),
            final(self)@ == applied(old(self)@, Action::Delete(id), 0, None),
    {
        self.store.remove(id)
    }

    /// Applies `action`, where a commit uses the drawn identifier `id` and
    /// the clock reading `clock`, and says what is to be done outside.
    pub fn apply_with(&mut self, action: Action, id: ItemId, clock: Option<u64>) -> (effect: Effect)
        ensures
            final(self)@ == applied(old(self)@, action, id, clock),
            effect == effect_of(old(self)@, action, id, clock),
    {
        match action {
            Action::SetText(text) => {
                self.set_text(text);
                Effect::Idle
            },
            Action::Commit => {
                if self.commit_with(id, clock).is_ok() {
                    Effect::Persist
                } else {
                    Effect::Idle
                }
            },
            Action::Toggle(target, value) => {
                if self.toggle(target, value) {
                    Effect::Persist
                } else {
                    Effect::Idle
                }
            },
            Action::Delete(target) => {
                self.delete(target);
                Effect::Persist
            },
        }
    }

    /// Applies `action` and says what is to be done outside. A commit draws
    /// a random identifier and reads the clock.
    pub fn apply(&mut self, action: Action) -> (effect: Effect)
        ensures
            exists|id: ItemId, clock: Option<u64>|
                final(self)@ == applied(old(self)@, action, id, clock) && effect == effect_of(
                    old(self)@,
                    action,
                    id,
                    clock,
                ),
    {
        let (id, clock) = match action {
            Action::Commit => (random_id(), seconds_since_epoch()),
            _ => (0, None),
        };
        let effect = self.apply_with(action, id, clock);
        assert(self@ == applied(old(self)@, action, id, clock) && effect == effect_of(
            old(self)@,
            action,
            id,
            clock,
        ));
        effect
    }
}

} // verus!
