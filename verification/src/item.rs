use vstd::prelude::*;

verus! {

/// Identity of an item: the 128 bits of its universally unique identifier.
pub type ItemId = u128;

/// One to-do entry.
#[derive(Clone, Debug, PartialEq, Eq)]
pub struct Item {
    pub id: ItemId,
    /// Seconds since the Unix epoch at which the item was created.
    pub created: u64,
    pub contents: String,
    pub completed: bool,
}

/// What an [`Item`] is, with its text as a sequence of characters.
pub struct ItemView {
    pub id: ItemId,
    pub created: u64,
    pub contents: Seq<char>,
    pub completed: bool,
}

impl View for Item {
    type V = ItemView;

    open spec fn view(&self) -> ItemView {
        ItemView {
            id: self.id,
            created: self.created,
            contents: self.contents@,
            completed: self.completed,
        }
    }
}

impl Item {
    /// A new, uncompleted item.
    pub fn new(id: ItemId, created: u64, contents: String) -> (item: Item)
        ensures
            item@ == (ItemView { id, created, contents: contents@, completed: false }),
    {
        Item { id, created, contents, completed: false }
    }

    /// A copy of the item, field for field.
    pub fn duplicate(&self) -> (copy: Item)
        ensures
            copy@ == self@,
    {
        Item {
            id: self.id,
            created: self.created,
            contents: self.contents.clone(),
            completed: self.completed,
        }
    }
}

} // verus!
