//! The menu board and the small service actions around it.
use vstd::prelude::*;

verus! {

/// A menu card: the bread on offer, over a house bread that the
/// kitchen keeps to itself.
pub struct Menu {
    /// The bread offered to the guest.
    pub toast: String,
    #[allow(dead_code)]
    secret_toast: String,
}

impl Menu {
    /// The bread on the card, as the guest reads it.
    pub closed spec fn spec_toast(&self) -> Seq<char> {
        self.toast@
    }
}

/// The appetizers on offer.
#[derive(Clone, Copy, PartialEq, Eq, Structural, Debug)]
pub enum Appetizer {
    Soup,
    Salad,
}

/// Writes the menu card for the given bread; the house bread is fixed.
pub fn make_menu(bread: &str) -> (m: Menu)
    ensures
        m.spec_toast() == bread@,
{
    Menu { toast: bread.to_owned(), secret_toast: "Sourdough".to_owned() }
}

/// Takes hold of the backpack; there is nothing to carry yet.
pub fn grab() {
}

/// Starts the engine; the engine needs no preparation.
pub fn start() {
}

} // verus!
