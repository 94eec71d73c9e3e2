use vstd::prelude::*;

verus! {

/// Closed set of card categories.
#[derive(Clone, Copy, Debug, PartialEq, Eq, Structural)]
pub enum Category {
    Bones,
    Organs,
}

impl Category {
    /// The stored string form of the category.
    pub open spec fn spec_str(self) -> Seq<char> {
        match self {
            Category::Bones => "BONES"@,
            Category::Organs => "ORGANS"@,
        }
    }

    pub fn as_str(&self) -> (r: &'static str)
        ensures
            r@ == self.spec_str(),
    {
        match self {
            Category::Bones => "BONES",
            Category::Organs => "ORGANS",
        }
    }
}

/// The category whose stored string form is `s`, if any.
pub open spec fn spec_category_of(s: Seq<char>) -> Option<Category> {
    if s == "BONES"@ {
        Some(Category::Bones)
    } else if s == "ORGANS"@ {
        Some(Category::Organs)
    } else {
        None
    }
}

/// Parses the stored string form of a category.
pub fn category_of(s: &str) -> (r: Option<Category>)
    ensures
        r == spec_category_of(s@),
{
    let owned: String = s.to_owned();
    if owned == String::from_str("BONES") {
        Some(Category::Bones)
    } else if owned == String::from_str("ORGANS") {
        Some(Category::Organs)
    } else {
        None
    }
}

/// Role attached to a user, gating privileged operations.
#[derive(Clone, Copy, Debug, PartialEq, Eq, Structural)]
pub enum Role {
    User,
    Admin,
}

impl Role {
    /// The stored string form of the role.
    pub open spec fn spec_str(self) -> Seq<char> {
        match self {
            Role::User => "USER"@,
            Role::Admin => "ADMIN"@,
        }
    }

    pub fn as_str(&self) -> (r: &'static str)
        ensures
            r@ == self.spec_str(),
    {
        match self {
            Role::User => "USER",
            Role::Admin => "ADMIN",
        }
    }
}

/// Lifecycle status of a card. Transitions in this subsystem go from
/// `Pending` to `Approved` or `Rejected`.
#[derive(Clone, Copy, Debug, PartialEq, Eq, Structural)]
pub enum CardStatus {
    Pending,
    Approved,
    Rejected,
}

impl CardStatus {
    /// The stored string form of the status.
    pub open spec fn spec_str(self) -> Seq<char> {
        match self {
            CardStatus::Pending => "PENDING"@,
            CardStatus::Approved => "APPROVED"@,
            CardStatus::Rejected => "REJECTED"@,
        }
    }

    pub fn as_str(&self) -> (r: &'static str)
        ensures
            r@ == self.spec_str(),
    {
        match self {
            CardStatus::Pending => "PENDING",
            CardStatus::Approved => "APPROVED",
            CardStatus::Rejected => "REJECTED",
        }
    }
}

/// A flashcard content unit as dealt into game decks: the moderation
/// fields are left behind when a deck is copied out of the store.
#[derive(Debug)]
pub struct Card {
    pub id: i64,
    pub category: Category,
    pub english: String,
    pub latin: String,
    pub image_path: String,
}

impl Clone for Card {
    fn clone(&self) -> (r: Self)
        ensures
            r == *self,
    {
        Card {
            id: self.id,
            category: self.category,
            english: self.english.clone(),
            latin: self.latin.clone(),
            image_path: self.image_path.clone(),
        }
    }
}

} // verus!
