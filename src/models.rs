use vstd::prelude::*;

verus! {

/// A label of a board.
#[derive(Debug)]
pub struct Label {
    pub id: String,
    pub name: String,
    pub color: Option<String>,
}

/// Request body that changes a card's description.
#[derive(Debug)]
pub struct UpdateCardDesc {
    pub desc: String,
}

/// Request body that puts a label on a card.
#[derive(Debug)]
pub struct AddLabel {
    pub value: String,
}

/// Request body that archives or restores a card.
#[derive(Debug)]
pub struct ArchiveCard {
    pub closed: bool,
}

/// Request body that adds a comment to a card.
#[derive(Debug)]
pub struct AddComment {
    pub text: String,
}

/// Request body that moves a card.
#[derive(Debug)]
pub struct UpdateCardPosition {
    pub pos: String,
}

/// Request body that creates a card.
#[derive(Debug)]
pub struct CreateCard {
    pub name: String,
    pub pos: String,
    pub id_list: String,
    pub desc: Option<String>,
}

/// Request body that moves a list.
#[derive(Debug)]
pub struct UpdateListPosition {
    pub pos: String,
}

/// An action on a card; comments are actions.
#[derive(Debug)]
pub struct Action {
    pub id: String,
    pub action_type: String,
    /// An ISO 8601 timestamp, such as `2020-03-09T19:41:51.396Z`.
    pub date: String,
    pub data: ActionData,
    pub member_creator: ActionMember,
}

/// What an action carries.
#[derive(Debug)]
pub struct ActionData {
    /// The comment text; empty where there is none.
    pub text: String,
}

/// Who made an action.
#[derive(Debug)]
pub struct ActionMember {
    pub full_name: Option<String>,
    pub username: String,
}

} // verus!
