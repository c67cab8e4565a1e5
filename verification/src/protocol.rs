//! The messages that are exchanged with the model and with the user.

use crate::plan_tool::UpdatePlanArgs;
use std::path::PathBuf;
use vstd::prelude::*;

verus! {

/// What a tool call gave.
#[derive(Debug)]
pub struct FunctionCallOutputPayload {
    pub content: String,
    pub success: Option<bool>,
}

/// An item of the input to the model.
#[derive(Debug)]
pub enum ResponseInputItem {
    /// The result of the tool call `call_id`.
    FunctionCallOutput { call_id: String, output: FunctionCallOutputPayload },
}

/// What an item says.
#[verifier::ext_equal]
pub struct ItemView {
    pub call_id: Seq<char>,
    pub content: Seq<char>,
    pub success: Option<bool>,
}

impl View for ResponseInputItem {
    type V = ItemView;

    open spec fn view(&self) -> ItemView {
        match *self {
            ResponseInputItem::FunctionCallOutput { call_id, output } => ItemView {
                call_id: call_id@,
                content: output.content@,
                success: output.success,
            },
        }
    }
}

/// What the user decided about a request.
#[derive(Debug, Clone, Copy, PartialEq, Eq, Structural)]
pub enum ReviewDecision {
    /// Do it.
    Approved,
    /// Do it, and do the like for the rest of the session without asking.
    ApprovedForSession,
    /// Do not do it, but go on.
    Denied,
    /// Do not do it, and stop.
    Abort,
}

impl Default for ReviewDecision {
    fn default() -> (decision: Self)
        ensures
            decision == ReviewDecision::Denied,
    {
        ReviewDecision::Denied
    }
}

/// A change to a file, as it is shown to the user.
#[derive(Debug)]
pub enum FileChange {
    Add { content: String },
    Delete { content: String },
    Update { unified_diff: String, move_path: Option<PathBuf> },
}

/// What happened in a session.
#[derive(Debug)]
pub enum EventMsg {
    PlanUpdate(UpdatePlanArgs),
}

/// An event that answers the submission `id`.
#[derive(Debug)]
pub struct Event {
    pub id: String,
    pub msg: EventMsg,
}

/// The view of an item holds all that the item says.
pub proof fn view_holds_all_of_an_item(item: ResponseInputItem)
    ensures
        item matches ResponseInputItem::FunctionCallOutput { call_id, output } ==> item@.call_id
            == call_id@ && item@.content == output.content@ && item@.success == output.success,
{
}

} // verus!
