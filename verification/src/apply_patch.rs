//! Deciding whether a patch is applied.

use crate::file_map;
use crate::file_map::FileMap;
use crate::protocol::{
    FileChange, FunctionCallOutputPayload, ItemView, ResponseInputItem, ReviewDecision,
};
use crate::text::join_text;
use std::path::PathBuf;
use vstd::prelude::*;

verus! {

/// The argument with which the program runs itself to apply a patch.
pub const CODEX_APPLY_PATCH_ARG1: &'static str = "--codex-run-as-apply-patch";

/// What a patch does to one file.
#[derive(Debug)]
pub enum ApplyPatchFileChange {
    Add { content: String },
    Delete { content: String },
    Update { unified_diff: String, move_path: Option<PathBuf>, new_content: String },
}

/// A patch that was parsed: what it does to which files.
#[derive(Debug)]
pub struct ApplyPatchAction {
    /// The files and the changes to them.
    pub changes: FileMap<ApplyPatchFileChange>,
    /// The text of the patch.
    pub patch: String,
    /// The directory to which relative paths in the patch refer.
    pub cwd: PathBuf,
}

/// What the policies say about a patch.
#[derive(Debug)]
pub enum SafetyCheck {
    /// It is applied without asking.
    AutoApprove,
    /// The user decides.
    AskUser,
    /// It is not applied.
    Reject { reason: String },
}

/// A patch that is to be applied.
#[derive(Debug)]
pub struct ApplyPatchExec {
    pub action: ApplyPatchAction,
    pub user_explicitly_approved_this_action: bool,
}

/// What becomes of a patch.
#[derive(Debug)]
pub enum InternalApplyPatchInvocation {
    /// It is not applied, and this is the answer to the call that asked for it.
    Output(ResponseInputItem),
    /// It is applied, by running the program with [`CODEX_APPLY_PATCH_ARG1`]. Whether the user
    /// approved it explicitly decides on the sandbox.
    DelegateToExec(ApplyPatchExec),
}

impl From<ResponseInputItem> for InternalApplyPatchInvocation {
    fn from(item: ResponseInputItem) -> (invocation: Self) {
        InternalApplyPatchInvocation::Output(item)
    }
}

impl vstd::std_specs::convert::FromSpecImpl<ResponseInputItem> for InternalApplyPatchInvocation {
    open spec fn obeys_from_spec() -> bool {
        true
    }

    open spec fn from_spec(item: ResponseInputItem) -> Self {
        InternalApplyPatchInvocation::Output(item)
    }
}

/// A patch on which the user is to decide.
#[derive(Debug)]
pub struct PatchRequest {
    pub sub_id: String,
    pub call_id: String,
    pub action: ApplyPatchAction,
}

/// How the handling of a patch goes on.
#[derive(Debug)]
pub enum PatchStep {
    /// Ask the user, and resolve the request with the answer.
    RequestApproval(PatchRequest),
    Done(InternalApplyPatchInvocation),
}

/// The call was answered: nothing was applied, for the reason given.
pub open spec fn is_rejection(
    invocation: InternalApplyPatchInvocation,
    call_id: Seq<char>,
    content: Seq<char>,
) -> bool {
    match invocation {
        InternalApplyPatchInvocation::Output(item) => item@ == (ItemView {
            call_id,
            content,
            success: Some(false),
        }),
        InternalApplyPatchInvocation::DelegateToExec(_) => false,
    }
}

/// What is done with a patch of which the policies say `check`: it is applied, put before the
/// user, or rejected with the reason.
pub open spec fn is_first_step(
    check: SafetyCheck,
    sub_id: Seq<char>,
    call_id: Seq<char>,
    action: ApplyPatchAction,
    step: PatchStep,
) -> bool {
    match check {
        SafetyCheck::AutoApprove => step == PatchStep::Done(
            InternalApplyPatchInvocation::DelegateToExec(
                ApplyPatchExec { action, user_explicitly_approved_this_action: false },
            ),
        ),
        SafetyCheck::AskUser => {
            &&& step is RequestApproval
            &&& step->RequestApproval_0.sub_id@ == sub_id
            &&& step->RequestApproval_0.call_id@ == call_id
            &&& step->RequestApproval_0.action == action
        },
        SafetyCheck::Reject { reason } => step is Done && is_rejection(
            step->Done_0,
            call_id,
            "patch rejected: "@ + reason@,
        ),
    }
}

/// Handles a patch of which the policies say `check`.
pub fn apply_patch(
    check: SafetyCheck,
    sub_id: &str,
    call_id: &str,
    action: ApplyPatchAction,
) -> (step: PatchStep)
    ensures
        is_first_step(check, sub_id@, call_id@, action, step),
{
    match check {
        SafetyCheck::AutoApprove => PatchStep::Done(
            InternalApplyPatchInvocation::DelegateToExec(
                ApplyPatchExec { action, user_explicitly_approved_this_action: false },
            ),
        ),
        SafetyCheck::AskUser => PatchStep::RequestApproval(
            PatchRequest { sub_id: sub_id.to_owned(), call_id: call_id.to_owned(), action },
        ),
        SafetyCheck::Reject { reason } => {
            let content = join_text("patch rejected: ", reason.as_str());
            PatchStep::Done(create_rejection_response(call_id, content.as_str()))
        },
    }
}

/// The user lets the patch be applied.
pub open spec fn is_approval(decision: Option<ReviewDecision>) -> bool {
    decision == Some(ReviewDecision::Approved) || decision == Some(
        ReviewDecision::ApprovedForSession,
    )
}

/// What becomes of a patch once the user has decided.
pub open spec fn is_resolution(
    request: PatchRequest,
    decision: Option<ReviewDecision>,
    invocation: InternalApplyPatchInvocation,
) -> bool {
    if is_approval(decision) {
        invocation == InternalApplyPatchInvocation::DelegateToExec(
            ApplyPatchExec {
                action: request.action,
                user_explicitly_approved_this_action: true,
            },
        )
    } else {
        is_rejection(invocation, request.call_id@, "patch rejected by user"@)
    }
}

impl PatchRequest {
    /// Goes on once the user has decided; no answer counts as a denial.
    pub fn resolve(self, decision: Option<ReviewDecision>) -> (invocation:
        InternalApplyPatchInvocation)
        ensures
            is_resolution(self, decision, invocation),
    {
        let decision = match decision {
            Some(decision) => decision,
            None => ReviewDecision::default(),
        };
        match decision {
            ReviewDecision::Approved | ReviewDecision::ApprovedForSession => {
                InternalApplyPatchInvocation::DelegateToExec(
                    ApplyPatchExec {
                        action: self.action,
                        user_explicitly_approved_this_action: true,
                    },
                )
            },
            ReviewDecision::Denied | ReviewDecision::Abort => create_rejection_response(
                self.call_id.as_str(),
                "patch rejected by user",
            ),
        }
    }
}

/// A patch is applied if and only if the policies or the user approved it, and it counts as
/// explicitly approved if and only if it was the user. Otherwise the call is answered, and the
/// answer says that it failed.
pub proof fn patches_need_approval(
    check: SafetyCheck,
    sub_id: Seq<char>,
    call_id: Seq<char>,
    action: ApplyPatchAction,
    step: PatchStep,
    decision: Option<ReviewDecision>,
    invocation: InternalApplyPatchInvocation,
)
    requires
        is_first_step(check, sub_id, call_id, action, step),
        match step {
            PatchStep::RequestApproval(request) => is_resolution(request, decision, invocation),
            PatchStep::Done(done) => invocation == done,
        },
    ensures
        invocation is DelegateToExec <==> check is AutoApprove || (check is AskUser && is_approval(
            decision,
        )),
        invocation matches InternalApplyPatchInvocation::DelegateToExec(exec) ==> exec.action
            == action && exec.user_explicitly_approved_this_action == (check is AskUser),
        invocation matches InternalApplyPatchInvocation::Output(item) ==> item@.call_id == call_id
            && item@.success == Some(false),
{
}

/// The answer to a call whose patch is not applied.
pub fn create_rejection_response(call_id: &str, content: &str) -> (invocation:
    InternalApplyPatchInvocation)
    ensures
        is_rejection(invocation, call_id@, content@),
{
    let item = ResponseInputItem::FunctionCallOutput {
        call_id: call_id.to_owned(),
        output: FunctionCallOutputPayload { content: content.to_owned(), success: Some(false) },
    };
    InternalApplyPatchInvocation::from(item)
}

/// A change as it is shown to the user: the new content of an updated file is left out, since
/// the difference says it.
pub open spec fn shown_change(change: ApplyPatchFileChange) -> FileChange {
    match change {
        ApplyPatchFileChange::Add { content } => FileChange::Add { content },
        ApplyPatchFileChange::Delete { content } => FileChange::Delete { content },
        ApplyPatchFileChange::Update { unified_diff, move_path, .. } => FileChange::Update {
            unified_diff,
            move_path,
        },
    }
}

fn show_change(change: &ApplyPatchFileChange) -> (shown: FileChange)
    ensures
        shown == shown_change(*change),
{
    match change {
        ApplyPatchFileChange::Add { content } => FileChange::Add { content: content.clone() },
        ApplyPatchFileChange::Delete { content } => FileChange::Delete {
            content: content.clone(),
        },
        ApplyPatchFileChange::Update { unified_diff, move_path, .. } => FileChange::Update {
            unified_diff: unified_diff.clone(),
            move_path: match move_path {
                Some(to) => Some(to.clone()),
                None => None,
            },
        },
    }
}

/// The changes of a patch as they are shown to the user, file by file.
pub fn convert_apply_patch_to_protocol(action: &ApplyPatchAction) -> (changes: FileMap<FileChange>)
    ensures
        changes.pairs().len() == action.changes.pairs().len(),
        forall|i: int|
            0 <= i < changes.pairs().len() ==> #[trigger] changes.pairs()[i] == (
                action.changes.pairs()[i].0,
                shown_change(action.changes.pairs()[i].1),
            ),
        file_map::has_distinct_paths(changes.pairs()),
{
    let mut changes: FileMap<FileChange> = FileMap::new();
    let len: usize = action.changes.len();
    let mut i: usize = 0;
    while i < len
        invariant
            len == action.changes.pairs().len(),
            file_map::has_distinct_paths(action.changes.pairs()),
            file_map::has_distinct_paths(changes.pairs()),
            i <= len,
            changes.pairs().len() == i,
            forall|j: int|
                0 <= j < i ==> #[trigger] changes.pairs()[j] == (
                    action.changes.pairs()[j].0,
                    shown_change(action.changes.pairs()[j].1),
                ),
        decreases len - i,
    {
        let change = action.changes.at(i);
        let file = change.0.clone();
        proof {
            assert forall|j: int| !file_map::is_position(changes.pairs(), file, j) by {
                if 0 <= j < i {
                    assert(changes.pairs()[j].0 == action.changes.pairs()[j].0);
                }
            }
        }
        changes.insert(file, show_change(&change.1));
        i += 1;
    }
    changes
}

/// A change is shown as what it is: an added file as one with its content, a deleted file as one
/// with the content that it had, and an updated file as one with the difference and the place that
/// it moves to, if it does.
pub proof fn change_is_shown_as_what_it_is(change: ApplyPatchFileChange)
    ensures
        shown_change(change) is Add <==> change is Add,
        shown_change(change) is Delete <==> change is Delete,
        shown_change(change) is Update <==> change is Update,
        change matches ApplyPatchFileChange::Add { content } ==> shown_change(change)->Add_content
            == content,
        change matches ApplyPatchFileChange::Delete { content } ==> shown_change(
            change,
        )->Delete_content == content,
        change matches ApplyPatchFileChange::Update { unified_diff, .. } ==> shown_change(
            change,
        )->unified_diff == unified_diff,
        change matches ApplyPatchFileChange::Update { move_path, .. } ==> shown_change(
            change,
        )->move_path == move_path,
{
}

/// A call is rejected exactly if it is answered with this text, under its own identifier, as
/// failed.
pub proof fn rejection_is_an_answer(
    invocation: InternalApplyPatchInvocation,
    call_id: Seq<char>,
    content: Seq<char>,
)
    ensures
        is_rejection(invocation, call_id, content) <==> (match invocation {
            InternalApplyPatchInvocation::Output(
                ResponseInputItem::FunctionCallOutput { call_id: answered, output },
            ) => answered@ == call_id && output.content@ == content && output.success == Some(
                false,
            ),
            InternalApplyPatchInvocation::DelegateToExec(_) => false,
        }),
{
}

/// The policies decide what is done first: an approved patch is handed on as it is, one that is
/// left to the user is put before them as it is, and the answer to a rejected one gives the reason
/// in full.
pub proof fn policies_decide_what_is_done_first(
    check: SafetyCheck,
    sub_id: Seq<char>,
    call_id: Seq<char>,
    action: ApplyPatchAction,
    step: PatchStep,
)
    requires
        is_first_step(check, sub_id, call_id, action, step),
    ensures
        step is RequestApproval <==> check is AskUser,
        step matches PatchStep::RequestApproval(request) ==> request.sub_id@ == sub_id
            && request.call_id@ == call_id && request.action == action,
        check is AutoApprove ==> step->Done_0 is DelegateToExec
            && step->Done_0->DelegateToExec_0.action == action
            && !step->Done_0->DelegateToExec_0.user_explicitly_approved_this_action,
        check matches SafetyCheck::Reject { reason } ==> is_rejection(
            step->Done_0,
            call_id,
            "patch rejected: "@ + reason@,
        ),
{
}

/// The user decides what becomes of a patch that was put before them: approved, once or for the
/// session, it is handed on as it is and counts as approved by them; otherwise, also without an
/// answer, the call is answered that the user rejected it.
pub proof fn users_decide_what_becomes_of_a_request(
    request: PatchRequest,
    decision: Option<ReviewDecision>,
    invocation: InternalApplyPatchInvocation,
)
    requires
        is_resolution(request, decision, invocation),
    ensures
        invocation is DelegateToExec <==> decision is Some && (decision->0 is Approved
            || decision->0 is ApprovedForSession),
        invocation matches InternalApplyPatchInvocation::DelegateToExec(exec) ==> exec.action
            == request.action && exec.user_explicitly_approved_this_action,
        invocation is Output ==> is_rejection(
            invocation,
            request.call_id@,
            "patch rejected by user"@,
        ),
{
}

/// An item that is turned into the end of a patch is the answer, as it is.
pub proof fn item_becomes_the_answer(item: ResponseInputItem)
    ensures
        <InternalApplyPatchInvocation as vstd::std_specs::convert::FromSpec<
            ResponseInputItem,
        >>::from_spec(item) == InternalApplyPatchInvocation::Output(item),
{
}

} // verus!
