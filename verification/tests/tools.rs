use codex_core::apply_patch::{
    apply_patch, convert_apply_patch_to_protocol, create_rejection_response, ApplyPatchAction,
    ApplyPatchExec, ApplyPatchFileChange, InternalApplyPatchInvocation, PatchStep, SafetyCheck,
    CODEX_APPLY_PATCH_ARG1,
};
use codex_core::file_map::FileMap;
use codex_core::openai_tools::{JsonSchema, OpenAiTool};
use codex_core::plan_tool::{
    handle_update_plan, plan_tool, PlanItemArg, StepStatus, UpdatePlanArgs,
};
use codex_core::protocol::{EventMsg, FileChange, ResponseInputItem, ReviewDecision};
use std::path::PathBuf;

fn patch() -> ApplyPatchAction {
    let mut changes = FileMap::new();
    changes.insert(
        PathBuf::from("/repo/new.rs"),
        ApplyPatchFileChange::Add { content: "fn new() {}\n".to_string() },
    );
    changes.insert(
        PathBuf::from("/repo/old.rs"),
        ApplyPatchFileChange::Delete { content: "fn old() {}\n".to_string() },
    );
    changes.insert(
        PathBuf::from("/repo/a.rs"),
        ApplyPatchFileChange::Update {
            unified_diff: "-a\n+b\n".to_string(),
            move_path: Some(PathBuf::from("/repo/b.rs")),
            new_content: "b\n".to_string(),
        },
    );
    ApplyPatchAction {
        changes,
        patch: "*** Begin Patch".to_string(),
        cwd: PathBuf::from("/repo"),
    }
}

fn delegated(invocation: InternalApplyPatchInvocation) -> ApplyPatchExec {
    match invocation {
        InternalApplyPatchInvocation::DelegateToExec(exec) => exec,
        other => panic!("not delegated: {other:?}"),
    }
}

fn answered(invocation: InternalApplyPatchInvocation) -> (String, String, Option<bool>) {
    match invocation {
        InternalApplyPatchInvocation::Output(ResponseInputItem::FunctionCallOutput {
            call_id,
            output,
        }) => (call_id, output.content, output.success),
        other => panic!("not answered: {other:?}"),
    }
}

fn done(step: PatchStep) -> InternalApplyPatchInvocation {
    match step {
        PatchStep::Done(invocation) => invocation,
        other => panic!("not done: {other:?}"),
    }
}

fn asked(decision: Option<ReviewDecision>) -> InternalApplyPatchInvocation {
    match apply_patch(SafetyCheck::AskUser, "sub", "call", patch()) {
        PatchStep::RequestApproval(request) => {
            assert_eq!(request.sub_id, "sub");
            assert_eq!(request.call_id, "call");
            assert_eq!(request.action.changes.len(), 3);
            request.resolve(decision)
        }
        other => panic!("not asked: {other:?}"),
    }
}

#[test]
fn approved_patches_are_delegated_without_the_user() {
    let exec = delegated(done(apply_patch(SafetyCheck::AutoApprove, "sub", "call", patch())));
    assert!(!exec.user_explicitly_approved_this_action);
    assert_eq!(exec.action.patch, "*** Begin Patch");
    assert_eq!(exec.action.cwd, PathBuf::from("/repo"));
}

#[test]
fn the_user_can_approve_a_patch() {
    for decision in [ReviewDecision::Approved, ReviewDecision::ApprovedForSession] {
        let exec = delegated(asked(Some(decision)));
        assert!(exec.user_explicitly_approved_this_action);
        assert_eq!(exec.action.changes.len(), 3);
    }
}

#[test]
fn the_user_can_reject_a_patch() {
    for decision in [Some(ReviewDecision::Denied), Some(ReviewDecision::Abort), None] {
        assert_eq!(
            answered(asked(decision)),
            ("call".to_string(), "patch rejected by user".to_string(), Some(false))
        );
    }
}

#[test]
fn rejected_patches_are_answered_with_the_reason() {
    let check = SafetyCheck::Reject { reason: "empty patch".to_string() };
    assert_eq!(
        answered(done(apply_patch(check, "sub", "call", patch()))),
        ("call".to_string(), "patch rejected: empty patch".to_string(), Some(false))
    );
}

#[test]
fn rejections_say_that_the_call_failed() {
    assert_eq!(
        answered(create_rejection_response("id", "no")),
        ("id".to_string(), "no".to_string(), Some(false))
    );
}

#[test]
fn no_decision_is_a_denial() {
    assert_eq!(ReviewDecision::default(), ReviewDecision::Denied);
}

#[test]
fn changes_are_shown_file_by_file() {
    let shown = convert_apply_patch_to_protocol(&patch());
    let paths: Vec<PathBuf> = (0..shown.len()).map(|i| shown.at(i).0.clone()).collect();
    assert_eq!(
        paths,
        vec![
            PathBuf::from("/repo/new.rs"),
            PathBuf::from("/repo/old.rs"),
            PathBuf::from("/repo/a.rs")
        ]
    );
    assert!(matches!(&shown.at(0).1, FileChange::Add { content } if content == "fn new() {}\n"));
    assert!(matches!(&shown.at(1).1, FileChange::Delete { content } if content == "fn old() {}\n"));
    assert!(matches!(
        &shown.at(2).1,
        FileChange::Update { unified_diff, move_path }
            if unified_diff == "-a\n+b\n" && *move_path == Some(PathBuf::from("/repo/b.rs"))
    ));
}

#[test]
fn a_patch_without_changes_shows_none() {
    let action = ApplyPatchAction { changes: FileMap::new(), ..patch() };
    assert_eq!(convert_apply_patch_to_protocol(&action).len(), 0);
}

#[test]
fn a_file_occurs_once_in_a_map() {
    let mut map = FileMap::new();
    map.insert(PathBuf::from("/a"), 1);
    map.insert(PathBuf::from("/b"), 2);
    map.insert(PathBuf::from("//a/."), 3);
    assert_eq!(map.len(), 2);
    assert_eq!(*map.at(0), (PathBuf::from("/a"), 3));
    assert_eq!(*map.at(1), (PathBuf::from("/b"), 2));
}

#[test]
fn the_argument_for_applying_patches_is_fixed() {
    assert_eq!(CODEX_APPLY_PATCH_ARG1, "--codex-run-as-apply-patch");
}

#[test]
fn plans_are_passed_on_as_events() {
    let args = UpdatePlanArgs {
        explanation: Some("why".to_string()),
        plan: vec![PlanItemArg { step: "test".to_string(), status: StepStatus::InProgress }],
    };
    let update = handle_update_plan(Ok(args), "sub".to_string(), "call".to_string());
    let event = update.event.unwrap();
    assert_eq!(event.id, "sub");
    let EventMsg::PlanUpdate(sent) = event.msg;
    assert_eq!(sent.explanation.as_deref(), Some("why"));
    assert_eq!(sent.plan.len(), 1);
    assert_eq!(sent.plan[0].step, "test");
    assert_eq!(sent.plan[0].status, StepStatus::InProgress);
    let ResponseInputItem::FunctionCallOutput { call_id, output } = update.output;
    assert_eq!(call_id, "call");
    assert_eq!(output.content, "Plan updated");
    assert_eq!(output.success, Some(true));
}

#[test]
fn plans_that_cannot_be_parsed_are_not_passed_on() {
    let update =
        handle_update_plan(Err("no".to_string()), "sub".to_string(), "call".to_string());
    assert!(update.event.is_none());
    let ResponseInputItem::FunctionCallOutput { call_id, output } = update.output;
    assert_eq!(call_id, "call");
    assert_eq!(output.content, "failed to parse function arguments: no");
    assert_eq!(output.success, None);
}

#[test]
fn the_plan_tool_describes_its_arguments() {
    let OpenAiTool::Function(tool) = plan_tool();
    assert_eq!(tool.name, "update_plan");
    assert!(tool.description.starts_with("Updates the task plan.\n"));
    assert!(tool.description.ends_with("At most one step can be in_progress at a time."));
    assert!(!tool.strict);
    match tool.parameters {
        JsonSchema::Object { properties, required, additional_properties } => {
            let names: Vec<String> = properties.iter().map(|(name, _)| name.clone()).collect();
            assert_eq!(names, vec!["explanation".to_string(), "plan".to_string()]);
            assert_eq!(required, Some(vec!["plan".to_string()]));
            assert_eq!(additional_properties, Some(false));
            assert!(matches!(&properties[0].1, JsonSchema::Text { description: None }));
            match &properties[1].1 {
                JsonSchema::Array { items, description } => {
                    assert_eq!(description.as_deref(), Some("The list of steps"));
                    match items.as_ref() {
                        JsonSchema::Object { properties, required, .. } => {
                            assert_eq!(properties[0].0, "status");
                            assert_eq!(properties[1].0, "step");
                            assert_eq!(
                                *required,
                                Some(vec!["step".to_string(), "status".to_string()])
                            );
                        }
                        other => panic!("no object: {other:?}"),
                    }
                }
                other => panic!("no array: {other:?}"),
            }
        }
        other => panic!("no object: {other:?}"),
    }
}
