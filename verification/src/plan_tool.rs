//! The tool by which the model keeps its plan up to date.

use crate::openai_tools;
use crate::openai_tools::{JsonSchema, JsonView, OpenAiTool, ResponsesApiTool, SchemaView};
use crate::protocol::{
    Event, EventMsg, FunctionCallOutputPayload, ItemView, ResponseInputItem,
};
use crate::text::join_text;
use vstd::prelude::*;

verus! {

const PLAN_UPDATED: &'static str = "Plan updated";

const PARSE_ERROR_PREFIX: &'static str = "failed to parse function arguments: ";

/// How far a step of the plan has come.
#[derive(Debug, Clone, Copy, PartialEq, Eq, Structural)]
pub enum StepStatus {
    Pending,
    InProgress,
    Completed,
}

/// A step of the plan.
#[derive(Debug)]
pub struct PlanItemArg {
    pub step: String,
    pub status: StepStatus,
}

/// The arguments of the tool.
#[derive(Debug)]
pub struct UpdatePlanArgs {
    pub explanation: Option<String>,
    pub plan: Vec<PlanItemArg>,
}

/// The arguments of the tool: an optional explanation and a list of steps, each with a text and a
/// status.
pub open spec fn plan_schema() -> SchemaView {
    let step = SchemaView::Object {
        properties: seq![
            (
                "status"@,
                SchemaView::Text {
                    description: Some("One of: pending, in_progress, completed"@),
                },
            ),
            ("step"@, SchemaView::Text { description: None }),
        ],
        required: Some(seq!["step"@, "status"@]),
        additional_properties: Some(false),
    };
    SchemaView::Object {
        properties: seq![
            ("explanation"@, SchemaView::Text { description: None }),
            (
                "plan"@,
                SchemaView::Array {
                    items: Box::new(step),
                    description: Some("The list of steps"@),
                },
            ),
        ],
        required: Some(seq!["plan"@]),
        additional_properties: Some(false),
    }
}

proof fn lemma_plan_schema_has_ascending_names()
    ensures
        openai_tools::has_ascending_names(plan_schema()),
{
    reveal_strlit("status");
    reveal_strlit("step");
    reveal_strlit("explanation");
    reveal_strlit("plan");
    assert("status"@.take(2) =~= "step"@.take(2));
    assert(openai_tools::comes_before("status"@, "step"@));
    assert("explanation"@.take(0) =~= "plan"@.take(0));
    assert(openai_tools::comes_before("explanation"@, "plan"@));
    let properties = plan_schema()->properties;
    let step = *properties[1].1->items;
    assert(openai_tools::has_ascending_names(step->properties[0].1));
    assert(openai_tools::has_ascending_names(step->properties[1].1));
    assert(openai_tools::has_ascending_names(step));
    assert(openai_tools::has_ascending_names(properties[1].1));
}

/// How the steps of a plan are described to the model.
fn step_schema() -> (schema: JsonSchema)
    ensures
        openai_tools::schema_view(schema) == (SchemaView::Object {
            properties: seq![
                (
                    "status"@,
                    SchemaView::Text {
                        description: Some("One of: pending, in_progress, completed"@),
                    },
                ),
                ("step"@, SchemaView::Text { description: None }),
            ],
            required: Some(seq!["step"@, "status"@]),
            additional_properties: Some(false),
        }),
{
    let status = JsonSchema::Text {
        description: Some("One of: pending, in_progress, completed".to_owned()),
    };
    let step = JsonSchema::Text { description: None };
    let properties: Vec<(String, JsonSchema)> = vec![
        ("status".to_owned(), status),
        ("step".to_owned(), step),
    ];
    let required: Vec<String> = vec!["step".to_owned(), "status".to_owned()];
    proof {
        openai_tools::lemma_two_properties(properties@);
        assert(Seq::new(required@.len(), |i: int| required@[i]@) =~= seq!["step"@, "status"@]);
    }
    JsonSchema::Object {
        properties,
        required: Some(required),
        additional_properties: Some(false),
    }
}

/// How the tool is described to the model.
pub fn plan_tool() -> (tool: OpenAiTool)
    ensures
        tool is Function,
        tool->Function_0.name@ == "update_plan"@,
        tool->Function_0.description@
            == "Updates the task plan.\nProvide an optional explanation and a list of plan items, each with a step and status.\nAt most one step can be in_progress at a time."@,
        !tool->Function_0.strict,
        openai_tools::schema_view(tool->Function_0.parameters) == plan_schema(),
        openai_tools::schema_view(tool->Function_0.parameters) == (SchemaView::Object {
            properties: seq![
                ("explanation"@, SchemaView::Text { description: None }),
                (
                    "plan"@,
                    SchemaView::Array {
                        items: Box::new(
                            SchemaView::Object {
                                properties: seq![
                                    (
                                        "status"@,
                                        SchemaView::Text {
                                            description: Some(
                                                "One of: pending, in_progress, completed"@,
                                            ),
                                        },
                                    ),
                                    ("step"@, SchemaView::Text { description: None }),
                                ],
                                required: Some(seq!["step"@, "status"@]),
                                additional_properties: Some(false),
                            },
                        ),
                        description: Some("The list of steps"@),
                    },
                ),
            ],
            required: Some(seq!["plan"@]),
            additional_properties: Some(false),
        }),
        openai_tools::has_ascending_names(plan_schema()),
{
    let plan = JsonSchema::Array {
        items: Box::new(step_schema()),
        description: Some("The list of steps".to_owned()),
    };
    let explanation = JsonSchema::Text { description: None };
    let properties: Vec<(String, JsonSchema)> = vec![
        ("explanation".to_owned(), explanation),
        ("plan".to_owned(), plan),
    ];
    let required: Vec<String> = vec!["plan".to_owned()];
    proof {
        openai_tools::lemma_two_properties(properties@);
        assert(Seq::new(required@.len(), |i: int| required@[i]@) =~= seq!["plan"@]);
        lemma_plan_schema_has_ascending_names();
    }
    OpenAiTool::Function(
        ResponsesApiTool {
            name: "update_plan".to_owned(),
            description: "Updates the task plan.\nProvide an optional explanation and a list of plan items, each with a step and status.\nAt most one step can be in_progress at a time.".to_owned(),
            strict: false,
            parameters: JsonSchema::Object {
                properties,
                required: Some(required),
                additional_properties: Some(false),
            },
        },
    )
}

/// What a call of the tool leads to.
#[derive(Debug)]
pub struct PlanUpdate {
    /// The event that is sent before the model gets its answer.
    pub event: Option<Event>,
    /// The answer to the model.
    pub output: ResponseInputItem,
}

/// Handles a call of the tool whose arguments were parsed, or could not be for the reason given.
///
/// New plans are only passed on, as an event; the tool gives the model a way to write its plan
/// down where clients can read and show it.
pub fn handle_update_plan(
    arguments: Result<UpdatePlanArgs, String>,
    sub_id: String,
    call_id: String,
) -> (update: PlanUpdate)
    ensures
        match arguments {
            Ok(args) => {
                &&& update.event is Some
                &&& update.event->0.id == sub_id
                &&& update.event->0.msg == EventMsg::PlanUpdate(args)
                &&& update.output@ == (ItemView {
                    call_id: call_id@,
                    content: "Plan updated"@,
                    success: Some(true),
                })
            },
            Err(error) => {
                &&& update.event is None
                &&& update.output@ == (ItemView {
                    call_id: call_id@,
                    content: "failed to parse function arguments: "@ + error@,
                    success: None,
                })
            },
        },
{
    match arguments {
        Ok(args) => PlanUpdate {
            event: Some(Event { id: sub_id, msg: EventMsg::PlanUpdate(args) }),
            output: ResponseInputItem::FunctionCallOutput {
                call_id,
                output: FunctionCallOutputPayload {
                    content: PLAN_UPDATED.to_owned(),
                    success: Some(true),
                },
            },
        },
        Err(error) => PlanUpdate {
            event: None,
            output: ResponseInputItem::FunctionCallOutput {
                call_id,
                output: FunctionCallOutputPayload {
                    content: join_text(PARSE_ERROR_PREFIX, error.as_str()),
                    success: None,
                },
            },
        },
    }
}

/// The value has the form of a step of a plan: an object with the two texts `step` and `status`,
/// and with nothing else.
pub open spec fn has_form_of_a_step(value: JsonView) -> bool {
    match value {
        JsonView::Object(fields) => {
            &&& fields.contains_key("step"@) && fields["step"@] is Text
            &&& fields.contains_key("status"@) && fields["status"@] is Text
            &&& forall|key: Seq<char>| #[trigger]
                fields.contains_key(key) ==> key == "step"@ || key == "status"@
        },
        _ => false,
    }
}

/// The value has the form of the arguments of the tool: an object with a list `plan` of steps, with
/// a text `explanation` or none, and with nothing else.
pub open spec fn has_form_of_arguments(value: JsonView) -> bool {
    match value {
        JsonView::Object(fields) => {
            &&& fields.contains_key("plan"@)
            &&& match fields["plan"@] {
                JsonView::List(steps) => forall|i: int|
                    0 <= i < steps.len() ==> has_form_of_a_step(#[trigger] steps[i]),
                _ => false,
            }
            &&& fields.contains_key("explanation"@) ==> fields["explanation"@] is Text
            &&& forall|key: Seq<char>| #[trigger]
                fields.contains_key(key) ==> key == "plan"@ || key == "explanation"@
        },
        _ => false,
    }
}

/// The values that follow the schema of the tool are exactly those that have the form of its
/// arguments.
pub proof fn schema_admits_the_arguments(value: JsonView)
    ensures
        openai_tools::follows(value, plan_schema()) <==> has_form_of_arguments(value),
{
    let schema = plan_schema();
    let properties = schema->properties;
    let step = *properties[1].1->items;
    assert(properties[0].0 == "explanation"@ && properties[1].0 == "plan"@);
    assert(schema->required->0[0] == "plan"@);
    if value is Object {
        let fields = value->Object_0;
        if fields.contains_key("plan"@) && fields["plan"@] is List {
            let steps = fields["plan"@]->List_0;
            assert forall|i: int| 0 <= i < steps.len() implies openai_tools::follows(
                #[trigger] steps[i],
                step,
            ) == has_form_of_a_step(steps[i]) by {
                lemma_step_schema_admits_steps(steps[i], step);
            }
        }
        if openai_tools::follows(value, schema) {
            assert(openai_tools::follows(fields["plan"@], properties[1].1));
            assert forall|key: Seq<char>| #[trigger] fields.contains_key(key) implies key
                == "plan"@ || key == "explanation"@ by {
                let i = choose|i: int|
                    0 <= i < properties.len() && (#[trigger] properties[i]).0 == key;
                assert(i == 0 || i == 1);
            }
            if fields.contains_key("explanation"@) {
                assert(openai_tools::follows(fields["explanation"@], properties[0].1));
            }
        }
        if has_form_of_arguments(value) {
            assert(openai_tools::follows(fields["plan"@], properties[1].1));
            if fields.contains_key("explanation"@) {
                assert(openai_tools::follows(fields["explanation"@], properties[0].1));
            }
            assert forall|key: Seq<char>| #[trigger] fields.contains_key(key) implies exists|i: int|
                0 <= i < properties.len() && (#[trigger] properties[i]).0 == key by {
                if key == "plan"@ {
                    assert(properties[1].0 == key);
                } else {
                    assert(properties[0].0 == key);
                }
            }
        }
    }
}

proof fn lemma_step_schema_admits_steps(value: JsonView, step: SchemaView)
    requires
        step == *plan_schema()->properties[1].1->items,
    ensures
        openai_tools::follows(value, step) <==> has_form_of_a_step(value),
{
    let properties = step->properties;
    assert(properties[0].0 == "status"@ && properties[1].0 == "step"@);
    assert(step->required->0[0] == "step"@ && step->required->0[1] == "status"@);
    if value is Object {
        let fields = value->Object_0;
        if openai_tools::follows(value, step) {
            assert(openai_tools::follows(fields["status"@], properties[0].1));
            assert(openai_tools::follows(fields["step"@], properties[1].1));
            assert forall|key: Seq<char>| #[trigger] fields.contains_key(key) implies key
                == "step"@ || key == "status"@ by {
                let i = choose|i: int|
                    0 <= i < properties.len() && (#[trigger] properties[i]).0 == key;
                assert(i == 0 || i == 1);
            }
        }
        if has_form_of_a_step(value) {
            assert(openai_tools::follows(fields["status"@], properties[0].1));
            assert(openai_tools::follows(fields["step"@], properties[1].1));
            assert forall|key: Seq<char>| #[trigger] fields.contains_key(key) implies exists|i: int|
                0 <= i < properties.len() && (#[trigger] properties[i]).0 == key by {
                if key == "step"@ {
                    assert(properties[1].0 == key);
                } else {
                    assert(properties[0].0 == key);
                }
            }
        }
    }
}

} // verus!
