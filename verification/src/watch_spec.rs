//! The description of the `watch` tool that a model is given.

use vstd::prelude::*;

verus! {

pub const WATCH_TOOL_NAME: &'static str = "watch";

/// What the model is told of the tool.
pub const WATCH_DESCRIPTION: &'static str = "Watch a source for changes and react automatically. Polls `command` in the \
    background; when its stdout changes, you receive a new turn containing \
    `instruction` and the changed output, so you can act without the user asking \
    again. Use this when the user says things like \"watch X and do Y when it \
    changes\". The watch runs until the session ends.";

/// What the model is told of the argument `command`.
pub const COMMAND_DESCRIPTION: &'static str = "Shell command to poll for changes. Its stdout is captured each interval; when the \
    output differs from the previous poll, the watch fires. Examples: `cat roadmap.md`, \
    a command that prints a pane's text, `tail -n 20 build.log`.";

/// What the model is told of the argument `instruction`.
pub const INSTRUCTION_DESCRIPTION: &'static str = "What you (the agent) should do when the watched command's output changes. This \
    text is delivered to you as a new user turn when the watch fires.";

/// What the model is told of the argument `interval_seconds`.
pub const INTERVAL_DESCRIPTION: &'static str = "How often to poll the command, in seconds. Defaults to 10. Minimum 2.";

/// The type of a tool's argument.
#[derive(Clone, Copy, Debug, PartialEq, Eq, Structural)]
pub enum ArgumentType {
    Text,
    Number,
}

/// The schema of one argument of a tool.
#[derive(Clone, Debug, PartialEq, Eq)]
pub struct ArgumentSchema {
    pub name: String,
    pub argument_type: ArgumentType,
    pub description: Option<String>,
}

/// The schema of a tool's arguments, in the order of their names.
#[derive(Clone, Debug, PartialEq, Eq)]
pub struct ObjectSchema {
    pub properties: Vec<ArgumentSchema>,
    pub required: Option<Vec<String>>,
    pub additional_properties: Option<bool>,
}

#[derive(Clone, Debug, PartialEq, Eq)]
pub struct ResponsesApiTool {
    pub name: String,
    pub description: String,
    pub strict: bool,
    pub defer_loading: Option<bool>,
    pub parameters: ObjectSchema,
    pub output_schema: Option<ObjectSchema>,
}

#[derive(Clone, Debug, PartialEq, Eq)]
pub enum ToolSpec {
    Function(ResponsesApiTool),
}

/// The name, type and description of an argument.
pub open spec fn argument(a: ArgumentSchema) -> (Seq<char>, ArgumentType, Option<Seq<char>>) {
    (a.name@, a.argument_type, a.description.deep_view())
}

/// `spec` describes `watch` and its three arguments, of which the first two are
/// required.
pub open spec fn is_watch_tool(spec: ToolSpec) -> bool {
    let ToolSpec::Function(tool) = spec;
    let arguments = tool.parameters.properties@;
    &&& tool.name@ == WATCH_TOOL_NAME@
    &&& tool.description@ == WATCH_DESCRIPTION@
    &&& !tool.strict
    &&& tool.defer_loading is None
    &&& arguments.len() == 3
    &&& argument(arguments[0]) == (
        "command"@,
        ArgumentType::Text,
        Some(COMMAND_DESCRIPTION@),
    )
    &&& argument(arguments[1]) == (
        "instruction"@,
        ArgumentType::Text,
        Some(INSTRUCTION_DESCRIPTION@),
    )
    &&& argument(arguments[2]) == (
        "interval_seconds"@,
        ArgumentType::Number,
        Some(INTERVAL_DESCRIPTION@),
    )
    &&& tool.parameters.required.deep_view() == Some(seq!["command"@, "instruction"@])
    &&& tool.parameters.additional_properties == Some(false)
    &&& tool.output_schema is None
}

/// Build the model-callable `watch` tool spec.
///
/// The model calls it from natural language ("watch pane 0 and react when it
/// changes"), the runtime polls `command` in the background, and when its
/// output changes it starts a new turn carrying `instruction` so the agent
/// reacts on its own.
pub fn create_watch_tool() -> (r: ToolSpec)
    ensures
        is_watch_tool(r),
{
    let mut properties: Vec<ArgumentSchema> = Vec::new();
    properties.push(
        ArgumentSchema {
            name: "command".to_owned(),
            argument_type: ArgumentType::Text,
            description: Some(COMMAND_DESCRIPTION.to_owned()),
        },
    );
    properties.push(
        ArgumentSchema {
            name: "instruction".to_owned(),
            argument_type: ArgumentType::Text,
            description: Some(INSTRUCTION_DESCRIPTION.to_owned()),
        },
    );
    properties.push(
        ArgumentSchema {
            name: "interval_seconds".to_owned(),
            argument_type: ArgumentType::Number,
            description: Some(INTERVAL_DESCRIPTION.to_owned()),
        },
    );
    let mut required: Vec<String> = Vec::new();
    required.push("command".to_owned());
    required.push("instruction".to_owned());
    assert(required.deep_view() == seq!["command"@, "instruction"@]);
    ToolSpec::Function(
        ResponsesApiTool {
            name: WATCH_TOOL_NAME.to_owned(),
            description: WATCH_DESCRIPTION.to_owned(),
            strict: false,
            defer_loading: None,
            parameters: ObjectSchema {
                properties,
                required: Some(required),
                additional_properties: Some(false),
            },
            output_schema: None,
        },
    )
}

/// The tool is called by name with a command and an instruction, both texts, and if
/// wanted with a number of seconds; with nothing else. What it says of the seconds is
/// what holds where none or too few are asked for.
pub proof fn law_the_tool_takes_a_command_and_an_instruction(spec: ToolSpec)
    requires
        is_watch_tool(spec),
    ensures
        ({
            let ToolSpec::Function(tool) = spec;
            let arguments = tool.parameters.properties@;
            &&& tool.name@ == "watch"@
            &&& arguments.len() == 3
            &&& arguments[0].name@ == "command"@ && arguments[0].argument_type == ArgumentType::Text
            &&& arguments[1].name@ == "instruction"@ && arguments[1].argument_type
                == ArgumentType::Text
            &&& arguments[2].name@ == "interval_seconds"@ && arguments[2].argument_type
                == ArgumentType::Number
            &&& arguments[2].description.deep_view() == Some(
                "How often to poll the command, in seconds. Defaults to 10. Minimum 2."@,
            )
            &&& tool.parameters.required.deep_view() == Some(seq!["command"@, "instruction"@])
            &&& tool.parameters.additional_properties == Some(false)
            &&& !tool.strict
            &&& tool.defer_loading is None
            &&& tool.output_schema is None
        }),
{
}

} // verus!
