//! The decisions of the MCP server: which method a request calls, and what
//! the constraint-checking tool answers.
use vstd::prelude::*;
use crate::checker::{check_text, checked_violations, rules_compile};
use crate::block::block_patterns_compile;
use crate::document::{DocumentView, blocks_of};
use crate::error::IntegrityError;
use crate::report::{Report, REPORT_VERSION};
use crate::text::{chars_of, decimal, owned, push_decimal, same_text, starts_with, starts_with_chars, trim, trim_chars};

verus! {

/// The largest input the tool accepts, in bytes.
pub const MAX_INPUT_SIZE: usize = 1048576;

/// The methods the server knows.
#[derive(Debug, Clone, Copy, PartialEq, Eq, Structural)]
pub enum McpMethod {
    Initialize,
    Initialized,
    ResourcesList,
    ResourcesRead,
    ToolsList,
    ToolsCall,
    Unknown,
}

/// The method named `name`.
pub open spec fn method_of(name: Seq<char>) -> McpMethod {
    if name == "initialize"@ {
        McpMethod::Initialize
    } else if name == "notifications/initialized"@ {
        McpMethod::Initialized
    } else if name == "resources/list"@ {
        McpMethod::ResourcesList
    } else if name == "resources/read"@ {
        McpMethod::ResourcesRead
    } else if name == "tools/list"@ {
        McpMethod::ToolsList
    } else if name == "tools/call"@ {
        McpMethod::ToolsCall
    } else {
        McpMethod::Unknown
    }
}

/// The method a request names.
pub fn route(name: &str) -> (r: McpMethod)
    ensures
        r == method_of(name@),
{
    if same_text(name, "initialize") {
        McpMethod::Initialize
    } else if same_text(name, "notifications/initialized") {
        McpMethod::Initialized
    } else if same_text(name, "resources/list") {
        McpMethod::ResourcesList
    } else if same_text(name, "resources/read") {
        McpMethod::ResourcesRead
    } else if same_text(name, "tools/list") {
        McpMethod::ToolsList
    } else if same_text(name, "tools/call") {
        McpMethod::ToolsCall
    } else {
        McpMethod::Unknown
    }
}

/// A notification without an id gets no answer.
pub fn is_silent_notification(method: &str, has_id: bool) -> (r: bool)
    ensures
        r == (starts_with(method@, "notifications/"@) && !has_id),
{
    let prefix = chars_of("notifications/");
    starts_with_chars(&chars_of(method), &prefix) && !has_id
}

/// The position of a known resource among `project`, `philosophy`,
/// `constraints`.
pub open spec fn resource_index_of(uri: Seq<char>) -> Option<usize> {
    if uri == "integrity://project"@ {
        Some(0)
    } else if uri == "integrity://philosophy"@ {
        Some(1)
    } else if uri == "integrity://constraints"@ {
        Some(2)
    } else {
        None
    }
}

/// The position of a known resource.
pub fn resource_index(uri: &str) -> (r: Option<usize>)
    ensures
        r == resource_index_of(uri@),
{
    if same_text(uri, "integrity://project") {
        Some(0)
    } else if same_text(uri, "integrity://philosophy") {
        Some(1)
    } else if same_text(uri, "integrity://constraints") {
        Some(2)
    } else {
        None
    }
}

/// What the constraint-checking tool answers.
pub enum ToolAnswer {
    /// A refused call, with its JSON-RPC error code.
    Refused { code: i32, message: String },
    /// The check's report, to be written as JSON or for people.
    Checked { report: Report, json: bool },
}

/// The refusal, if any, of a call with these arguments.
pub open spec fn tool_refusal(has_arguments: bool, input: Option<&str>) -> Option<Seq<char>> {
    if !has_arguments {
        Some("Missing arguments"@)
    } else {
        match input {
            None => Some("Missing required argument: input"@),
            Some(i) => if trim(i@).len() == 0 {
                Some("Input is empty"@)
            } else if i.len() > MAX_INPUT_SIZE {
                Some(
                    "Input too large (max: "@ + decimal(MAX_INPUT_SIZE as nat) + " bytes, actual: "@
                        + decimal(i.len() as nat) + " bytes)"@,
                )
            } else {
                None
            },
        }
    }
}

/// Answers a call of the checking tool: refuses missing, blank or too large
/// input (code -32602); otherwise checks the input and asks for JSON exactly
/// when `format` is `json`. Fails only when a pattern does not compile.
pub fn check_constraints_tool(has_arguments: bool, input: Option<&str>, format: Option<&str>) -> (r:
    Result<ToolAnswer, IntegrityError>)
    ensures
        tool_refusal(has_arguments, input) matches Some(m) ==> r matches Ok(
            ToolAnswer::Refused { code, message },
        ) && code == -32602 && message@ == m,
        tool_refusal(has_arguments, input) is None ==> (r is Ok <==> block_patterns_compile()
            && rules_compile()),
        tool_refusal(has_arguments, input) is None ==> (r matches Ok(a) ==> (a matches ToolAnswer::Checked { report, json } && json == (format matches Some(f) && f@ == "json"@) && report@.version == REPORT_VERSION@ && report@.violations == checked_violations(
            DocumentView { raw_text: input->0@, blocks: blocks_of(input->0@) },
        ))),
{
    if !has_arguments {
        return Ok(ToolAnswer::Refused { code: -32602, message: owned("Missing arguments") });
    }
    let input = match input {
        Some(i) => i,
        None => {
            return Ok(
                ToolAnswer::Refused { code: -32602, message: owned("Missing required argument: input") },
            );
        },
    };
    if trim_chars(&chars_of(input)).len() == 0 {
        return Ok(ToolAnswer::Refused { code: -32602, message: owned("Input is empty") });
    }
    if input.len() > MAX_INPUT_SIZE {
        let mut m = owned("Input too large (max: ");
        push_decimal(&mut m, MAX_INPUT_SIZE as u64);
        m.append(" bytes, actual: ");
        push_decimal(&mut m, input.len() as u64);
        m.append(" bytes)");
        return Ok(ToolAnswer::Refused { code: -32602, message: m });
    }
    let json = match format {
        Some(f) => same_text(f, "json"),
        None => false,
    };
    let report = check_text(input)?;
    Ok(ToolAnswer::Checked { report, json })
}

} // verus!
