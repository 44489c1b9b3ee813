//! What an MCP server advertises, as a report for people.

use vstd::prelude::*;
use vstd::string::StringExecFns;
use crate::json::JsonView;
use crate::text::{decimal, decimal_text, digits_value, opt_text};
use crate::text::law_decimal_stands_for_its_number;
use crate::wire::value_json;

verus! {

/// A tool that the server advertises.
#[derive(Debug)]
pub struct ToolInfo {
    /// The name of the tool.
    pub name: String,
    /// What the server says of the tool.
    pub description: Option<String>,
    /// The names and types of the tool's parameters, as a JSON schema.
    pub input_schema: serde_json::Value,
}

/// The text of a JSON value, laid out over several lines by
/// `serde_json::to_string_pretty`.
pub uninterp spec fn pretty_text(json: JsonView) -> Option<Seq<char>>;

/// Calls `serde_json::to_string_pretty` on a `serde_json::Value`. The text is a
/// function of what the value holds.
#[verifier::external_body]
fn pretty_value(value: &serde_json::Value) -> (r: Result<String, serde_json::Error>)
    ensures
        match r {
            Ok(text) => pretty_text(value_json(*value)) == Some(text@),
            Err(_) => pretty_text(value_json(*value)) is None,
        },
{
    serde_json::to_string_pretty(value)
}

/// The lines of the report on one tool, given the text of its schema where
/// there is one.
pub open spec fn tool_lines(tool: ToolInfo, pretty: Option<Seq<char>>) -> Seq<Seq<char>> {
    let schema = match pretty {
        Some(text) => text,
        None => "<unserializable schema>"@,
    };
    match tool.description {
        Some(description) => seq![
            "- "@ + tool.name@,
            "  description: "@ + description@,
            "  input_schema: "@ + schema,
        ],
        None => seq!["- "@ + tool.name@, "  input_schema: "@ + schema],
    }
}

/// The lines of the report on the first `n` tools.
pub open spec fn report_lines(tools: Seq<ToolInfo>, n: nat) -> Seq<Seq<char>>
    decreases n,
{
    if n == 0 {
        seq!["MCP server advertises "@ + decimal(tools.len()) + " tool(s):"@]
    } else {
        report_lines(tools, (n - 1) as nat) + tool_lines(
            tools[n - 1],
            pretty_text(value_json(tools[n - 1].input_schema)),
        )
    }
}

/// What each of several lines holds.
pub open spec fn line_texts(lines: Seq<String>) -> Seq<Seq<char>> {
    Seq::new(lines.len(), |i: int| lines[i]@)
}

/// Adds the lines on one tool, given the text of its schema where there is one,
/// to a report.
pub fn add_tool_lines(lines: &mut Vec<String>, tool: &ToolInfo, pretty: Option<String>)
    ensures
        line_texts(final(lines)@) == line_texts(old(lines)@) + tool_lines(
            *tool,
            opt_text(pretty),
        ),
{
    let ghost given = opt_text(pretty);
    let schema = match pretty {
        Some(text) => text,
        None => "<unserializable schema>".to_owned(),
    };
    lines.push("- ".to_owned().concat(tool.name.as_str()));
    match &tool.description {
        Some(description) => {
            lines.push("  description: ".to_owned().concat(description.as_str()));
        },
        None => {},
    }
    lines.push("  input_schema: ".to_owned().concat(schema.as_str()));
    assert(line_texts(lines@) =~= line_texts(old(lines)@) + tool_lines(*tool, given));
}

/// Reports every tool that the server advertises, with its description and its
/// input schema.
pub fn schema_report(tools: &Vec<ToolInfo>) -> (r: Vec<String>)
    ensures
        line_texts(r@) == report_lines(tools@, tools@.len()),
{
    let count = decimal_text(tools.len() as u64);
    let mut lines: Vec<String> = Vec::new();
    lines.push("MCP server advertises ".to_owned().concat(count.as_str()).concat(" tool(s):"));
    assert(line_texts(lines@) =~= report_lines(tools@, 0));
    let mut i: usize = 0;
    while i < tools.len()
        invariant
            i <= tools@.len(),
            line_texts(lines@) == report_lines(tools@, i as nat),
        decreases tools@.len() - i,
    {
        let pretty = match pretty_value(&tools[i].input_schema) {
            Ok(text) => Some(text),
            Err(_) => None,
        };
        add_tool_lines(&mut lines, &tools[i], pretty);
        i += 1;
    }
    lines
}

/// The names of the tools, in the order in which the server advertises them.
pub fn tool_names(tools: &Vec<ToolInfo>) -> (r: Vec<String>)
    ensures
        line_texts(r@) == Seq::new(tools@.len(), |i: int| tools@[i].name@),
{
    let mut names: Vec<String> = Vec::new();
    let mut i: usize = 0;
    while i < tools.len()
        invariant
            i <= tools@.len(),
            names@.len() == i,
            forall|j: int| 0 <= j < i ==> names@[j]@ == tools@[j].name@,
        decreases tools@.len() - i,
    {
        names.push(tools[i].name.clone());
        i += 1;
    }
    assert(line_texts(names@) =~= Seq::new(tools@.len(), |i: int| tools@[i].name@));
    names
}

/// Where in the report the lines on a tool begin: after the first line and after
/// those on the tools before it, which are three for one with a description and
/// else two.
pub open spec fn first_line_on(tools: Seq<ToolInfo>, k: nat) -> nat
    decreases k,
{
    if k == 0 {
        1
    } else if tools[k - 1].description is Some {
        first_line_on(tools, (k - 1) as nat) + 3
    } else {
        first_line_on(tools, (k - 1) as nat) + 2
    }
}

/// The lines on a tool stand where they begin: its name, its description where
/// it has one, and its schema.
pub open spec fn stands_in(lines: Seq<Seq<char>>, tool: ToolInfo, at: int) -> bool {
    let schema = match pretty_text(value_json(tool.input_schema)) {
        Some(text) => text,
        None => "<unserializable schema>"@,
    };
    &&& lines[at] == "- "@ + tool.name@
    &&& match tool.description {
        Some(description) => lines[at + 1] == "  description: "@ + description@ && lines[at + 2]
            == "  input_schema: "@ + schema,
        None => lines[at + 1] == "  input_schema: "@ + schema,
    }
}

/// Where the lines on the first tools stand.
proof fn lemma_report_lines(tools: Seq<ToolInfo>, n: nat, k: int)
    requires
        0 <= k < n <= tools.len(),
    ensures
        report_lines(tools, n).len() == first_line_on(tools, n),
        report_lines(tools, n)[0] == "MCP server advertises "@ + decimal(tools.len())
            + " tool(s):"@,
        stands_in(report_lines(tools, n), tools[k], first_line_on(tools, k as nat) as int),
        first_line_on(tools, (k + 1) as nat) <= first_line_on(tools, n),
    decreases n,
{
    let before = report_lines(tools, (n - 1) as nat);
    let all = report_lines(tools, n);
    if n == 1 {
        assert(before.len() == 1 && first_line_on(tools, 0) == 1);
    } else {
        lemma_report_lines(tools, (n - 1) as nat, if k < n - 1 {
            k
        } else {
            0
        });
    }
    assert(before.len() == first_line_on(tools, (n - 1) as nat));
    assert(forall|i: int| 0 <= i < before.len() ==> all[i] == before[i]);
}

/// The report begins with the number of tools. Then it has the lines on each
/// tool, one tool after the other, and nothing else.
pub proof fn law_every_tool_is_reported(tools: &Vec<ToolInfo>, r: Vec<String>)
    requires
        call_ensures(schema_report, (tools,), r),
    ensures
        r@.len() == first_line_on(tools@, tools@.len()),
        r@[0]@ == "MCP server advertises "@ + decimal(tools@.len()) + " tool(s):"@,
        digits_value(decimal(tools@.len())) == tools@.len(),
        forall|k: int|
            0 <= k < tools@.len() ==> stands_in(
                Seq::new(r@.len(), |i: int| r@[i]@),
                #[trigger] tools@[k],
                first_line_on(tools@, k as nat) as int,
            ),
{
    law_decimal_stands_for_its_number(tools@.len());
    let lines = Seq::new(r@.len(), |i: int| r@[i]@);
    assert(lines =~= line_texts(r@));
    assert(lines.len() == r@.len());
    if tools@.len() > 0 {
        lemma_report_lines(tools@, tools@.len(), 0);
    }
    assert(lines[0] == r@[0]@);
    assert forall|k: int| 0 <= k < tools@.len() implies stands_in(
        lines,
        #[trigger] tools@[k],
        first_line_on(tools@, k as nat) as int,
    ) by {
        lemma_report_lines(tools@, tools@.len(), k);
    }
}

/// The names of the tools come out one for each tool, in the same order.
pub proof fn law_every_tool_is_named(tools: &Vec<ToolInfo>, r: Vec<String>)
    requires
        call_ensures(tool_names, (tools,), r),
    ensures
        r@.len() == tools@.len(),
        forall|i: int| 0 <= i < tools@.len() ==> (#[trigger] r@[i])@ == tools@[i].name@,
{
    assert(line_texts(r@).len() == r@.len());
    assert forall|i: int| 0 <= i < tools@.len() implies (#[trigger] r@[i])@ == tools@[i].name@ by {
        assert(line_texts(r@)[i] == r@[i]@);
    }
}

/// The lines on a tool are added at the end of a report: its name, its
/// description where it has one, and its schema or that there is none.
pub proof fn law_tool_is_added(lines: &mut Vec<String>, tool: &ToolInfo, pretty: Option<String>)
    requires
        call_ensures(add_tool_lines, (lines, tool, pretty), ()),
    ensures
        ({
            let before = old(lines)@;
            let after = final(lines)@;
            let n = before.len() as int;
            let last = after.len() - 1;
            &&& after.len() == n + (if tool.description is Some {
                3int
            } else {
                2int
            })
            &&& forall|i: int| 0 <= i < n ==> (#[trigger] after[i])@ == before[i]@
            &&& after[n]@ == "- "@ + tool.name@
            &&& tool.description matches Some(text) ==> after[n + 1]@ == "  description: "@ + text@
            &&& pretty matches Some(text) ==> after[last]@ == "  input_schema: "@ + text@
            &&& pretty is None ==> after[last]@ == "  input_schema: "@
                + "<unserializable schema>"@
        }),
{
    let before = old(lines)@;
    let after = final(lines)@;
    let texts = line_texts(after);
    assert(texts.len() == after.len());
    assert forall|i: int| 0 <= i < after.len() implies (#[trigger] after[i])@ == texts[i] by {}
    assert forall|i: int| 0 <= i < before.len() implies (#[trigger] before[i])@ == line_texts(
        before,
    )[i] by {}
}

} // verus!
