use vstd::prelude::*;

use crate::shape::{FeatureDesignInput, FormationInput};
use crate::text::{decimal, decimal_string};
use crate::types::{errors_view, ErrorView, TypeDef, ValidationError};

verus! {

broadcast use vstd::std_specs::vec::group_vec_axioms;

pub open spec fn spaces(n: nat) -> Seq<char> {
    Seq::new(n, |i: int| ' ')
}

/// `indent` widened by `by`; indentation stops growing at `usize::MAX`.
pub open spec fn deeper(indent: usize, by: usize) -> usize {
    if indent + by > usize::MAX {
        usize::MAX
    } else {
        (indent + by) as usize
    }
}

/// The readable rendering of a schema, indented by `indent` spaces.
pub open spec fn describe(ty: TypeDef, indent: usize) -> Seq<char>
    decreases ty, 1nat, 0nat,
{
    let pad = spaces(indent as nat);
    match ty {
        TypeDef::Text => pad + "- string\n"@,
        TypeDef::Markdown => pad + "- string (markdown)\n"@,
        TypeDef::Number => pad + "- number\n"@,
        TypeDef::Bool => pad + "- boolean\n"@,
        TypeDef::List(inner) => pad + "- array of:\n"@ + describe(*inner, deeper(indent, 2)),
        TypeDef::Object(fields) => pad + "- object with fields:\n"@ + describe_fields(
            ty,
            indent,
            fields@.len(),
        ),
    }
}

/// The lines of the first `n` fields of the object schema `ty`.
pub open spec fn describe_fields(ty: TypeDef, indent: usize, n: nat) -> Seq<char>
    decreases ty, 0nat, n,
{
    match ty {
        TypeDef::Object(fields) => if n == 0 || n > fields@.len() {
            seq![]
        } else {
            let f = fields@[n - 1];
            describe_fields(ty, indent, (n - 1) as nat) + spaces(indent as nat) + "  - "@ + f.name@
                + ": "@ + match f.ty {
                TypeDef::Text => "string\n"@,
                TypeDef::Markdown => "string (markdown)\n"@,
                TypeDef::Number => "number\n"@,
                TypeDef::Bool => "boolean\n"@,
                TypeDef::List(inner) => "array of:\n"@ + describe(*inner, deeper(indent, 4)),
                TypeDef::Object(_) => "nested object:\n"@ + describe(f.ty, deeper(indent, 4)),
            }
        },
        _ => seq![],
    }
}

/// The line that reports one violation.
pub open spec fn error_text(e: ErrorView) -> Seq<char> {
    match e {
        ErrorView::MissingField { path } => "Missing required field at path "@ + path,
        ErrorView::TypeMismatch { path, expected, found } => "Type mismatch at "@ + path
            + ": expected "@ + expected + ", found "@ + found,
    }
}

pub open spec fn error_lines(errs: Seq<ErrorView>) -> Seq<char>
    decreases errs.len(),
{
    if errs.len() == 0 {
        seq![]
    } else {
        error_lines(errs.drop_last()) + "- "@ + error_text(errs.last()) + "\n"@
    }
}

pub open spec fn parse_feedback(message: Seq<char>) -> Seq<char> {
    "\nYour previous response was not valid JSON. The error was:\n"@ + message
        + "\n\nPlease output ONLY valid, parseable JSON without any control characters or formatting issues.\n"@
}

pub open spec fn validation_feedback(errs: Seq<ErrorView>) -> Seq<char> {
    "\nYour previous JSON had these validation problems:\n"@ + error_lines(errs)
        + "\nFix these issues and output ONLY corrected JSON.\n"@
}

/// What a prompt says of the previous attempt.
pub open spec fn feedback_text(
    last_errors: Option<Seq<ErrorView>>,
    last_json_error: Option<Seq<char>>,
) -> Seq<char> {
    (match last_json_error {
        Some(m) => parse_feedback(m),
        None => seq![],
    }) + (match last_errors {
        Some(es) => validation_feedback(es),
        None => seq![],
    })
}

pub open spec fn preamble(schema: TypeDef) -> Seq<char> {
    "You are a system that strictly outputs JSON.\n"@
        + "You must produce a JSON object that matches this schema:\n\n"@ + describe(schema, 0)
        + "\n\nThe JSON must be parseable and not contain comments or explanations.\n"@
        + "Do not wrap it in markdown code fences.\n"@
        + "Do not include control characters (null bytes, etc.) in your output.\n"@
        + "Escape special characters properly in JSON strings (use \\n for newlines, etc.).\n\n"@
}

pub open spec fn constraint_lines(cs: Seq<String>) -> Seq<char>
    decreases cs.len(),
{
    if cs.len() == 0 {
        seq![]
    } else {
        constraint_lines(cs.drop_last()) + "  - "@ + cs.last()@ + "\n"@
    }
}

pub open spec fn opt_errors(e: Option<&Vec<ValidationError>>) -> Option<Seq<ErrorView>> {
    match e {
        Some(es) => Some(errors_view(es@)),
        None => None,
    }
}

pub open spec fn opt_text(e: Option<&str>) -> Option<Seq<char>> {
    match e {
        Some(m) => Some(m@),
        None => None,
    }
}

/// The prompt that asks for a feature design.
pub open spec fn feature_prompt(
    input: FeatureDesignInput,
    schema: TypeDef,
    last_errors: Option<Seq<ErrorView>>,
    last_json_error: Option<Seq<char>>,
) -> Seq<char> {
    preamble(schema) + "Context:\n"@ + "- Repo summary: "@ + input.repo_summary@
        + "\n- Constraints:\n"@ + constraint_lines(input.constraints@) + feedback_text(
        last_errors,
        last_json_error,
    )
}

/// Point `i` of the worked example: `i * 10` along the x axis.
pub open spec fn example_point(i: nat) -> Seq<char> {
    "{\"x\":"@ + decimal(i * 10) + ".0,\"y\":0.0}"@
}

/// The first `n` points of the worked example, separated by commas.
pub open spec fn example_points(n: nat) -> Seq<char>
    decreases n,
{
    if n == 0 {
        seq![]
    } else if n == 1 {
        example_point(0)
    } else {
        example_points((n - 1) as nat) + ","@ + example_point((n - 1) as nat)
    }
}

/// A worked example with exactly `n` coordinates.
pub open spec fn formation_example(n: nat) -> Seq<char> {
    "Example output format (for "@ + decimal(n) + " units):\n"@ + "{\"coordinates\":["@
        + example_points(n) + "]}\n"@
}

pub open spec fn formation_rules(n: nat) -> Seq<char> {
    "Coordinates should be reasonable 2D positions (typically between 0-100 for x and y).\n"@
        + "The formation should be visually recognizable as the requested shape.\n"@ + "\n"@
        + formation_example(n) + "\n"@
        + "CRITICAL: Output ONLY the JSON object, nothing else. No text before or after. No markdown. No explanations.\n"@
        + "The JSON must be valid and parseable. Do NOT include:\n"@
        + "- Control characters (null bytes, etc.)\n"@
        + "- Unescaped newlines or tabs inside JSON strings\n"@
        + "- Any characters outside the JSON structure\n"@ + "- Trailing commas\n"@
}

/// The prompt that asks for a formation of `input.unit_count` points.
pub open spec fn formation_prompt(
    input: FormationInput,
    schema: TypeDef,
    last_errors: Option<Seq<ErrorView>>,
    last_json_error: Option<Seq<char>>,
) -> Seq<char> {
    let n = decimal(input.unit_count as nat);
    preamble(schema) + "Task: Generate 2D coordinates for unit formation.\n"@
        + "- Formation description: "@ + input.formation_description@ + "\n"@
        + "- Number of units: "@ + n + "\n"@ + "\n"@ + "CRITICAL: You MUST generate EXACTLY "@ + n
        + " coordinates (x, y pairs), no more, no less.\n"@
        + "The coordinates array must contain exactly "@ + n + " items.\n"@ + formation_rules(
            input.unit_count as nat,
        )
        + feedback_text(last_errors, last_json_error)
}

impl ValidationError {
    /// The line that reports this violation.
    pub fn to_text(&self) -> (r: String)
        ensures
            r@ == error_text(self@),
    {
        match self {
            ValidationError::MissingField { path } => {
                let mut s = String::from_str("Missing required field at path ");
                s.append(path.as_str());
                s
            },
            ValidationError::TypeMismatch { path, expected, found } => {
                let mut s = String::from_str("Type mismatch at ");
                s.append(path.as_str());
                s.append(": expected ");
                s.append(expected.as_str());
                s.append(", found ");
                s.append(found.as_str());
                s
            },
        }
    }
}

fn push_spaces(s: &mut String, n: usize)
    ensures
        final(s)@ == old(s)@ + spaces(n as nat),
{
    let mut i: usize = 0;
    while i < n
        invariant
            i <= n,
            s@ == old(s)@ + spaces(i as nat),
        decreases n - i,
    {
        s.append(" ");
        proof {
            reveal_strlit(" ");
        }
        assert(s@ =~= old(s)@ + spaces((i + 1) as nat));
        i = i + 1;
    }
}

/// The readable rendering of a schema, indented by `indent` spaces.
pub fn describe_schema(ty: &TypeDef, indent: usize) -> (r: String)
    ensures
        r@ == describe(*ty, indent),
    decreases ty,
{
    let mut s = String::new();
    push_spaces(&mut s, indent);
    let ghost pad = s@;
    match ty {
        TypeDef::Text => s.append("- string\n"),
        TypeDef::Markdown => s.append("- string (markdown)\n"),
        TypeDef::Number => s.append("- number\n"),
        TypeDef::Bool => s.append("- boolean\n"),
        TypeDef::List(inner) => {
            s.append("- array of:\n");
            let d = describe_schema(inner, indent.saturating_add(2));
            s.append(d.as_str());
        },
        TypeDef::Object(fields) => {
            s.append("- object with fields:\n");
            let ghost head = s@;
            let mut i: usize = 0;
            assert(head =~= head + describe_fields(*ty, indent, 0));
            while i < fields.len()
                invariant
                    i <= fields@.len(),
                    *ty == TypeDef::Object(*fields),
                    s@ == head + describe_fields(*ty, indent, i as nat),
                decreases fields.len() - i,
            {
                let f = &fields[i];
                let ghost before = s@;
                push_spaces(&mut s, indent);
                s.append("  - ");
                s.append(f.name.as_str());
                s.append(": ");
                proof {
                    assert(decreases_to!(*ty => fields@[i as int].ty)) by {
                        assert(decreases_to!(*fields => fields@[i as int]));
                    }
                }
                match &f.ty {
                    TypeDef::Text => s.append("string\n"),
                    TypeDef::Markdown => s.append("string (markdown)\n"),
                    TypeDef::Number => s.append("number\n"),
                    TypeDef::Bool => s.append("boolean\n"),
                    TypeDef::List(inner) => {
                        s.append("array of:\n");
                        let d = describe_schema(inner, indent.saturating_add(4));
                        s.append(d.as_str());
                    },
                    TypeDef::Object(_) => {
                        s.append("nested object:\n");
                        let d = describe_schema(&f.ty, indent.saturating_add(4));
                        s.append(d.as_str());
                    },
                }
                assert(s@ =~= head + describe_fields(*ty, indent, (i + 1) as nat));
                i = i + 1;
            }
        },
    }
    assert(s@ =~= describe(*ty, indent));
    s
}

fn push_error_lines(s: &mut String, errors: &Vec<ValidationError>)
    ensures
        final(s)@ == old(s)@ + error_lines(errors_view(errors@)),
{
    let mut i: usize = 0;
    assert(errors_view(errors@).subrange(0, 0) =~= Seq::<ErrorView>::empty());
    while i < errors.len()
        invariant
            i <= errors@.len(),
            s@ == old(s)@ + error_lines(errors_view(errors@).subrange(0, i as int)),
        decreases errors.len() - i,
    {
        let ghost pre = errors_view(errors@).subrange(0, i as int);
        let ghost next = errors_view(errors@).subrange(0, (i + 1) as int);
        assert(next.drop_last() =~= pre);
        s.append("- ");
        let line = errors[i].to_text();
        s.append(line.as_str());
        s.append("\n");
        assert(s@ =~= old(s)@ + error_lines(next));
        i = i + 1;
    }
    assert(errors_view(errors@).subrange(0, errors@.len() as int) =~= errors_view(errors@));
}

fn push_feedback(s: &mut String, last_errors: Option<&Vec<ValidationError>>, last_json_error: Option<&str>)
    ensures
        final(s)@ == old(s)@ + feedback_text(opt_errors(last_errors), opt_text(last_json_error)),
{
    if let Some(json_err) = last_json_error {
        s.append("\nYour previous response was not valid JSON. The error was:\n");
        s.append(json_err);
        s.append(
            "\n\nPlease output ONLY valid, parseable JSON without any control characters or formatting issues.\n",
        );
    }
    let ghost mid = s@;
    if let Some(errors) = last_errors {
        s.append("\nYour previous JSON had these validation problems:\n");
        push_error_lines(s, errors);
        s.append("\nFix these issues and output ONLY corrected JSON.\n");
    }
    assert(s@ =~= old(s)@ + feedback_text(opt_errors(last_errors), opt_text(last_json_error)));
}

fn push_preamble(s: &mut String, schema: &TypeDef)
    ensures
        final(s)@ == old(s)@ + preamble(*schema),
{
    s.append("You are a system that strictly outputs JSON.\n");
    s.append("You must produce a JSON object that matches this schema:\n\n");
    let d = describe_schema(schema, 0);
    s.append(d.as_str());
    s.append("\n\nThe JSON must be parseable and not contain comments or explanations.\n");
    s.append("Do not wrap it in markdown code fences.\n");
    s.append("Do not include control characters (null bytes, etc.) in your output.\n");
    s.append("Escape special characters properly in JSON strings (use \\n for newlines, etc.).\n\n");
    assert(s@ =~= old(s)@ + preamble(*schema));
}

/// The prompt that asks for a feature design, with what went wrong last time.
pub fn build_prompt(
    input: &FeatureDesignInput,
    output_schema: &TypeDef,
    last_errors: Option<&Vec<ValidationError>>,
    last_json_error: Option<&str>,
) -> (r: String)
    ensures
        r@ == feature_prompt(
            *input,
            *output_schema,
            opt_errors(last_errors),
            opt_text(last_json_error),
        ),
{
    let mut s = String::new();
    push_preamble(&mut s, output_schema);
    s.append("Context:\n");
    s.append("- Repo summary: ");
    s.append(input.repo_summary.as_str());
    s.append("\n- Constraints:\n");
    let ghost head = s@;
    let mut i: usize = 0;
    assert(input.constraints@.subrange(0, 0) =~= Seq::<String>::empty());
    while i < input.constraints.len()
        invariant
            i <= input.constraints@.len(),
            s@ == head + constraint_lines(input.constraints@.subrange(0, i as int)),
        decreases input.constraints.len() - i,
    {
        let ghost next = input.constraints@.subrange(0, (i + 1) as int);
        assert(next.drop_last() =~= input.constraints@.subrange(0, i as int));
        s.append("  - ");
        s.append(input.constraints[i].as_str());
        s.append("\n");
        assert(s@ =~= head + constraint_lines(next));
        i = i + 1;
    }
    assert(input.constraints@.subrange(0, input.constraints@.len() as int) =~= input.constraints@);
    push_feedback(&mut s, last_errors, last_json_error);
    assert(s@ =~= feature_prompt(
        *input,
        *output_schema,
        opt_errors(last_errors),
        opt_text(last_json_error),
    ));
    s
}

fn push_example(s: &mut String, n: u32)
    ensures
        final(s)@ == old(s)@ + formation_example(n as nat),
{
    s.append("Example output format (for ");
    let count = decimal_string(n as u64);
    s.append(count.as_str());
    s.append(" units):\n");
    s.append("{\"coordinates\":[");
    let ghost head = s@;
    let mut i: u32 = 0;
    while i < n
        invariant
            i <= n,
            s@ == head + example_points(i as nat),
        decreases n - i,
    {
        if i > 0 {
            s.append(",");
        }
        s.append("{\"x\":");
        let x = decimal_string(i as u64 * 10);
        s.append(x.as_str());
        s.append(".0,\"y\":0.0}");
        assert(s@ =~= head + example_points((i + 1) as nat));
        i = i + 1;
    }
    s.append("]}\n");
    assert(s@ =~= old(s)@ + formation_example(n as nat));
}

/// The prompt that asks for a formation, with what went wrong last time.
pub fn build_formation_prompt(
    input: &FormationInput,
    output_schema: &TypeDef,
    last_errors: Option<&Vec<ValidationError>>,
    last_json_error: Option<&str>,
) -> (r: String)
    ensures
        r@ == formation_prompt(
            *input,
            *output_schema,
            opt_errors(last_errors),
            opt_text(last_json_error),
        ),
{
    let mut s = String::new();
    push_preamble(&mut s, output_schema);
    let n = decimal_string(input.unit_count as u64);
    s.append("Task: Generate 2D coordinates for unit formation.\n");
    s.append("- Formation description: ");
    s.append(input.formation_description.as_str());
    s.append("\n");
    s.append("- Number of units: ");
    s.append(n.as_str());
    s.append("\n");
    s.append("\n");
    s.append("CRITICAL: You MUST generate EXACTLY ");
    s.append(n.as_str());
    s.append(" coordinates (x, y pairs), no more, no less.\n");
    s.append("The coordinates array must contain exactly ");
    s.append(n.as_str());
    s.append(" items.\n");
    s.append("Coordinates should be reasonable 2D positions (typically between 0-100 for x and y).\n");
    s.append("The formation should be visually recognizable as the requested shape.\n");
    s.append("\n");
    push_example(&mut s, input.unit_count);
    s.append("\n");
    s.append(
        "CRITICAL: Output ONLY the JSON object, nothing else. No text before or after. No markdown. No explanations.\n",
    );
    s.append("The JSON must be valid and parseable. Do NOT include:\n");
    s.append("- Control characters (null bytes, etc.)\n");
    s.append("- Unescaped newlines or tabs inside JSON strings\n");
    s.append("- Any characters outside the JSON structure\n");
    s.append("- Trailing commas\n");
    push_feedback(&mut s, last_errors, last_json_error);
    assert(s@ =~= formation_prompt(
        *input,
        *output_schema,
        opt_errors(last_errors),
        opt_text(last_json_error),
    ));
    s
}

} // verus!
