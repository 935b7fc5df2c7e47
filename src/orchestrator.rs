use vstd::prelude::*;

use crate::json::{json_parse_of, parse_json, parsed_view};
use crate::prompt::{
    build_formation_prompt, build_prompt, error_lines, error_text, feature_prompt, formation_prompt,
    parse_feedback, preamble,
};
use crate::sanitize::{clean_json_response, contains, sanitize};
use crate::shape::{
    decode_feature_design, decode_formation, feature_design_decodable, feature_design_decodes,
    formation_decodable, formation_decodes, is_feature_design_typedef, is_formation_typedef,
    lemma_valid_feature_design_decodable, lemma_valid_formation_decodable, list_member,
    FeatureDesignInput, FeatureDesignOutput, FormationInput, FormationOutput,
};
use crate::text::{decimal, decimal_string};
use crate::types::{
    errors_of, errors_view, root_path, validate, ErrorView, JsonValue, TypeDef, ValidationError,
};

verus! {

/// The most attempts that one request makes.
pub const MAX_ATTEMPTS: usize = 3;

/// What the next prompt reports of the previous attempt.
#[derive(Debug, Clone, PartialEq)]
pub enum Feedback {
    Nothing,
    ParseError(String),
    Invalid(Vec<ValidationError>),
}

pub enum FeedbackView {
    Nothing,
    ParseError(Seq<char>),
    Invalid(Seq<ErrorView>),
}

impl View for Feedback {
    type V = FeedbackView;

    open spec fn view(&self) -> FeedbackView {
        match self {
            Feedback::Nothing => FeedbackView::Nothing,
            Feedback::ParseError(m) => FeedbackView::ParseError(m@),
            Feedback::Invalid(es) => FeedbackView::Invalid(errors_view(es@)),
        }
    }
}

/// The state of one request between attempts: how many attempts were made,
/// and what the last one got wrong.
#[derive(Debug, Clone, PartialEq)]
pub struct Session {
    pub attempts: usize,
    pub feedback: Feedback,
}

/// Why a request ended without a result.
#[derive(Debug, Clone, PartialEq)]
pub enum OrchestratorError {
    /// The last attempt's text did not parse.
    ParseFailed { attempts: usize, message: String },
    /// The last attempt's document broke the schema or the requested count.
    ValidationFailed { attempts: usize, errors: Vec<ValidationError> },
    /// The document met the schema given but could not be read as the task's output.
    DecodeFailed { attempts: usize },
    /// The model could not be reached; this is never retried.
    Transport { attempts: usize, message: String },
}

pub enum OrchestratorErrorView {
    ParseFailed { attempts: nat, message: Seq<char> },
    ValidationFailed { attempts: nat, errors: Seq<ErrorView> },
    DecodeFailed { attempts: nat },
    Transport { attempts: nat, message: Seq<char> },
}

impl View for OrchestratorError {
    type V = OrchestratorErrorView;

    open spec fn view(&self) -> OrchestratorErrorView {
        match self {
            OrchestratorError::ParseFailed { attempts, message } => OrchestratorErrorView::ParseFailed {
                attempts: *attempts as nat,
                message: message@,
            },
            OrchestratorError::ValidationFailed { attempts, errors } => OrchestratorErrorView::ValidationFailed {
                attempts: *attempts as nat,
                errors: errors_view(errors@),
            },
            OrchestratorError::DecodeFailed { attempts } => OrchestratorErrorView::DecodeFailed {
                attempts: *attempts as nat,
            },
            OrchestratorError::Transport { attempts, message } => OrchestratorErrorView::Transport {
                attempts: *attempts as nat,
                message: message@,
            },
        }
    }
}

/// What one attempt leads to.
#[derive(Debug, Clone, PartialEq)]
pub enum Step<T> {
    /// A valid output: the request is done.
    Done(T),
    /// Another attempt, from this state.
    Retry(Session),
    /// The request ends with this error.
    Failed(OrchestratorError),
}

impl Session {
    /// The state before the first attempt.
    pub fn new() -> (r: Session)
        ensures
            r.attempts == 0,
            r.feedback@ == FeedbackView::Nothing,
    {
        Session { attempts: 0, feedback: Feedback::Nothing }
    }
}

pub open spec fn last_errors_of(f: FeedbackView) -> Option<Seq<ErrorView>> {
    match f {
        FeedbackView::Invalid(es) => Some(es),
        _ => None,
    }
}

pub open spec fn last_json_error_of(f: FeedbackView) -> Option<Seq<char>> {
    match f {
        FeedbackView::ParseError(m) => Some(m),
        _ => None,
    }
}

/// An attempt that went wrong as `fb` says: another attempt while fewer
/// than `MAX_ATTEMPTS` were made, else the matching terminal error.
pub open spec fn retry_or_fail<T>(session: Session, fb: FeedbackView, r: Step<T>) -> bool {
    let n = session.attempts + 1;
    if n < MAX_ATTEMPTS {
        r is Retry && r->Retry_0.attempts == n && r->Retry_0.feedback@ == fb
    } else {
        r is Failed && match fb {
            FeedbackView::ParseError(m) => r->Failed_0@ == OrchestratorErrorView::ParseFailed {
                attempts: n as nat,
                message: m,
            },
            FeedbackView::Invalid(es) => r->Failed_0@ == OrchestratorErrorView::ValidationFailed {
                attempts: n as nat,
                errors: es,
            },
            FeedbackView::Nothing => false,
        }
    }
}

/// What an attempt at a feature design leads to, the model's text having
/// parsed as `parsed`.
pub open spec fn feature_design_step_spec(
    session: Session,
    parsed: Result<JsonValue, Seq<char>>,
    schema: TypeDef,
    r: Step<FeatureDesignOutput>,
) -> bool {
    match parsed {
        Err(m) => retry_or_fail(session, FeedbackView::ParseError(m), r),
        Ok(v) => {
            let errs = errors_of(schema, v, root_path());
            if errs.len() > 0 {
                retry_or_fail(session, FeedbackView::Invalid(errs), r)
            } else if feature_design_decodable(v) {
                r is Done && feature_design_decodes(v, r->Done_0)
            } else {
                r is Failed && r->Failed_0@ == OrchestratorErrorView::DecodeFailed {
                    attempts: (session.attempts + 1) as nat,
                }
            }
        },
    }
}

/// The violation reported when a formation has `found` points, not `expected`.
pub open spec fn count_error(expected: nat, found: nat) -> ErrorView {
    ErrorView::TypeMismatch { path: "$.coordinates"@, expected: decimal(expected), found: decimal(found) }
}

/// What an attempt at a formation of `unit_count` points leads to, the
/// model's text having parsed as `parsed`.
pub open spec fn formation_step_spec(
    session: Session,
    parsed: Result<JsonValue, Seq<char>>,
    schema: TypeDef,
    unit_count: u32,
    r: Step<FormationOutput>,
) -> bool {
    match parsed {
        Err(m) => retry_or_fail(session, FeedbackView::ParseError(m), r),
        Ok(v) => {
            let errs = errors_of(schema, v, root_path());
            if errs.len() > 0 {
                retry_or_fail(session, FeedbackView::Invalid(errs), r)
            } else if formation_decodable(v) {
                let count = list_member(v, "coordinates"@)->0.len();
                if count == unit_count {
                    r is Done && formation_decodes(v, r->Done_0)
                } else {
                    retry_or_fail(
                        session,
                        FeedbackView::Invalid(seq![count_error(unit_count as nat, count)]),
                        r,
                    )
                }
            } else {
                r is Failed && r->Failed_0@ == OrchestratorErrorView::DecodeFailed {
                    attempts: (session.attempts + 1) as nat,
                }
            }
        },
    }
}

/// `r` ends the request with a parse failure after `attempts` attempts,
/// reporting `message`.
pub open spec fn parse_failure<T>(r: Step<T>, attempts: nat, message: Seq<char>) -> bool {
    &&& r is Failed
    &&& r->Failed_0@ == (OrchestratorErrorView::ParseFailed { attempts, message })
}

/// `r` is bounded as a step from `session` must be: a retry moves to the
/// next attempt number, never to `MAX_ATTEMPTS`, and the last attempt retries
/// nothing.
pub open spec fn bounded_step<T>(session: Session, r: Step<T>) -> bool {
    &&& r is Retry ==> r->Retry_0.attempts == session.attempts + 1
    &&& r is Retry ==> r->Retry_0.attempts < MAX_ATTEMPTS
    &&& session.attempts + 1 == MAX_ATTEMPTS ==> !(r is Retry)
}

/// Each attempt at a feature design either ends the request or leads to the
/// next attempt number, and never past the last one: a request makes at most
/// `MAX_ATTEMPTS` attempts. When the last attempt's text does not parse, the
/// request ends with a parse failure that carries the parser's message.
pub proof fn lemma_feature_design_attempts_bounded(
    session: Session,
    parsed: Result<JsonValue, Seq<char>>,
    schema: TypeDef,
    r: Step<FeatureDesignOutput>,
)
    requires
        session.attempts < MAX_ATTEMPTS,
        feature_design_step_spec(session, parsed, schema, r),
    ensures
        bounded_step(session, r),
        session.attempts + 1 == MAX_ATTEMPTS && parsed is Err ==> parse_failure(
            r,
            MAX_ATTEMPTS as nat,
            parsed->Err_0,
        ),
{
}

/// The same bound for formations: at most `MAX_ATTEMPTS` attempts, and a
/// last attempt whose text does not parse ends in a parse failure.
pub proof fn lemma_formation_attempts_bounded(
    session: Session,
    parsed: Result<JsonValue, Seq<char>>,
    schema: TypeDef,
    unit_count: u32,
    r: Step<FormationOutput>,
)
    requires
        session.attempts < MAX_ATTEMPTS,
        formation_step_spec(session, parsed, schema, unit_count, r),
    ensures
        bounded_step(session, r),
        session.attempts + 1 == MAX_ATTEMPTS && parsed is Err ==> parse_failure(
            r,
            MAX_ATTEMPTS as nat,
            parsed->Err_0,
        ),
{
}

/// A model that never returns parseable text: from a fresh request, the
/// first two attempts lead to retries and the third ends the request with a
/// parse failure that carries the third message.
pub proof fn lemma_unparseable_run_fails(
    s0: Session,
    schema: TypeDef,
    m0: Seq<char>,
    m1: Seq<char>,
    m2: Seq<char>,
    r0: Step<FeatureDesignOutput>,
    r1: Step<FeatureDesignOutput>,
    r2: Step<FeatureDesignOutput>,
)
    requires
        s0.attempts == 0,
        feature_design_step_spec(s0, Err(m0), schema, r0),
        r0 is Retry ==> feature_design_step_spec(r0->Retry_0, Err(m1), schema, r1),
        r1 is Retry ==> feature_design_step_spec(r1->Retry_0, Err(m2), schema, r2),
    ensures
        (r0 is Retry),
        (r1 is Retry),
        parse_failure(r2, 3, m2),
{
}

/// After an attempt whose text did not parse, the prompt of the next attempt
/// holds the parser's message word for word.
pub proof fn lemma_parse_error_in_next_prompt(
    input: FeatureDesignInput,
    schema: TypeDef,
    session: Session,
    m: Seq<char>,
    r: Step<FeatureDesignOutput>,
)
    requires
        session.attempts + 1 < MAX_ATTEMPTS,
        feature_design_step_spec(session, Err(m), schema, r),
    ensures
        (r is Retry),
        contains(
            feature_prompt(
                input,
                schema,
                last_errors_of(r->Retry_0.feedback@),
                last_json_error_of(r->Retry_0.feedback@),
            ),
            m,
        ),
{
    let p = feature_prompt(input, schema, None, Some(m));
    let head = preamble(schema) + "Context:\n"@ + "- Repo summary: "@ + input.repo_summary@
        + "\n- Constraints:\n"@ + crate::prompt::constraint_lines(input.constraints@);
    let lead = "\nYour previous response was not valid JSON. The error was:\n"@;
    let off: int = (head.len() + lead.len()) as int;
    assert(p =~= head + parse_feedback(m) + Seq::<char>::empty());
    assert(p.subrange(off, off + m.len()) =~= m);
}

/// With the task's own schema, a feature design document that meets it is
/// accepted at once, and the output holds exactly what the document holds.
pub proof fn lemma_valid_design_accepted(
    session: Session,
    schema: TypeDef,
    v: JsonValue,
    r: Step<FeatureDesignOutput>,
)
    requires
        is_feature_design_typedef(schema),
        errors_of(schema, v, root_path()).len() == 0,
        feature_design_step_spec(session, Ok(v), schema, r),
    ensures
        (r is Done),
        feature_design_decodes(v, r->Done_0),
{
    lemma_valid_feature_design_decodable(schema, v, root_path());
}

/// With the formation schema, a document that meets it is accepted exactly
/// when it holds the requested number of points; any other number counts as
/// an invalid attempt, reported by one error that names both numbers.
pub proof fn lemma_formation_count_checked(
    session: Session,
    schema: TypeDef,
    unit_count: u32,
    v: JsonValue,
    r: Step<FormationOutput>,
)
    requires
        is_formation_typedef(schema),
        errors_of(schema, v, root_path()).len() == 0,
        formation_step_spec(session, Ok(v), schema, unit_count, r),
    ensures
        (r is Done) <==> list_member(v, "coordinates"@)->0.len() == unit_count,
        (r is Done) ==> formation_decodes(v, r->Done_0),
        list_member(v, "coordinates"@)->0.len() != unit_count ==> retry_or_fail(
            session,
            FeedbackView::Invalid(
                seq![count_error(unit_count as nat, list_member(v, "coordinates"@)->0.len())],
            ),
            r,
        ),
{
    lemma_valid_formation_decodable(schema, v, root_path());
}

/// After a formation attempt whose valid document held the wrong number of
/// points, the next prompt states the requested and the found number:
/// `: expected N, found M`.
pub proof fn lemma_count_error_in_next_prompt(
    input: FormationInput,
    schema: TypeDef,
    session: Session,
    v: JsonValue,
    r: Step<FormationOutput>,
)
    requires
        session.attempts + 1 < MAX_ATTEMPTS,
        is_formation_typedef(schema),
        errors_of(schema, v, root_path()).len() == 0,
        list_member(v, "coordinates"@)->0.len() != input.unit_count,
        formation_step_spec(session, Ok(v), schema, input.unit_count, r),
    ensures
        (r is Retry),
        contains(
            formation_prompt(
                input,
                schema,
                last_errors_of(r->Retry_0.feedback@),
                last_json_error_of(r->Retry_0.feedback@),
            ),
            ": expected "@ + decimal(input.unit_count as nat) + ", found "@ + decimal(
                list_member(v, "coordinates"@)->0.len(),
            ),
        ),
{
    lemma_formation_count_checked(session, schema, input.unit_count, v, r);
    let count = list_member(v, "coordinates"@)->0.len();
    let e = count_error(input.unit_count as nat, count);
    let es = seq![e];
    let target = ": expected "@ + decimal(input.unit_count as nat) + ", found "@ + decimal(count);
    let p = formation_prompt(input, schema, Some(es), None);
    let body = formation_prompt(input, schema, None, None);
    assert(es.drop_last() =~= Seq::<ErrorView>::empty());
    assert(error_lines(es) == error_lines(Seq::<ErrorView>::empty()) + "- "@ + error_text(e) + "\n"@);
    let before = body + "\nYour previous JSON had these validation problems:\n"@ + "- "@
        + "Type mismatch at "@ + "$.coordinates"@;
    let after = "\n"@ + "\nFix these issues and output ONLY corrected JSON.\n"@;
    assert(p =~= before + target + after);
    let off: int = before.len() as int;
    assert(p.subrange(off, off + target.len()) =~= target);
}

/// The model call of this attempt failed: the request ends at once, with
/// no further attempt, whatever attempt it was.
pub fn after_transport_error<T>(session: Session, message: String) -> (r: Step<T>)
    requires
        session.attempts < MAX_ATTEMPTS,
    ensures
        (r is Failed),
        r->Failed_0@ == (OrchestratorErrorView::Transport {
            attempts: (session.attempts + 1) as nat,
            message: message@,
        }),
{
    Step::Failed(OrchestratorError::Transport { attempts: session.attempts + 1, message })
}

fn after_parse_error<T>(session: Session, message: String) -> (r: Step<T>)
    requires
        session.attempts < MAX_ATTEMPTS,
    ensures
        retry_or_fail(session, FeedbackView::ParseError(message@), r),
{
    let n = session.attempts + 1;
    if n < MAX_ATTEMPTS {
        Step::Retry(Session { attempts: n, feedback: Feedback::ParseError(message) })
    } else {
        Step::Failed(OrchestratorError::ParseFailed { attempts: n, message })
    }
}

fn after_invalid<T>(session: Session, errors: Vec<ValidationError>) -> (r: Step<T>)
    requires
        session.attempts < MAX_ATTEMPTS,
    ensures
        retry_or_fail(session, FeedbackView::Invalid(errors_view(errors@)), r),
{
    let n = session.attempts + 1;
    if n < MAX_ATTEMPTS {
        Step::Retry(Session { attempts: n, feedback: Feedback::Invalid(errors) })
    } else {
        Step::Failed(OrchestratorError::ValidationFailed { attempts: n, errors })
    }
}

/// Decides what an attempt at a feature design leads to, given what parsing
/// the model's cleaned text gave.
pub fn feature_design_outcome(
    session: Session,
    parsed: Result<JsonValue, String>,
    schema: &TypeDef,
) -> (r: Step<FeatureDesignOutput>)
    requires
        session.attempts < MAX_ATTEMPTS,
    ensures
        feature_design_step_spec(session, parsed_view(parsed), *schema, r),
{
    match parsed {
        Err(m) => after_parse_error(session, m),
        Ok(v) => match validate(schema, &v) {
            Err(errors) => after_invalid(session, errors),
            Ok(()) => match decode_feature_design(&v) {
                Some(o) => Step::Done(o),
                None => Step::Failed(OrchestratorError::DecodeFailed { attempts: session.attempts + 1 }),
            },
        },
    }
}

/// Decides what an attempt at a formation of `unit_count` points leads to,
/// given what parsing the model's cleaned text gave. A document with another
/// number of points counts as invalid.
pub fn formation_outcome(
    session: Session,
    parsed: Result<JsonValue, String>,
    schema: &TypeDef,
    unit_count: u32,
) -> (r: Step<FormationOutput>)
    requires
        session.attempts < MAX_ATTEMPTS,
    ensures
        formation_step_spec(session, parsed_view(parsed), *schema, unit_count, r),
{
    match parsed {
        Err(m) => after_parse_error(session, m),
        Ok(v) => match validate(schema, &v) {
            Err(errors) => after_invalid(session, errors),
            Ok(()) => match decode_formation(&v) {
                Some(o) => {
                    let count = o.coordinates.len();
                    if count as u64 == unit_count as u64 {
                        Step::Done(o)
                    } else {
                        let e = ValidationError::TypeMismatch {
                            path: String::from_str("$.coordinates"),
                            expected: decimal_string(unit_count as u64),
                            found: decimal_string(count as u64),
                        };
                        let errors = vec![e];
                        assert(errors_view(errors@) =~= seq![count_error(unit_count as nat, count as nat)]);
                        after_invalid(session, errors)
                    }
                },
                None => Step::Failed(OrchestratorError::DecodeFailed { attempts: session.attempts + 1 }),
            },
        },
    }
}

/// One attempt at a feature design: cleans the model's text, parses it, and
/// decides.
pub fn feature_design_step(session: Session, schema: &TypeDef, response: &str) -> (r: Step<
    FeatureDesignOutput,
>)
    requires
        session.attempts < MAX_ATTEMPTS,
    ensures
        feature_design_step_spec(session, json_parse_of(sanitize(response@)), *schema, r),
{
    let cleaned = clean_json_response(response);
    let parsed = parse_json(cleaned.as_str());
    feature_design_outcome(session, parsed, schema)
}

/// One attempt at a formation: cleans the model's text, parses it, and decides.
pub fn formation_step(session: Session, schema: &TypeDef, unit_count: u32, response: &str) -> (r:
    Step<FormationOutput>)
    requires
        session.attempts < MAX_ATTEMPTS,
    ensures
        formation_step_spec(session, json_parse_of(sanitize(response@)), *schema, unit_count, r),
{
    let cleaned = clean_json_response(response);
    let parsed = parse_json(cleaned.as_str());
    formation_outcome(session, parsed, schema, unit_count)
}

fn feedback_parts(f: &Feedback) -> (r: (Option<&Vec<ValidationError>>, Option<&str>))
    ensures
        crate::prompt::opt_errors(r.0) == last_errors_of(f@),
        crate::prompt::opt_text(r.1) == last_json_error_of(f@),
{
    match f {
        Feedback::Nothing => (None, None),
        Feedback::ParseError(m) => (None, Some(m.as_str())),
        Feedback::Invalid(es) => (Some(es), None),
    }
}

/// The prompt for the next attempt at a feature design.
pub fn feature_design_prompt(input: &FeatureDesignInput, schema: &TypeDef, session: &Session) -> (r:
    String)
    ensures
        r@ == feature_prompt(
            *input,
            *schema,
            last_errors_of(session.feedback@),
            last_json_error_of(session.feedback@),
        ),
{
    let (errors, json_error) = feedback_parts(&session.feedback);
    build_prompt(input, schema, errors, json_error)
}

/// The prompt for the next attempt at a formation.
pub fn formation_prompt_for(input: &FormationInput, schema: &TypeDef, session: &Session) -> (r:
    String)
    ensures
        r@ == formation_prompt(
            *input,
            *schema,
            last_errors_of(session.feedback@),
            last_json_error_of(session.feedback@),
        ),
{
    let (errors, json_error) = feedback_parts(&session.feedback);
    build_formation_prompt(input, schema, errors, json_error)
}

} // verus!
