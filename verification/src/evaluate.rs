//! Evaluate a rule condition against the project.

use crate::capabilities::ProviderCondition;
use crate::dependency::{
    check_dependencies, project_check, CheckV, DependencyError, LockfileEntry, PackageFile,
};
use crate::incident::{append_incidents, incident_models, opt_view, Incident, IncidentV};
use crate::json::{field, value_model, JsonV};
use crate::paths::{components, same_path};
use crate::pattern::{regex_source, regex_valid};
use crate::project_index::ProjectIndex;
use crate::query_eval::{evaluate_referenced, patterns_valid, query_hits, query_of};
use crate::scan::Scan;
use crate::scanner::{
    body_of, classname_hits, css_var_hits, kind_of, outcome_of, program_of, scan_file_classnames,
    scan_file_css_vars, uri_of, ParseError,
};
use vstd::prelude::*;

verus! {

/// What a YAML document holds, where `yaml_serde` reads it as a JSON value.
pub uninterp spec fn yaml_document(text: Seq<char>) -> Option<JsonV>;

/// What `yaml_serde` prints for a JSON value; nothing where it fails.
pub uninterp spec fn yaml_text(v: JsonV) -> Option<Seq<char>>;

/// Reads a YAML document into a JSON value with `yaml_serde::from_str`. Whether it can be read,
/// and the value, depend on the text alone.
#[verifier::external_body]
fn read_yaml(text: &str) -> (r: Option<serde_json::Value>)
    ensures
        match r {
            Some(v) => yaml_document(text@) == Some(value_model(v)),
            None => yaml_document(text@) is None,
        },
{
    yaml_serde::from_str(text).ok()
}

/// The value of an object's field, with `serde_json::Value::get`; nothing where the value is no
/// object or has no such field.
#[verifier::external_body]
fn value_field<'a>(v: &'a serde_json::Value, key: &str) -> (r: Option<&'a serde_json::Value>)
    ensures
        match r {
            Some(x) => field(value_model(*v), key@) == Some(value_model(*x)),
            None => field(value_model(*v), key@) is None,
        },
{
    v.get(key)
}

/// Prints a JSON value as YAML with `yaml_serde::to_string`. The text depends on the value alone.
#[verifier::external_body]
fn print_yaml(v: &serde_json::Value) -> (r: Option<String>)
    ensures
        opt_view(r) == yaml_text(value_model(*v)),
{
    yaml_serde::to_string(v).ok()
}

/// The condition that a wrapper holds under a key.
pub open spec fn nested_condition(capability: Seq<char>, condition: Seq<char>) -> Option<Seq<char>> {
    match yaml_document(condition) {
        Some(doc) => match field(doc, capability) {
            Some(nested) => yaml_text(nested),
            None => None,
        },
        None => None,
    }
}

/// Extract nested condition from kantra's wrapper format.
///
/// The wrapper has `tags`, `template`, `ruleID`, `depLabelSelector`, and the condition under a key
/// that is the name of the capability. It comes back as a condition by itself.
pub fn extract_nested_condition(capability: &str, condition_yaml: &str) -> (r: Option<String>)
    ensures
        opt_view(r) == nested_condition(capability@, condition_yaml@),
{
    let parsed = match read_yaml(condition_yaml) {
        Some(v) => v,
        None => return None,
    };
    match value_field(&parsed, capability) {
        Some(nested) => print_yaml(nested),
        None => None,
    }
}

/// The condition in a request: the one that a wrapper holds, or else the request as it is.
pub fn effective_condition(capability: &str, condition_yaml: &str) -> (r: String)
    ensures
        r@ == (match nested_condition(capability@, condition_yaml@) {
            Some(nested) => nested,
            None => condition_yaml@,
        }),
{
    match extract_nested_condition(capability, condition_yaml) {
        Some(nested) => nested,
        None => condition_yaml.to_owned(),
    }
}

/// Result of evaluating a condition, including any files that could not be parsed.
#[derive(Debug)]
pub struct EvaluationResult {
    /// Whether anything was found.
    pub matched: bool,
    pub incidents: Vec<Incident>,
    /// Files that could not be parsed, each at most once.
    pub parse_errors: Vec<ParseError>,
}

/// A file that could not be parsed.
pub ghost struct ErrorV {
    pub file_path: Seq<char>,
    pub message: Seq<char>,
}

impl View for ParseError {
    type V = ErrorV;

    open spec fn view(&self) -> ErrorV {
        ErrorV { file_path: self.file_path@, message: self.message@ }
    }
}

/// What parse errors hold.
pub open spec fn error_models(s: Seq<ParseError>) -> Seq<ErrorV> {
    s.map_values(|e: ParseError| e@)
}

/// Whether a file is among those that could not be parsed.
pub open spec fn reports_file(errors: Seq<ErrorV>, path: Seq<char>) -> bool {
    exists|i: int|
        0 <= i < errors.len() && components((#[trigger] errors[i]).file_path) == components(path)
}

/// Parse errors with one more, unless its file is among them.
pub open spec fn with_error(errors: Seq<ErrorV>, e: Option<ErrorV>) -> Seq<ErrorV> {
    match e {
        Some(x) => if reports_file(errors, x.file_path) {
            errors
        } else {
            errors.push(x)
        },
        None => errors,
    }
}

fn add_error(errors: &mut Vec<ParseError>, e: Option<ParseError>)
    ensures
        error_models(final(errors)@) == with_error(
            error_models(old(errors)@),
            match e {
                Some(x) => Some(x@),
                None => None,
            },
        ),
{
    let ghost s = error_models(errors@);
    if let Some(x) = e {
        let mut i: usize = 0;
        while i < errors.len()
            invariant
                i <= errors@.len(),
                s == error_models(errors@),
                s == error_models(old(errors)@),
                e == Some(x),
                forall|k: int|
                    0 <= k < i ==> components((#[trigger] s[k]).file_path) != components(
                        x.file_path@,
                    ),
            decreases errors.len() - i,
        {
            assert(s[i as int] == errors@[i as int]@);
            if same_path(errors[i].file_path.as_str(), x.file_path.as_str()) {
                return;
            }
            i = i + 1;
        }
        errors.push(x);
        assert(error_models(errors@) =~= s.push(x@));
    }
}

/// A source file.
#[derive(Debug)]
pub struct SourceFile {
    pub path: String,
    pub source: String,
}

/// What a scan of a file gives, as far as it is taken over.
pub open spec fn outcome_view(r: (Seq<IncidentV>, Option<(Seq<char>, Seq<char>)>)) -> (
    Seq<IncidentV>,
    Option<ErrorV>,
) {
    (
        r.0,
        match r.1 {
            Some((file_path, message)) => Some(ErrorV { file_path, message }),
            None => None,
        },
    )
}

/// What a scan of a file for class names, or for CSS variables, gives.
pub open spec fn css_scan(
    variables: bool,
    file: SourceFile,
    root: Seq<char>,
    pattern: Seq<char>,
) -> (Seq<IncidentV>, Option<ErrorV>) {
    let program = program_of(file.source@, kind_of(file.path@, file.source@));
    let body = body_of(program);
    let scan = Scan { source: file.source@, pattern, file_uri: uri_of(file.path@, root) };
    outcome_view(
        outcome_of(
            program,
            if variables {
                css_var_hits(body, body.len() as int, scan)
            } else {
                classname_hits(body, body.len() as int, scan)
            },
            file.path@,
            file.source@,
        ),
    )
}

/// The incidents of the first `n` files.
pub open spec fn css_incidents(
    variables: bool,
    files: Seq<SourceFile>,
    n: int,
    root: Seq<char>,
    pattern: Seq<char>,
) -> Seq<IncidentV>
    decreases n,
{
    if n <= 0 || n > files.len() {
        Seq::empty()
    } else {
        css_incidents(variables, files, n - 1, root, pattern) + css_scan(
            variables,
            files[n - 1],
            root,
            pattern,
        ).0
    }
}

/// Those of the first `n` files that could not be parsed, each once.
pub open spec fn css_errors(
    variables: bool,
    files: Seq<SourceFile>,
    n: int,
    root: Seq<char>,
    pattern: Seq<char>,
) -> Seq<ErrorV>
    decreases n,
{
    if n <= 0 || n > files.len() {
        Seq::empty()
    } else {
        with_error(
            css_errors(variables, files, n - 1, root, pattern),
            css_scan(variables, files[n - 1], root, pattern).1,
        )
    }
}

/// What an evaluation comes to.
pub open spec fn is_result(
    r: EvaluationResult,
    incidents: Seq<IncidentV>,
    errors: Seq<ErrorV>,
) -> bool {
    &&& incident_models(r.incidents@) == incidents
    &&& error_models(r.parse_errors@) == errors
    &&& r.matched == (incidents.len() > 0)
}

/// The result of an evaluation: it matched if anything was found.
pub fn make_result(incidents: Vec<Incident>, parse_errors: Vec<ParseError>) -> (r: EvaluationResult)
    ensures
        is_result(r, incident_models(incidents@), error_models(parse_errors@)),
{
    assert(incident_models(incidents@).len() == incidents@.len());
    let matched = incidents.len() > 0;
    EvaluationResult { matched, incidents, parse_errors }
}

/// Evaluate a condition on class names, or on CSS variables: what was found in the stylesheets,
/// then what is found in the JS/TS files.
pub fn evaluate_css(
    variables: bool,
    pattern: &str,
    stylesheets: Vec<Incident>,
    files: &Vec<SourceFile>,
    root: &str,
) -> (r: Result<EvaluationResult, regex::Error>)
    ensures
        match r {
            Ok(result) => regex_valid(pattern@) && is_result(
                result,
                incident_models(stylesheets@) + css_incidents(
                    variables,
                    files@,
                    files@.len() as int,
                    root@,
                    pattern@,
                ),
                css_errors(variables, files@, files@.len() as int, root@, pattern@),
            ),
            Err(_) => !regex_valid(pattern@),
        },
{
    let re = match regex::Regex::new(pattern) {
        Ok(re) => re,
        Err(e) => return Err(e),
    };
    let ghost before = incident_models(stylesheets@);
    let mut incidents = stylesheets;
    let mut errors: Vec<ParseError> = Vec::new();
    assert(error_models(errors@) =~= Seq::<ErrorV>::empty());
    assert(before + css_incidents(variables, files@, 0, root@, pattern@) =~= before);
    let mut i: usize = 0;
    while i < files.len()
        invariant
            i <= files@.len(),
            regex_source(re) == pattern@,
            incident_models(incidents@) == before + css_incidents(
                variables,
                files@,
                i as int,
                root@,
                pattern@,
            ),
            error_models(errors@) == css_errors(variables, files@, i as int, root@, pattern@),
        decreases files.len() - i,
    {
        let path = files[i].path.as_str();
        let source = files[i].source.as_str();
        let (mut found, error) = if variables {
            scan_file_css_vars(path, source, root, &re)
        } else {
            scan_file_classnames(path, source, root, &re)
        };
        let ghost own = css_scan(variables, files@[i as int], root@, pattern@);
        assert(incident_models(found@) == own.0);
        append_incidents(&mut incidents, &mut found);
        add_error(&mut errors, error);
        i = i + 1;
        assert(incident_models(incidents@) =~= before + css_incidents(
            variables,
            files@,
            i as int,
            root@,
            pattern@,
        ));
    }
    Ok(make_result(incidents, errors))
}

/// What a condition is evaluated against.
#[derive(Debug)]
pub struct ProjectData {
    pub root: String,
    /// The JS/TS files that the condition asks for.
    pub files: Vec<SourceFile>,
    /// What was found in the stylesheets.
    pub stylesheets: Vec<Incident>,
    /// The package.json files.
    pub packages: Vec<PackageFile>,
    /// The packages of the lockfile.
    pub dependents: Vec<LockfileEntry>,
    pub index: ProjectIndex,
}

/// Why a condition could not be evaluated.
#[derive(Debug)]
pub enum EvaluationError {
    /// A pattern is no regular expression.
    Pattern(regex::Error),
    /// A package.json is no JSON document, and why.
    Json(String),
}

/// What an evaluation comes to.
pub ghost enum EvaluationV {
    Pattern,
    Json(Seq<char>),
    Done(Seq<IncidentV>, Seq<ErrorV>),
}

/// What an evaluation comes to.
pub open spec fn evaluation(condition: ProviderCondition, data: ProjectData) -> EvaluationV {
    match condition {
        ProviderCondition::Referenced(c) => {
            let q = query_of(c, data.root@);
            if patterns_valid(c.location, q) {
                EvaluationV::Done(query_hits(data.index, c.location, q), Seq::empty())
            } else {
                EvaluationV::Pattern
            }
        },
        ProviderCondition::CssClass(c) => css_evaluation(false, c.pattern@, data),
        ProviderCondition::CssVar(c) => css_evaluation(true, c.pattern@, data),
        ProviderCondition::Dependency(c) => match project_check(
            data.packages@,
            data.dependents@,
            c@,
        ) {
            CheckV::Found(found) => EvaluationV::Done(found, Seq::empty()),
            CheckV::Json(message) => EvaluationV::Json(message),
            CheckV::Pattern => EvaluationV::Pattern,
        },
    }
}

/// What the evaluation of a condition on class names, or on CSS variables, comes to.
pub open spec fn css_evaluation(variables: bool, pattern: Seq<char>, data: ProjectData) -> EvaluationV {
    let n = data.files@.len() as int;
    if regex_valid(pattern) {
        EvaluationV::Done(
            incident_models(data.stylesheets@) + css_incidents(
                variables,
                data.files@,
                n,
                data.root@,
                pattern,
            ),
            css_errors(variables, data.files@, n, data.root@, pattern),
        )
    } else {
        EvaluationV::Pattern
    }
}

/// Evaluate a single condition against the project.
///
/// Returns both the matched incidents and any parse errors encountered. Parse errors indicate
/// files that could not be analyzed due to syntax problems.
pub fn evaluate_condition(condition: &ProviderCondition, data: ProjectData) -> (r: Result<
    EvaluationResult,
    EvaluationError,
>)
    ensures
        match (r, evaluation(*condition, data)) {
            (Ok(result), EvaluationV::Done(found, errors)) => is_result(result, found, errors),
            (Err(EvaluationError::Pattern(_)), EvaluationV::Pattern) => true,
            (Err(EvaluationError::Json(m)), EvaluationV::Json(message)) => m@ == message,
            _ => false,
        },
{
    match condition {
        ProviderCondition::Referenced(c) => match evaluate_referenced(
            c,
            &data.index,
            data.root.as_str(),
        ) {
            Ok(found) => Ok(make_result(found, no_errors())),
            Err(e) => Err(EvaluationError::Pattern(e)),
        },
        ProviderCondition::CssClass(c) => match evaluate_css(
            false,
            c.pattern.as_str(),
            data.stylesheets,
            &data.files,
            data.root.as_str(),
        ) {
            Ok(result) => Ok(result),
            Err(e) => Err(EvaluationError::Pattern(e)),
        },
        ProviderCondition::CssVar(c) => match evaluate_css(
            true,
            c.pattern.as_str(),
            data.stylesheets,
            &data.files,
            data.root.as_str(),
        ) {
            Ok(result) => Ok(result),
            Err(e) => Err(EvaluationError::Pattern(e)),
        },
        ProviderCondition::Dependency(c) => match check_dependencies(
            &data.packages,
            &data.dependents,
            c,
        ) {
            Ok(found) => Ok(make_result(found, no_errors())),
            Err(DependencyError::Json(m)) => Err(EvaluationError::Json(m)),
            Err(DependencyError::Pattern(e)) => Err(EvaluationError::Pattern(e)),
        },
    }
}

fn no_errors() -> (r: Vec<ParseError>)
    ensures
        error_models(r@) == Seq::<ErrorV>::empty(),
{
    let r: Vec<ParseError> = Vec::new();
    assert(error_models(r@) =~= Seq::<ErrorV>::empty());
    r
}

/// Whether no file is reported twice.
pub open spec fn errors_once(errors: Seq<ErrorV>) -> bool {
    forall|i: int, j: int|
        0 <= i < j < errors.len() ==> components((#[trigger] errors[i]).file_path) != components(
            (#[trigger] errors[j]).file_path,
        )
}

/// Each file that could not be parsed is reported at most once.
pub proof fn law_errors_once(
    variables: bool,
    files: Seq<SourceFile>,
    n: int,
    root: Seq<char>,
    pattern: Seq<char>,
)
    ensures
        errors_once(css_errors(variables, files, n, root, pattern)),
    decreases n,
{
    if 0 < n <= files.len() {
        law_errors_once(variables, files, n - 1, root, pattern);
    }
}

} // verus!
