//! Literal texts that match a regular expression, and the incidents they give rise to.

use crate::estree::{
    get_number, get_quasi_end, get_quasi_start, get_raw_quasi, get_string_literal, number_field,
    quasi_end, quasi_start, raw_quasi, string_literal, Role, Work, WorkV,
};
use crate::incident::{incident_models, push_incident, Incident, IncidentV};
use crate::json::{Json, JsonV};
use crate::pattern::{find_spans, regex_accepts, regex_source, regex_spans};
use crate::scanner::{capped, incident_at, make_incident};
use vstd::prelude::*;

verus! {

/// What a scan looks for, and where.
pub ghost struct Scan {
    /// The source text.
    pub source: Seq<char>,
    /// The regular expression.
    pub pattern: Seq<char>,
    /// The URI of the file.
    pub file_uri: Seq<char>,
}

impl Scan {
    /// Whether a text matches.
    pub open spec fn accepts(self, text: Seq<char>) -> bool {
        regex_accepts(self.pattern, text)
    }

    /// The incident for a matching text that covers the bytes from `start` up to `end`.
    pub open spec fn hit(self, start: u32, end: u32, matched: Seq<char>) -> IncidentV {
        incident_at(self.source, self.file_uri, start, end).with_text("matchingText"@, matched)
    }

    /// The incident for a string literal, where its text matches.
    pub open spec fn literal_hits(self, v: JsonV) -> Seq<IncidentV> {
        match string_literal(v) {
            Some(t) => if self.accepts(t) {
                seq![self.hit(number_field(v, "start"@), number_field(v, "end"@), t)]
            } else {
                Seq::empty()
            },
            None => Seq::empty(),
        }
    }

    /// The incident for a template element, where its raw text matches.
    pub open spec fn quasi_hits(self, v: JsonV) -> Seq<IncidentV> {
        match raw_quasi(v) {
            Some(t) => if self.accepts(t) {
                seq![self.hit(quasi_start(v), quasi_end(v), t)]
            } else {
                Seq::empty()
            },
            None => Seq::empty(),
        }
    }

    /// The incidents for the first `n` matches within a template element's raw text.
    pub open spec fn match_hits(self, v: JsonV, raw: Seq<char>, n: int) -> Seq<IncidentV>
        decreases n,
    {
        if n <= 0 {
            Seq::empty()
        } else {
            let span = regex_spans(self.pattern, raw)[n - 1];
            self.match_hits(v, raw, n - 1).push(
                self.hit(
                    capped(quasi_start(v) + span.0),
                    capped(quasi_start(v) + span.1),
                    raw,
                ),
            )
        }
    }

    /// The incidents for a template element, one for each match in its raw text.
    pub open spec fn quasi_match_hits(self, v: JsonV) -> Seq<IncidentV> {
        match raw_quasi(v) {
            Some(t) => if self.accepts(t) {
                self.match_hits(v, t, regex_spans(self.pattern, t).len() as int)
            } else {
                Seq::empty()
            },
            None => Seq::empty(),
        }
    }
}

/// The incidents that a piece of work yields by itself.
pub open spec fn own_hits(w: WorkV, scan: Scan) -> Seq<IncidentV> {
    match w.role {
        Role::Literal => scan.literal_hits(w.node),
        Role::Quasi => scan.quasi_hits(w.node),
        Role::QuasiMatches => scan.quasi_match_hits(w.node),
        _ => Seq::empty(),
    }
}

/// Whether an incident lies in the file that is scanned and names a text that matches.
pub open spec fn is_match(i: IncidentV, key: Seq<char>, scan: Scan) -> bool {
    &&& i.file_uri == scan.file_uri
    &&& i.variables.dom().contains(key)
    &&& match i.variables[key] {
        JsonV::Text(t) => scan.accepts(t),
        _ => false,
    }
}

/// Whether all of some incidents name a text that matches.
pub open spec fn all_match(s: Seq<IncidentV>, key: Seq<char>, scan: Scan) -> bool {
    forall|k: int| 0 <= k < s.len() ==> is_match(#[trigger] s[k], key, scan)
}

proof fn lemma_spans_match(v: JsonV, raw: Seq<char>, n: int, scan: Scan)
    requires
        scan.accepts(raw),
    ensures
        all_match(scan.match_hits(v, raw, n), "matchingText"@, scan),
    decreases n,
{
    if n > 0 {
        lemma_spans_match(v, raw, n - 1, scan);
        let span = regex_spans(scan.pattern, raw)[n - 1];
        let hit = scan.hit(
            capped(quasi_start(v) + span.0),
            capped(quasi_start(v) + span.1),
            raw,
        );
        assert(is_match(hit, "matchingText"@, scan));
        assert(scan.match_hits(v, raw, n) == scan.match_hits(v, raw, n - 1).push(hit));
    }
}

/// What a piece of work yields by itself names a text that matches.
pub proof fn lemma_own_match(w: WorkV, scan: Scan)
    ensures
        all_match(own_hits(w, scan), "matchingText"@, scan),
{
    if let Some(t) = raw_quasi(w.node) {
        if scan.accepts(t) {
            lemma_spans_match(w.node, t, regex_spans(scan.pattern, t).len() as int, scan);
        }
    }
}

/// Create one incident per regex match within a template quasi's raw text.
fn incidents_from_quasi_matches(
    node: &Json,
    raw: &str,
    source: &str,
    pattern: &regex::Regex,
    file_uri: &str,
    Ghost(scan): Ghost<Scan>,
) -> (out: Vec<Incident>)
    requires
        scan == (Scan { source: source@, pattern: regex_source(*pattern), file_uri: file_uri@ }),
    ensures
        incident_models(out@) == scan.match_hits(
            node@,
            raw@,
            regex_spans(scan.pattern, raw@).len() as int,
        ),
{
    let start = get_quasi_start(node);
    let spans = find_spans(pattern, raw);
    let mut out: Vec<Incident> = Vec::new();
    let mut i: usize = 0;
    assert(incident_models(out@) =~= scan.match_hits(node@, raw@, 0));
    while i < spans.len()
        invariant
            scan == (Scan { source: source@, pattern: regex_source(*pattern), file_uri: file_uri@ }),
            start == quasi_start(node@),
            spans@ == regex_spans(scan.pattern, raw@),
            i <= spans@.len(),
            incident_models(out@) == scan.match_hits(node@, raw@, i as int),
        decreases spans.len() - i,
    {
        let (from, to) = spans[i];
        let mut incident = make_incident(
            source,
            file_uri,
            offset_by(start, from),
            offset_by(start, to),
        );
        incident.set_text("matchingText", raw);
        push_incident(&mut out, incident);
        i = i + 1;
    }
    out
}

/// An offset moved on by a number of bytes.
fn offset_by(start: u32, by: usize) -> (r: u32)
    ensures
        r == capped(start + by),
{
    if by > u32::MAX as usize || by as u32 > u32::MAX - start {
        u32::MAX
    } else {
        start + by as u32
    }
}

/// The incidents that a piece of work yields by itself.
pub(crate) fn own_incidents(
    w: &Work<'_>,
    source: &str,
    pattern: &regex::Regex,
    file_uri: &str,
    Ghost(scan): Ghost<Scan>,
) -> (out: Vec<Incident>)
    requires
        scan == (Scan { source: source@, pattern: regex_source(*pattern), file_uri: file_uri@ }),
    ensures
        incident_models(out@) == own_hits(w@, scan),
{
    let mut out: Vec<Incident> = Vec::new();
    assert(incident_models(out@) =~= Seq::<IncidentV>::empty());
    let node = w.node;
    match w.role {
        Role::Literal => {
            if let Some(t) = get_string_literal(node) {
                if pattern.is_match(t) {
                    let mut incident = make_incident(
                        source,
                        file_uri,
                        get_number(node, "start"),
                        get_number(node, "end"),
                    );
                    incident.set_text("matchingText", t);
                    push_incident(&mut out, incident);
                    assert(incident_models(out@) =~= scan.literal_hits(node@));
                }
            }
        },
        Role::Quasi => {
            if let Some(t) = get_raw_quasi(node) {
                if pattern.is_match(t) {
                    let mut incident = make_incident(
                        source,
                        file_uri,
                        get_quasi_start(node),
                        get_quasi_end(node),
                    );
                    incident.set_text("matchingText", t);
                    push_incident(&mut out, incident);
                    assert(incident_models(out@) =~= scan.quasi_hits(node@));
                }
            }
        },
        Role::QuasiMatches => {
            if let Some(t) = get_raw_quasi(node) {
                if pattern.is_match(t) {
                    return incidents_from_quasi_matches(
                        node,
                        t,
                        source,
                        pattern,
                        file_uri,
                        Ghost(scan),
                    );
                }
            }
        },
        _ => {},
    }
    out
}

} // verus!
