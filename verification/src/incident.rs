//! Incidents: the matches that an analysis reports.

use crate::json::{lookup, Json, JsonV};
use vstd::prelude::*;

verus! {

/// A position in a source file, both numbers counted from zero.
#[derive(Debug, Clone, Copy, PartialEq, Eq)]
pub struct Position {
    pub line: u32,
    pub character: u32,
}

/// A range in a source file.
#[derive(Debug, Clone, Copy, PartialEq, Eq)]
pub struct Location {
    pub start: Position,
    pub end: Position,
}

/// A hyperlink for additional context.
#[derive(Debug, PartialEq)]
pub struct ExternalLink {
    pub url: String,
    pub title: String,
}

/// Named values attached to an incident. Every name occurs at most once.
#[derive(Debug, PartialEq)]
pub struct Variables {
    pub entries: Vec<(String, Json)>,
}

/// The models of named values.
pub open spec fn entry_models(s: Seq<(String, Json)>) -> Seq<(Seq<char>, JsonV)> {
    Seq::new(s.len(), |i: int| (s[i].0@, s[i].1@))
}

/// The map from names to values that a list of named values stands for.
pub open spec fn entry_map(s: Seq<(Seq<char>, JsonV)>) -> Map<Seq<char>, JsonV> {
    Map::new(|k: Seq<char>| lookup(s, k) is Some, |k: Seq<char>| lookup(s, k)->0)
}

impl View for Variables {
    type V = Map<Seq<char>, JsonV>;

    open spec fn view(&self) -> Map<Seq<char>, JsonV> {
        entry_map(entry_models(self.entries@))
    }
}

proof fn lemma_lookup_push(s: Seq<(Seq<char>, JsonV)>, e: (Seq<char>, JsonV), key: Seq<char>)
    ensures
        lookup(s.push(e), key) == (if lookup(s, key) is Some {
            lookup(s, key)
        } else if e.0 == key {
            Some(e.1)
        } else {
            None
        }),
    decreases s.len(),
{
    let t = s.push(e);
    if s.len() == 0 {
        assert(t.skip(1).len() == 0);
    } else {
        assert(t.skip(1) =~= s.skip(1).push(e));
        lemma_lookup_push(s.skip(1), e, key);
    }
}

proof fn lemma_lookup_update(
    s: Seq<(Seq<char>, JsonV)>,
    i: int,
    e: (Seq<char>, JsonV),
    key: Seq<char>,
)
    requires
        0 <= i < s.len(),
        s[i].0 == e.0,
        forall|k: int| 0 <= k < i ==> (#[trigger] s[k]).0 != e.0,
    ensures
        lookup(s.update(i, e), key) == (if key == e.0 {
            Some(e.1)
        } else {
            lookup(s, key)
        }),
    decreases s.len(),
{
    let t = s.update(i, e);
    if i == 0 {
        assert(t.skip(1) =~= s.skip(1));
    } else {
        assert(t.skip(1) =~= s.skip(1).update(i - 1, e));
        assert forall|k: int| 0 <= k < i - 1 implies (#[trigger] s.skip(1)[k]).0 != e.0 by {
            assert(s[k + 1].0 != e.0);
        }
        lemma_lookup_update(s.skip(1), i - 1, e, key);
    }
}

proof fn lemma_lookup_absent(s: Seq<(Seq<char>, JsonV)>, key: Seq<char>)
    requires
        forall|k: int| 0 <= k < s.len() ==> (#[trigger] s[k]).0 != key,
    ensures
        lookup(s, key) is None,
    decreases s.len(),
{
    if s.len() > 0 {
        assert(s[0].0 != key);
        assert forall|k: int| 0 <= k < s.skip(1).len() implies (#[trigger] s.skip(1)[k]).0
            != key by {
            assert(s[k + 1].0 != key);
        }
        lemma_lookup_absent(s.skip(1), key);
    }
}

proof fn lemma_lookup_first(s: Seq<(Seq<char>, JsonV)>, i: int)
    requires
        0 <= i < s.len(),
        forall|k: int| 0 <= k < i ==> (#[trigger] s[k]).0 != s[i].0,
    ensures
        lookup(s, s[i].0) == Some(s[i].1),
    decreases s.len(),
{
    if i > 0 {
        assert(s[0].0 != s[i].0);
        assert forall|k: int| 0 <= k < i - 1 implies (#[trigger] s.skip(1)[k]).0 != s.skip(1)[i
            - 1].0 by {
            assert(s[k + 1].0 != s[i].0);
        }
        lemma_lookup_first(s.skip(1), i - 1);
    }
}

impl Variables {
    /// No values.
    pub fn new() -> (r: Variables)
        ensures
            r@ == Map::<Seq<char>, JsonV>::empty(),
    {
        let r = Variables { entries: Vec::new() };
        assert(r@ =~= Map::empty());
        r
    }

    /// The index of the first value with the given name.
    fn position(&self, name: &str) -> (r: Option<usize>)
        ensures
            match r {
                Some(i) => {
                    &&& i < self.entries@.len()
                    &&& self.entries@[i as int].0@ == name@
                    &&& forall|k: int|
                        0 <= k < i ==> (#[trigger] self.entries@[k]).0@ != name@
                },
                None => forall|k: int|
                    0 <= k < self.entries@.len() ==> (#[trigger] self.entries@[k]).0@ != name@,
            },
    {
        let mut i: usize = 0;
        while i < self.entries.len()
            invariant
                i <= self.entries@.len(),
                forall|k: int| 0 <= k < i ==> (#[trigger] self.entries@[k]).0@ != name@,
            decreases self.entries.len() - i,
        {
            if *self.entries[i].0.as_str() == *name {
                return Some(i);
            }
            i = i + 1;
        }
        None
    }

    /// The value with the given name.
    pub fn get(&self, name: &str) -> (r: Option<&Json>)
        ensures
            match r {
                Some(x) => self@.dom().contains(name@) && self@[name@] == x@,
                None => !self@.dom().contains(name@),
            },
    {
        let ghost s = entry_models(self.entries@);
        match self.position(name) {
            Some(i) => {
                proof {
                    assert forall|k: int| 0 <= k < i implies (#[trigger] s[k]).0 != s[i as int].0 by {
                        assert(self.entries@[k].0@ != name@);
                    }
                    lemma_lookup_first(s, i as int);
                }
                Some(&self.entries[i].1)
            },
            None => {
                proof {
                    assert forall|k: int| 0 <= k < s.len() implies (#[trigger] s[k]).0 != name@ by {
                        assert(self.entries@[k].0@ != name@);
                    }
                    lemma_lookup_absent(s, name@);
                }
                None
            },
        }
    }

    /// Gives a name a value, in place of the one it had.
    pub fn insert(&mut self, name: String, value: Json)
        ensures
            final(self)@ == old(self)@.insert(name@, value@),
    {
        let ghost s = entry_models(self.entries@);
        let ghost e = (name@, value@);
        match self.position(name.as_str()) {
            Some(i) => {
                proof {
                    assert forall|k: int| 0 <= k < i implies (#[trigger] s[k]).0 != e.0 by {
                        assert(self.entries@[k].0@ != name@);
                    }
                    assert forall|key: Seq<char>| #[trigger]
                        lookup(s.update(i as int, e), key) == (if key == e.0 {
                            Some(e.1)
                        } else {
                            lookup(s, key)
                        }) by {
                        lemma_lookup_update(s, i as int, e, key);
                    }
                }
                self.entries.set(i, (name, value));
                assert(entry_models(self.entries@) =~= s.update(i as int, e));
                assert(self@ =~= old(self)@.insert(e.0, e.1));
            },
            None => {
                proof {
                    assert forall|k: int| 0 <= k < s.len() implies (#[trigger] s[k]).0 != name@ by {
                        assert(self.entries@[k].0@ != name@);
                    }
                    lemma_lookup_absent(s, name@);
                    assert forall|key: Seq<char>| #[trigger]
                        lookup(s.push(e), key) == (if lookup(s, key) is Some {
                            lookup(s, key)
                        } else if e.0 == key {
                            Some(e.1)
                        } else {
                            None
                        }) by {
                        lemma_lookup_push(s, e, key);
                    }
                }
                self.entries.push((name, value));
                assert(entry_models(self.entries@) =~= s.push(e));
                assert(self@ =~= old(self)@.insert(e.0, e.1));
            },
        }
    }

    /// Gives a name a text.
    pub fn insert_text(&mut self, name: &str, value: &str)
        ensures
            final(self)@ == old(self)@.insert(name@, JsonV::Text(value@)),
    {
        self.insert(name.to_owned(), Json::Text(value.to_owned()));
    }

    /// The number of values.
    pub fn len(&self) -> (r: usize)
        ensures
            r == self.entries@.len(),
    {
        self.entries.len()
    }

    /// Whether there is no value.
    pub fn is_empty(&self) -> (r: bool)
        ensures
            r == (self@ == Map::<Seq<char>, JsonV>::empty()),
    {
        proof {
            let s = entry_models(self.entries@);
            if s.len() > 0 {
                lemma_lookup_first(s, 0);
                assert(self@.dom().contains(s[0].0));
            } else {
                assert(self@ =~= Map::empty());
            }
        }
        self.entries.len() == 0
    }
}

/// A match that an analysis found.
#[derive(Debug, PartialEq)]
pub struct Incident {
    /// File URI where the incident was found.
    pub file_uri: String,
    /// Line number of the match, counted from one.
    pub line_number: Option<u32>,
    /// The range that was matched.
    pub code_location: Option<Location>,
    /// Human-readable message about the incident.
    pub message: String,
    /// The surrounding source text.
    pub code_snip: Option<String>,
    /// Named values, such as the matched text.
    pub variables: Variables,
    /// Effort override for this incident.
    pub effort: Option<i64>,
    /// Associated hyperlinks.
    pub links: Vec<ExternalLink>,
    /// Whether the incident is from a dependency.
    pub is_dependency_incident: bool,
}

/// What an incident holds.
#[verifier::ext_equal]
pub ghost struct IncidentV {
    pub file_uri: Seq<char>,
    pub line_number: Option<u32>,
    pub code_location: Option<Location>,
    pub message: Seq<char>,
    pub code_snip: Option<Seq<char>>,
    pub variables: Map<Seq<char>, JsonV>,
    pub effort: Option<i64>,
    pub links: Seq<(Seq<char>, Seq<char>)>,
    pub is_dependency_incident: bool,
}

/// What an optional text holds.
pub open spec fn opt_view(s: Option<String>) -> Option<Seq<char>> {
    match s {
        Some(x) => Some(x@),
        None => None,
    }
}

impl View for Incident {
    type V = IncidentV;

    open spec fn view(&self) -> IncidentV {
        IncidentV {
            file_uri: self.file_uri@,
            line_number: self.line_number,
            code_location: self.code_location,
            message: self.message@,
            code_snip: opt_view(self.code_snip),
            variables: self.variables@,
            effort: self.effort,
            links: self.links@.map_values(|l: ExternalLink| (l.url@, l.title@)),
            is_dependency_incident: self.is_dependency_incident,
        }
    }
}

/// The models of incidents.
pub open spec fn incident_models(s: Seq<Incident>) -> Seq<IncidentV> {
    s.map_values(|i: Incident| i@)
}

/// An incident with its place and nothing else.
pub open spec fn bare_incident(
    file_uri: Seq<char>,
    line_number: u32,
    code_location: Location,
) -> IncidentV {
    IncidentV {
        file_uri,
        line_number: Some(line_number),
        code_location: Some(code_location),
        message: Seq::empty(),
        code_snip: None,
        variables: Map::empty(),
        effort: None,
        links: Seq::empty(),
        is_dependency_incident: false,
    }
}

impl IncidentV {
    /// The incident with one more variable.
    pub open spec fn with(self, name: Seq<char>, value: JsonV) -> IncidentV {
        IncidentV { variables: self.variables.insert(name, value), ..self }
    }

    /// The incident with one more text variable.
    pub open spec fn with_text(self, name: Seq<char>, value: Seq<char>) -> IncidentV {
        self.with(name, JsonV::Text(value))
    }
}

impl Incident {
    /// An incident with its place and nothing else.
    pub fn new(file_uri: String, line_number: u32, code_location: Location) -> (r: Incident)
        ensures
            r@ == bare_incident(file_uri@, line_number, code_location),
    {
        let r = Incident {
            file_uri,
            line_number: Some(line_number),
            code_location: Some(code_location),
            message: String::new(),
            code_snip: None,
            variables: Variables::new(),
            effort: None,
            links: Vec::new(),
            is_dependency_incident: false,
        };
        assert(r@ =~= bare_incident(file_uri@, line_number, code_location));
        r
    }

    /// Adds a text variable.
    pub fn set_text(&mut self, name: &str, value: &str)
        ensures
            final(self)@ == old(self)@.with_text(name@, value@),
    {
        self.variables.insert_text(name, value);
    }

    /// Adds a variable.
    pub fn set(&mut self, name: &str, value: Json)
        ensures
            final(self)@ == old(self)@.with(name@, value@),
    {
        self.variables.insert(name.to_owned(), value);
    }
}

/// Appends an incident to a list of them.
pub fn push_incident(out: &mut Vec<Incident>, incident: Incident)
    ensures
        incident_models(final(out)@) == incident_models(old(out)@).push(incident@),
{
    out.push(incident);
    assert(incident_models(out@) =~= incident_models(old(out)@).push(incident@));
}

/// Appends a list of incidents to another.
pub fn append_incidents(out: &mut Vec<Incident>, more: &mut Vec<Incident>)
    ensures
        incident_models(final(out)@) == incident_models(old(out)@) + incident_models(old(more)@),
        final(more)@.len() == 0,
{
    out.append(more);
    assert(incident_models(out@) =~= incident_models(old(out)@) + incident_models(old(more)@));
}

} // verus!
