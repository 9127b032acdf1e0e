//! Analysis results: rule sets and their violations.

use crate::incident::{incident_models, Incident, IncidentV};
use crate::text::texts;
use vstd::prelude::*;

verus! {

/// A violation, produced when a rule matches.
#[derive(Debug)]
pub struct Violation {
    /// Labels from the rule.
    pub labels: Vec<String>,
    /// Individual match instances.
    pub incidents: Vec<Incident>,
}

/// A set of rules with their violations.
#[derive(Debug)]
pub struct RuleSet {
    /// Ruleset name.
    pub name: String,
    /// Violations by rule ID.
    pub violations: Vec<(String, Violation)>,
}

/// What a violation holds.
pub ghost struct ViolationV {
    pub labels: Seq<Seq<char>>,
    pub incidents: Seq<IncidentV>,
}

impl View for Violation {
    type V = ViolationV;

    open spec fn view(&self) -> ViolationV {
        ViolationV { labels: texts(self.labels@), incidents: incident_models(self.incidents@) }
    }
}

impl View for RuleSet {
    type V = Seq<(Seq<char>, ViolationV)>;

    open spec fn view(&self) -> Seq<(Seq<char>, ViolationV)> {
        self.violations@.map_values(|v: (String, Violation)| (v.0@, v.1@))
    }
}

/// The violations of rule sets.
pub open spec fn ruleset_models(s: Seq<RuleSet>) -> Seq<Seq<(Seq<char>, ViolationV)>> {
    s.map_values(|r: RuleSet| r@)
}

} // verus!
