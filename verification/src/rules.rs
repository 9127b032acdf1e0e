//! Konveyor rules and rulesets.
//!
//! A ruleset is a directory that contains `ruleset.yaml` (metadata) and one or more rule files, or
//! a single rule file. Each rule file contains a list of rules with `when` conditions.

use crate::index_lookup::stem;
use crate::jsx_children::holds_text;
use crate::json::{Json, JsonV};
use crate::text::{chars_of, ends_with, file_name, file_name_of, same, text_of, texts};
use vstd::prelude::*;

verus! {

/// Metadata from `ruleset.yaml`.
#[derive(Debug)]
pub struct RuleSetMeta {
    pub name: String,
    pub description: String,
    pub labels: Vec<String>,
}

/// A hyperlink in a rule.
#[derive(Debug)]
pub struct RuleLink {
    pub url: String,
    pub title: String,
}

/// A provider-specific condition: conditions by key, in the order of the keys. A key is
/// `<provider>.<capability>`.
#[derive(Debug)]
pub struct ProviderWhen {
    pub conditions: Vec<(String, Json)>,
}

/// The `when` block of a rule. Supports provider conditions, and/or combinators.
#[derive(Debug)]
pub enum WhenCondition {
    /// Logical AND of multiple conditions.
    And { and: Vec<WhenCondition> },
    /// Logical OR of multiple conditions.
    Or { or: Vec<WhenCondition> },
    /// A provider condition like `frontend.referenced: { pattern: "..." }`
    Provider(ProviderWhen),
}

/// A single rule from a YAML rules file.
#[derive(Debug)]
pub struct Rule {
    /// Unique rule ID within the ruleset.
    pub rule_id: String,
    /// Short description or title.
    pub description: String,
    /// Labels for filtering and categorization.
    pub labels: Vec<String>,
    /// Effort in story points.
    pub effort: Option<i32>,
    /// Severity category.
    pub category: Option<String>,
    /// The condition block.
    pub when: WhenCondition,
    /// Human-readable message for violations.
    pub message: String,
    /// Optional tag action.
    pub tag: Option<Vec<String>>,
    /// Hyperlinks.
    pub links: Vec<RuleLink>,
}

/// A loaded ruleset with all its rules.
#[derive(Debug)]
pub struct LoadedRuleSet {
    pub meta: RuleSetMeta,
    pub rules: Vec<Rule>,
    pub source_dir: String,
}

/// The index of the first dot of a key, from index `i` on.
pub open spec fn dot_at(key: Seq<char>, i: int) -> Option<int>
    decreases key.len() - i,
{
    if i < 0 || i >= key.len() {
        None
    } else if key[i] == '.' {
        Some(i)
    } else {
        dot_at(key, i + 1)
    }
}

/// The provider and the capability in a key.
pub open spec fn key_parts(key: Seq<char>) -> Option<(Seq<char>, Seq<char>)> {
    match dot_at(key, 0) {
        Some(i) => Some((key.take(i), key.skip(i + 1))),
        None => None,
    }
}

/// The provider, the capability and the value of the first `n` conditions. One whose key has no
/// dot is left out.
pub open spec fn condition_parts(conditions: Seq<(String, Json)>, n: int) -> Seq<
    (Seq<char>, Seq<char>, JsonV),
>
    decreases n,
{
    if n <= 0 || n > conditions.len() {
        Seq::empty()
    } else {
        let before = condition_parts(conditions, n - 1);
        match key_parts(conditions[n - 1].0@) {
            Some((provider, capability)) => before.push(
                (provider, capability, conditions[n - 1].1@),
            ),
            None => before,
        }
    }
}

/// What parsed conditions hold.
pub open spec fn parsed_models(s: Seq<(String, String, &Json)>) -> Seq<
    (Seq<char>, Seq<char>, JsonV),
> {
    s.map_values(|e: (String, String, &Json)| (e.0@, e.1@, e.2@))
}

fn split_key(key: &str) -> (r: Option<(String, String)>)
    ensures
        (match r {
            Some((a, b)) => Some((a@, b@)),
            None => None,
        }) == key_parts(key@),
{
    let c = chars_of(key);
    let n: usize = c.len();
    let mut i: usize = 0;
    while i < n
        invariant
            i <= n,
            n == c@.len(),
            c@ == key@,
            dot_at(key@, 0) == dot_at(key@, i as int),
        decreases n - i,
    {
        if c[i] == '.' {
            assert(c@.subrange(0, i as int) =~= key@.take(i as int));
            assert(c@.subrange(i + 1, n as int) =~= key@.skip(i + 1));
            return Some((text_of(&c, 0, i), text_of(&c, i + 1, n)));
        }
        i = i + 1;
    }
    None
}

impl ProviderWhen {
    /// Extract the provider name and capability from the condition keys.
    ///
    /// E.g., `frontend.referenced` gives `("frontend", "referenced")`.
    pub fn parse_conditions(&self) -> (out: Vec<(String, String, &Json)>)
        ensures
            parsed_models(out@) == condition_parts(
                self.conditions@,
                self.conditions@.len() as int,
            ),
    {
        let mut out: Vec<(String, String, &Json)> = Vec::new();
        assert(parsed_models(out@) =~= condition_parts(self.conditions@, 0));
        let mut i: usize = 0;
        while i < self.conditions.len()
            invariant
                i <= self.conditions@.len(),
                parsed_models(out@) == condition_parts(self.conditions@, i as int),
            decreases self.conditions.len() - i,
        {
            if let Some((provider, capability)) = split_key(self.conditions[i].0.as_str()) {
                let ghost before = parsed_models(out@);
                let value = &self.conditions[i].1;
                let ghost added = (provider@, capability@, value@);
                out.push((provider, capability, value));
                assert(parsed_models(out@) =~= before.push(added));
            }
            i = i + 1;
        }
        out
    }
}

/// Whether a file of a ruleset directory holds rules.
pub open spec fn holds_rules(name: Seq<char>) -> bool {
    (".yaml"@.is_suffix_of(name) || ".yml"@.is_suffix_of(name)) && name != "ruleset.yaml"@
}

/// Whether a file of a ruleset directory holds rules: all YAML files do except `ruleset.yaml`.
pub fn is_rules_file(name: &str) -> (r: bool)
    ensures
        r == holds_rules(name@),
{
    (ends_with(name, ".yaml") || ends_with(name, ".yml")) && !same(name, "ruleset.yaml")
}

/// Some labels with the first `n` of others added, as far as they are not there.
pub open spec fn with_labels(own: Seq<Seq<char>>, more: Seq<Seq<char>>, n: int) -> Seq<Seq<char>>
    decreases n,
{
    if n <= 0 || n > more.len() {
        own
    } else {
        let before = with_labels(own, more, n - 1);
        if before.contains(more[n - 1]) {
            before
        } else {
            before.push(more[n - 1])
        }
    }
}

fn inherit(own: &mut Vec<String>, more: &Vec<String>)
    ensures
        texts(final(own)@) == with_labels(texts(old(own)@), texts(more@), more@.len() as int),
{
    let ghost before = texts(own@);
    let ghost all = texts(more@);
    let mut i: usize = 0;
    while i < more.len()
        invariant
            i <= more@.len(),
            all == texts(more@),
            texts(own@) == with_labels(before, all, i as int),
        decreases more.len() - i,
    {
        assert(all[i as int] == more@[i as int]@);
        if !holds_text(own, more[i].as_str()) {
            let ghost so_far = texts(own@);
            own.push(more[i].as_str().to_owned());
            assert(texts(own@) =~= so_far.push(all[i as int]));
        }
        i = i + 1;
    }
}

/// Whether a rule is another with other labels.
pub open spec fn relabelled(a: Rule, b: Rule) -> bool {
    &&& a.rule_id == b.rule_id
    &&& a.description == b.description
    &&& a.effort == b.effort
    &&& a.category == b.category
    &&& a.when == b.when
    &&& a.message == b.message
    &&& a.tag == b.tag
    &&& a.links == b.links
}

/// Lets rules inherit the labels of their ruleset, as far as they do not have them.
pub fn inherit_labels(rules: &mut Vec<Rule>, labels: &Vec<String>)
    ensures
        final(rules)@.len() == old(rules)@.len(),
        forall|i: int|
            0 <= i < old(rules)@.len() ==> relabelled(
                old(rules)@[i],
                #[trigger] final(rules)@[i],
            ) && texts(final(rules)@[i].labels@) == with_labels(
                texts(old(rules)@[i].labels@),
                texts(labels@),
                labels@.len() as int,
            ),
{
    let mut i: usize = 0;
    while i < rules.len()
        invariant
            i <= rules@.len(),
            rules@.len() == old(rules)@.len(),
            forall|k: int|
                0 <= k < i ==> relabelled(old(rules)@[k], #[trigger] rules@[k]) && texts(
                    rules@[k].labels@,
                ) == with_labels(
                    texts(old(rules)@[k].labels@),
                    texts(labels@),
                    labels@.len() as int,
                ),
            forall|k: int| i <= k < rules@.len() ==> #[trigger] rules@[k] == old(rules)@[k],
        decreases rules.len() - i,
    {
        inherit(&mut rules[i].labels, labels);
        i = i + 1;
    }
}

/// A ruleset from a directory: the rules of its files, with the labels of the ruleset.
pub fn assemble_ruleset(meta: RuleSetMeta, rules: Vec<Rule>, dir: &str) -> (r: LoadedRuleSet)
    ensures
        r.meta == meta,
        r.source_dir@ == dir@,
        r.rules@.len() == rules@.len(),
        forall|i: int|
            0 <= i < rules@.len() ==> relabelled(rules@[i], #[trigger] r.rules@[i]) && texts(
                r.rules@[i].labels@,
            ) == with_labels(
                texts(rules@[i].labels@),
                texts(meta.labels@),
                meta.labels@.len() as int,
            ),
{
    let mut rules = rules;
    inherit_labels(&mut rules, &meta.labels);
    LoadedRuleSet { meta, rules, source_dir: dir.to_owned() }
}

/// What a file or directory is called.
pub open spec fn name_or_empty(path: Seq<char>) -> Seq<char> {
    match file_name_of(path) {
        Some(name) => name,
        None => Seq::empty(),
    }
}

fn get_name(path: &str) -> (r: String)
    ensures
        r@ == name_or_empty(path@),
{
    match file_name(path) {
        Some(name) => name,
        None => {
            let r = String::new();
            assert(r@ =~= Seq::<char>::empty());
            r
        },
    }
}

fn bare_meta(name: String) -> (r: RuleSetMeta)
    ensures
        r.name == name,
        r.description@ == Seq::<char>::empty(),
        r.labels@ == Seq::<String>::empty(),
{
    let description = String::new();
    assert(description@ =~= Seq::<char>::empty());
    RuleSetMeta { name, description, labels: Vec::new() }
}

/// The metadata of a directory without `ruleset.yaml`: it is called what the directory is called.
pub fn meta_of_dir(dir: &str) -> (r: RuleSetMeta)
    ensures
        r.name@ == name_or_empty(dir@),
        r.description@ == Seq::<char>::empty(),
        r.labels@ == Seq::<String>::empty(),
{
    bare_meta(get_name(dir))
}

/// The metadata of a single file: it is called what the file is called, without its extension.
pub fn meta_of_file(path: &str) -> (r: RuleSetMeta)
    ensures
        r.name@ == stem(name_or_empty(path@)),
        r.description@ == Seq::<char>::empty(),
        r.labels@ == Seq::<String>::empty(),
{
    let name = get_name(path);
    bare_meta(crate::index_lookup::get_stem(name.as_str()))
}

proof fn lemma_labels_kept(own: Seq<Seq<char>>, more: Seq<Seq<char>>, n: int, label: Seq<char>)
    ensures
        own.contains(label) ==> with_labels(own, more, n).contains(label),
    decreases n,
{
    if 0 < n <= more.len() && own.contains(label) {
        lemma_labels_kept(own, more, n - 1, label);
        let before = with_labels(own, more, n - 1);
        let k = choose|k: int| 0 <= k < before.len() && before[k] == label;
        assert(before.push(more[n - 1])[k] == label);
    }
}

proof fn lemma_labels_added(own: Seq<Seq<char>>, more: Seq<Seq<char>>, n: int, i: int)
    requires
        0 <= i < n <= more.len(),
    ensures
        with_labels(own, more, n).contains(more[i]),
    decreases n,
{
    let before = with_labels(own, more, n - 1);
    if i == n - 1 {
        if !before.contains(more[i]) {
            assert(before.push(more[i])[before.len() as int] == more[i]);
        }
    } else {
        lemma_labels_added(own, more, n - 1, i);
        let k = choose|k: int| 0 <= k < before.len() && before[k] == more[i];
        assert(before.push(more[n - 1])[k] == more[i]);
    }
}

/// A rule keeps its own labels and has all those of its ruleset.
pub proof fn law_labels_inherited(own: Seq<Seq<char>>, more: Seq<Seq<char>>)
    ensures
        forall|l: Seq<char>|
            own.contains(l) || more.contains(l) ==> #[trigger] with_labels(
                own,
                more,
                more.len() as int,
            ).contains(l),
{
    assert forall|l: Seq<char>| own.contains(l) || more.contains(l) implies #[trigger] with_labels(
        own,
        more,
        more.len() as int,
    ).contains(l) by {
        lemma_labels_kept(own, more, more.len() as int, l);
        if more.contains(l) {
            let i = choose|i: int| 0 <= i < more.len() && more[i] == l;
            lemma_labels_added(own, more, more.len() as int, i);
        }
    }
}

/// Inheriting labels a second time changes nothing.
pub proof fn law_labels_settle(own: Seq<Seq<char>>, more: Seq<Seq<char>>)
    ensures
        ({
            let once = with_labels(own, more, more.len() as int);
            with_labels(once, more, more.len() as int) == once
        }),
{
    law_labels_inherited(own, more);
    let once = with_labels(own, more, more.len() as int);
    lemma_labels_full(once, more, more.len() as int);
}

proof fn lemma_labels_full(own: Seq<Seq<char>>, more: Seq<Seq<char>>, n: int)
    requires
        forall|i: int| 0 <= i < more.len() ==> own.contains(#[trigger] more[i]),
    ensures
        with_labels(own, more, n) == own,
    decreases n,
{
    if 0 < n <= more.len() {
        lemma_labels_full(own, more, n - 1);
        assert(own.contains(more[n - 1]));
    }
}

} // verus!
