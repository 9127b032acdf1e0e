//! Planned fixes: text edits grouped by file, and the strategies that produce them.

use crate::incident::opt_view;
use crate::text::same;
use vstd::prelude::*;

verus! {

/// How sure a fix is.
#[derive(Debug, Clone, Copy, PartialEq, Eq, Structural)]
pub enum FixConfidence {
    /// A mechanical rename or direct replacement.
    Exact,
    /// A pattern-based fix that may need review.
    High,
    /// An inferred fix that needs verification.
    Medium,
    /// A best-effort suggestion.
    Low,
}

/// Where a fix comes from.
#[derive(Debug, Clone, Copy, PartialEq, Eq, Structural)]
pub enum FixSource {
    /// Derived from structural analysis.
    Pattern,
    /// Generated by a language model.
    Llm,
    /// Flagged for manual intervention.
    Manual,
}

/// A single text replacement within a file.
#[derive(Debug)]
pub struct TextEdit {
    /// 1-indexed line number where the edit applies.
    pub line: u32,
    /// The original text to find on this line.
    pub old_text: String,
    /// The replacement text.
    pub new_text: String,
    /// Rule ID that generated this fix.
    pub rule_id: String,
    /// Human-readable description of what this fix does.
    pub description: String,
}

/// A planned fix for a single incident.
#[derive(Debug)]
pub struct PlannedFix {
    /// The text edits to apply.
    pub edits: Vec<TextEdit>,
    /// Confidence level.
    pub confidence: FixConfidence,
    /// How the fix was generated.
    pub source: FixSource,
    /// The rule ID this fix addresses.
    pub rule_id: String,
    /// File URI from the incident.
    pub file_uri: String,
    /// Line number from the incident.
    pub line: u32,
    /// Description of what this fix does.
    pub description: String,
}

/// A fix plan: all planned fixes grouped by file.
#[derive(Debug)]
pub struct FixPlan {
    /// Fixes grouped by file path, in the order of the paths.
    pub files: Vec<(String, Vec<PlannedFix>)>,
    /// Incidents that could not be auto-fixed and need manual attention.
    pub manual: Vec<ManualFixItem>,
    /// Incidents pending a fix by the language model.
    pub pending_llm: Vec<LlmFixRequest>,
}

impl Default for FixPlan {
    fn default() -> (r: FixPlan)
        ensures
            r.files@.len() == 0,
            r.manual@.len() == 0,
            r.pending_llm@.len() == 0,
    {
        FixPlan { files: Vec::new(), manual: Vec::new(), pending_llm: Vec::new() }
    }
}

/// An incident that requires manual fixing.
#[derive(Debug)]
pub struct ManualFixItem {
    pub rule_id: String,
    pub file_uri: String,
    pub line: u32,
    pub message: String,
    pub code_snip: Option<String>,
}

/// A request to send to the language model for fix generation.
#[derive(Debug)]
pub struct LlmFixRequest {
    pub rule_id: String,
    pub file_uri: String,
    pub file_path: String,
    pub line: u32,
    pub message: String,
    pub code_snip: Option<String>,
    /// The full source content of the file.
    pub source: Option<String>,
}

/// Result of applying a fix plan.
#[derive(Debug)]
pub struct FixResult {
    /// Number of files modified.
    pub files_modified: usize,
    /// Number of edits applied.
    pub edits_applied: usize,
    /// Number of edits skipped.
    pub edits_skipped: usize,
    /// Errors encountered.
    pub errors: Vec<String>,
}

impl Default for FixResult {
    fn default() -> (r: FixResult)
        ensures
            r.files_modified == 0,
            r.edits_applied == 0,
            r.edits_skipped == 0,
            r.errors@.len() == 0,
    {
        FixResult { files_modified: 0, edits_applied: 0, edits_skipped: 0, errors: Vec::new() }
    }
}

/// A rename mapping: old name to new name.
#[derive(Debug)]
pub struct RenameMapping {
    pub old: String,
    pub new: String,
}

/// How the incidents of a rule are turned into text edits.
#[derive(Debug)]
pub enum FixStrategy {
    /// Rename the matched text.
    Rename(Vec<RenameMapping>),
    /// Remove the matched prop from the JSX tag.
    RemoveProp,
    /// Replace an import source path.
    ImportPathChange { old_path: String, new_path: String },
    /// Replace a CSS variable or class prefix.
    CssVariablePrefix { old_prefix: String, new_prefix: String },
    /// Update a dependency version in package.json.
    UpdateDependency { package: String, new_version: String },
    /// Flag for manual review.
    Manual,
    /// Send to the language model.
    Llm,
}

/// What a text edit holds.
pub ghost struct EditV {
    pub line: u32,
    pub old_text: Seq<char>,
    pub new_text: Seq<char>,
    pub rule_id: Seq<char>,
    pub description: Seq<char>,
}

impl View for TextEdit {
    type V = EditV;

    open spec fn view(&self) -> EditV {
        EditV {
            line: self.line,
            old_text: self.old_text@,
            new_text: self.new_text@,
            rule_id: self.rule_id@,
            description: self.description@,
        }
    }
}

/// The models of text edits.
pub open spec fn edit_models(s: Seq<TextEdit>) -> Seq<EditV> {
    s.map_values(|e: TextEdit| e@)
}

/// What a planned fix holds.
#[verifier::ext_equal]
pub ghost struct FixV {
    pub edits: Seq<EditV>,
    pub confidence: FixConfidence,
    pub source: FixSource,
    pub rule_id: Seq<char>,
    pub file_uri: Seq<char>,
    pub line: u32,
    pub description: Seq<char>,
}

impl View for PlannedFix {
    type V = FixV;

    open spec fn view(&self) -> FixV {
        FixV {
            edits: edit_models(self.edits@),
            confidence: self.confidence,
            source: self.source,
            rule_id: self.rule_id@,
            file_uri: self.file_uri@,
            line: self.line,
            description: self.description@,
        }
    }
}

/// The models of planned fixes.
pub open spec fn fix_models(s: Seq<PlannedFix>) -> Seq<FixV> {
    s.map_values(|f: PlannedFix| f@)
}

/// What an item for manual attention holds.
pub ghost struct ManualV {
    pub rule_id: Seq<char>,
    pub file_uri: Seq<char>,
    pub line: u32,
    pub message: Seq<char>,
    pub code_snip: Option<Seq<char>>,
}

impl View for ManualFixItem {
    type V = ManualV;

    open spec fn view(&self) -> ManualV {
        ManualV {
            rule_id: self.rule_id@,
            file_uri: self.file_uri@,
            line: self.line,
            message: self.message@,
            code_snip: opt_view(self.code_snip),
        }
    }
}

/// What a request to the language model holds.
pub ghost struct RequestV {
    pub rule_id: Seq<char>,
    pub file_uri: Seq<char>,
    pub file_path: Seq<char>,
    pub line: u32,
    pub message: Seq<char>,
    pub code_snip: Option<Seq<char>>,
    pub source: Option<Seq<char>>,
}

impl View for LlmFixRequest {
    type V = RequestV;

    open spec fn view(&self) -> RequestV {
        RequestV {
            rule_id: self.rule_id@,
            file_uri: self.file_uri@,
            file_path: self.file_path@,
            line: self.line,
            message: self.message@,
            code_snip: opt_view(self.code_snip),
            source: opt_view(self.source),
        }
    }
}

/// The models of requests to the language model.
pub open spec fn request_models(s: Seq<LlmFixRequest>) -> Seq<RequestV> {
    s.map_values(|r: LlmFixRequest| r@)
}

/// The models of fixes by file.
pub open spec fn file_models(s: Seq<(String, Vec<PlannedFix>)>) -> Seq<(Seq<char>, Seq<FixV>)> {
    s.map_values(|f: (String, Vec<PlannedFix>)| (f.0@, fix_models(f.1@)))
}

/// What a fix plan holds.
#[verifier::ext_equal]
pub ghost struct PlanV {
    pub files: Seq<(Seq<char>, Seq<FixV>)>,
    pub manual: Seq<ManualV>,
    pub pending: Seq<RequestV>,
}

impl View for FixPlan {
    type V = PlanV;

    open spec fn view(&self) -> PlanV {
        PlanV {
            files: file_models(self.files@),
            manual: self.manual@.map_values(|m: ManualFixItem| m@),
            pending: request_models(self.pending_llm@),
        }
    }
}

/// What a strategy holds.
pub ghost enum StrategyV {
    Rename(Seq<(Seq<char>, Seq<char>)>),
    RemoveProp,
    ImportPathChange(Seq<char>, Seq<char>),
    CssVariablePrefix(Seq<char>, Seq<char>),
    UpdateDependency(Seq<char>, Seq<char>),
    Manual,
    Llm,
}

/// The models of rename mappings: old name and new name.
pub open spec fn mapping_models(s: Seq<RenameMapping>) -> Seq<(Seq<char>, Seq<char>)> {
    s.map_values(|m: RenameMapping| (m.old@, m.new@))
}

impl View for FixStrategy {
    type V = StrategyV;

    open spec fn view(&self) -> StrategyV {
        match self {
            FixStrategy::Rename(m) => StrategyV::Rename(mapping_models(m@)),
            FixStrategy::RemoveProp => StrategyV::RemoveProp,
            FixStrategy::ImportPathChange { old_path, new_path } => StrategyV::ImportPathChange(
                old_path@,
                new_path@,
            ),
            FixStrategy::CssVariablePrefix { old_prefix, new_prefix } => {
                StrategyV::CssVariablePrefix(old_prefix@, new_prefix@)
            },
            FixStrategy::UpdateDependency { package, new_version } => StrategyV::UpdateDependency(
                package@,
                new_version@,
            ),
            FixStrategy::Manual => StrategyV::Manual,
            FixStrategy::Llm => StrategyV::Llm,
        }
    }
}

/// Appends a rename mapping.
pub fn push_mapping(out: &mut Vec<RenameMapping>, old_name: &str, new_name: &str)
    ensures
        mapping_models(final(out)@) == mapping_models(old(out)@).push((old_name@, new_name@)),
{
    out.push(RenameMapping { old: old_name.to_owned(), new: new_name.to_owned() });
    assert(mapping_models(out@) =~= mapping_models(old(out)@).push((old_name@, new_name@)));
}

impl Clone for FixStrategy {
    fn clone(&self) -> (r: FixStrategy)
        ensures
            r@ == self@,
    {
        match self {
            FixStrategy::Rename(m) => {
                let mut out: Vec<RenameMapping> = Vec::new();
                let mut i: usize = 0;
                assert(mapping_models(out@) =~= mapping_models(m@).take(0));
                while i < m.len()
                    invariant
                        i <= m@.len(),
                        mapping_models(out@) == mapping_models(m@).take(i as int),
                    decreases m.len() - i,
                {
                    push_mapping(&mut out, m[i].old.as_str(), m[i].new.as_str());
                    i = i + 1;
                    assert(mapping_models(out@) =~= mapping_models(m@).take(i as int));
                }
                assert(mapping_models(m@).take(m@.len() as int) =~= mapping_models(m@));
                FixStrategy::Rename(out)
            },
            FixStrategy::RemoveProp => FixStrategy::RemoveProp,
            FixStrategy::ImportPathChange { old_path, new_path } => FixStrategy::ImportPathChange {
                old_path: old_path.clone(),
                new_path: new_path.clone(),
            },
            FixStrategy::CssVariablePrefix { old_prefix, new_prefix } => {
                FixStrategy::CssVariablePrefix {
                    old_prefix: old_prefix.clone(),
                    new_prefix: new_prefix.clone(),
                }
            },
            FixStrategy::UpdateDependency { package, new_version } => {
                FixStrategy::UpdateDependency {
                    package: package.clone(),
                    new_version: new_version.clone(),
                }
            },
            FixStrategy::Manual => FixStrategy::Manual,
            FixStrategy::Llm => FixStrategy::Llm,
        }
    }
}

/// One mapping of a strategy entry.
#[derive(Debug)]
pub struct MappingEntry {
    pub from: Option<String>,
    pub to: Option<String>,
    pub component: Option<String>,
    pub prop: Option<String>,
}

/// A strategy as it is written down in a strategy file.
#[derive(Debug)]
pub struct FixStrategyEntry {
    pub strategy: String,
    pub from: Option<String>,
    pub to: Option<String>,
    pub component: Option<String>,
    pub prop: Option<String>,
    /// All individual mappings of a strategy that was merged from several rules.
    pub mappings: Vec<MappingEntry>,
    /// The package whose dependency is updated.
    pub package: Option<String>,
    /// The new version of the package.
    pub new_version: Option<String>,
}

/// What a mapping of a strategy entry holds.
pub ghost struct MappingV {
    pub from: Option<Seq<char>>,
    pub to: Option<Seq<char>>,
    pub component: Option<Seq<char>>,
    pub prop: Option<Seq<char>>,
}

/// What a strategy entry holds.
pub ghost struct EntryV {
    pub strategy: Seq<char>,
    pub from: Option<Seq<char>>,
    pub to: Option<Seq<char>>,
    pub component: Option<Seq<char>>,
    pub prop: Option<Seq<char>>,
    pub mappings: Seq<MappingV>,
    pub package: Option<Seq<char>>,
    pub new_version: Option<Seq<char>>,
}

impl View for MappingEntry {
    type V = MappingV;

    open spec fn view(&self) -> MappingV {
        MappingV {
            from: opt_view(self.from),
            to: opt_view(self.to),
            component: opt_view(self.component),
            prop: opt_view(self.prop),
        }
    }
}

impl View for FixStrategyEntry {
    type V = EntryV;

    open spec fn view(&self) -> EntryV {
        EntryV {
            strategy: self.strategy@,
            from: opt_view(self.from),
            to: opt_view(self.to),
            component: opt_view(self.component),
            prop: opt_view(self.prop),
            mappings: self.mappings@.map_values(|m: MappingEntry| m@),
            package: opt_view(self.package),
            new_version: opt_view(self.new_version),
        }
    }
}

impl FixStrategyEntry {
    /// An entry with only the strategy set.
    pub fn new(strategy: &str) -> (r: FixStrategyEntry)
        ensures
            r@ == (EntryV {
                strategy: strategy@,
                from: None,
                to: None,
                component: None,
                prop: None,
                mappings: Seq::empty(),
                package: None,
                new_version: None,
            }),
    {
        let r = FixStrategyEntry {
            strategy: strategy.to_owned(),
            from: None,
            to: None,
            component: None,
            prop: None,
            mappings: Vec::new(),
            package: None,
            new_version: None,
        };
        assert(r@.mappings =~= Seq::empty());
        r
    }
}

/// The renames among the first `n` mappings: those with an old and a new name.
pub open spec fn renames_in(mappings: Seq<MappingV>, n: int) -> Seq<(Seq<char>, Seq<char>)>
    decreases n,
{
    if n <= 0 || n > mappings.len() {
        Seq::empty()
    } else {
        match (mappings[n - 1].from, mappings[n - 1].to) {
            (Some(from), Some(to)) => renames_in(mappings, n - 1).push((from, to)),
            _ => renames_in(mappings, n - 1),
        }
    }
}

/// The renames of an entry: those of its mappings, or else the one at its top level.
pub open spec fn entry_renames(e: EntryV) -> Seq<(Seq<char>, Seq<char>)> {
    let listed = renames_in(e.mappings, e.mappings.len() as int);
    if listed.len() > 0 {
        listed
    } else {
        match (e.from, e.to) {
            (Some(from), Some(to)) => seq![(from, to)],
            _ => Seq::empty(),
        }
    }
}

/// The strategy that an entry stands for.
pub open spec fn entry_strategy(e: EntryV) -> StrategyV {
    if e.strategy == "Rename"@ {
        if entry_renames(e).len() == 0 {
            StrategyV::Manual
        } else {
            StrategyV::Rename(entry_renames(e))
        }
    } else if e.strategy == "RemoveProp"@ {
        StrategyV::RemoveProp
    } else if e.strategy == "CssVariablePrefix"@ {
        match (e.from, e.to) {
            (Some(from), Some(to)) => StrategyV::CssVariablePrefix(from, to),
            _ => StrategyV::Manual,
        }
    } else if e.strategy == "ImportPathChange"@ {
        match (e.from, e.to) {
            (Some(from), Some(to)) => StrategyV::ImportPathChange(from, to),
            _ => StrategyV::Manual,
        }
    } else if e.strategy == "UpdateDependency"@ {
        match (e.package, e.new_version) {
            (Some(package), Some(version)) => StrategyV::UpdateDependency(package, version),
            _ => StrategyV::Manual,
        }
    } else if e.strategy == "PropValueChange"@ || e.strategy == "PropTypeChange"@ || e.strategy
        == "LlmAssisted"@ {
        StrategyV::Llm
    } else {
        StrategyV::Manual
    }
}

/// The renames of an entry.
fn collect_renames(entry: &FixStrategyEntry) -> (out: Vec<RenameMapping>)
    ensures
        mapping_models(out@) == entry_renames(entry@),
{
    let mut out: Vec<RenameMapping> = Vec::new();
    let ghost all = entry@.mappings;
    let mut i: usize = 0;
    assert(mapping_models(out@) =~= renames_in(all, 0));
    while i < entry.mappings.len()
        invariant
            all == entry@.mappings,
            i <= entry.mappings@.len(),
            mapping_models(out@) == renames_in(all, i as int),
        decreases entry.mappings.len() - i,
    {
        let m = &entry.mappings[i];
        assert(all[i as int] == m@);
        if let Some(from) = &m.from {
            if let Some(to) = &m.to {
                push_mapping(&mut out, from.as_str(), to.as_str());
            }
        }
        i = i + 1;
    }
    assert(mapping_models(out@).len() == out@.len());
    if out.len() == 0 {
        if let Some(from) = &entry.from {
            if let Some(to) = &entry.to {
                push_mapping(&mut out, from.as_str(), to.as_str());
                assert(mapping_models(out@) =~= seq![(from@, to@)]);
            }
        }
        assert(mapping_models(out@) =~= entry_renames(entry@));
    }
    out
}

/// Convert a strategy entry to the strategy it stands for.
///
/// An entry that lacks what its strategy needs is left for manual review.
pub fn strategy_entry_to_fix_strategy(entry: &FixStrategyEntry) -> (r: FixStrategy)
    ensures
        r@ == entry_strategy(entry@),
{
    let name = entry.strategy.as_str();
    if same(name, "Rename") {
        let renames = collect_renames(entry);
        if renames.len() == 0 {
            FixStrategy::Manual
        } else {
            FixStrategy::Rename(renames)
        }
    } else if same(name, "RemoveProp") {
        FixStrategy::RemoveProp
    } else if same(name, "CssVariablePrefix") {
        match (&entry.from, &entry.to) {
            (Some(from), Some(to)) => FixStrategy::CssVariablePrefix {
                old_prefix: from.clone(),
                new_prefix: to.clone(),
            },
            _ => FixStrategy::Manual,
        }
    } else if same(name, "ImportPathChange") {
        match (&entry.from, &entry.to) {
            (Some(from), Some(to)) => FixStrategy::ImportPathChange {
                old_path: from.clone(),
                new_path: to.clone(),
            },
            _ => FixStrategy::Manual,
        }
    } else if same(name, "UpdateDependency") {
        match (&entry.package, &entry.new_version) {
            (Some(package), Some(version)) => FixStrategy::UpdateDependency {
                package: package.clone(),
                new_version: version.clone(),
            },
            _ => FixStrategy::Manual,
        }
    } else if same(name, "PropValueChange") || same(name, "PropTypeChange") || same(
        name,
        "LlmAssisted",
    ) {
        FixStrategy::Llm
    } else {
        FixStrategy::Manual
    }
}

/// The models of strategies by rule ID.
pub open spec fn strategy_models(s: Seq<(String, FixStrategy)>) -> Seq<(Seq<char>, StrategyV)> {
    s.map_values(|e: (String, FixStrategy)| (e.0@, e.1@))
}

/// The strategy of a rule: the last one given for it.
pub open spec fn strategy_for(table: Seq<(Seq<char>, StrategyV)>, rule_id: Seq<char>) -> Option<
    StrategyV,
>
    decreases table.len(),
{
    if table.len() == 0 {
        None
    } else if table.last().0 == rule_id {
        Some(table.last().1)
    } else {
        strategy_for(table.drop_last(), rule_id)
    }
}

/// The strategy of a rule.
pub fn find_strategy<'a>(table: &'a Vec<(String, FixStrategy)>, rule_id: &str) -> (r: Option<
    &'a FixStrategy,
>)
    ensures
        match r {
            Some(x) => strategy_for(strategy_models(table@), rule_id@) == Some(x@),
            None => strategy_for(strategy_models(table@), rule_id@) is None,
        },
{
    let ghost t = strategy_models(table@);
    let mut n: usize = table.len();
    assert(t.take(t.len() as int) =~= t);
    while n > 0
        invariant
            t == strategy_models(table@),
            n <= table@.len(),
            strategy_for(t, rule_id@) == strategy_for(t.take(n as int), rule_id@),
        decreases n,
    {
        assert(t.take(n as int).last() == t[n - 1]);
        assert(t[n - 1].0 == table@[n - 1].0@);
        if same(table[n - 1].0.as_str(), rule_id) {
            return Some(&table[n - 1].1);
        }
        assert(t.take(n as int).drop_last() =~= t.take(n - 1));
        n = n - 1;
    }
    None
}

/// `serde_json::Error`, the reason why a document could not be read.
#[verifier::external_type_specification]
#[verifier::external_body]
pub struct ExJsonError(serde_json::Error);

/// The entries of a strategy file by rule ID, where `serde_json` reads it as such.
pub uninterp spec fn strategy_document(content: Seq<char>) -> Option<Seq<(Seq<char>, EntryV)>>;

/// The models of strategy entries by rule ID.
pub open spec fn entry_list_models(s: Seq<(String, FixStrategyEntry)>) -> Seq<
    (Seq<char>, EntryV),
> {
    s.map_values(|e: (String, FixStrategyEntry)| (e.0@, e.1@))
}

/// `serde_json::from_str` into a map from rule IDs to `konveyor_core::fix::FixStrategyEntry`,
/// handed on in the order of the IDs. Whether the text is read, and the entries, depend on the
/// text alone.
#[verifier::external_body]
fn read_strategy_entries(content: &str) -> (r: Result<
    Vec<(String, FixStrategyEntry)>,
    serde_json::Error,
>)
    ensures
        match r {
            Ok(v) => strategy_document(content@) == Some(entry_list_models(v@)),
            Err(_) => strategy_document(content@) is None,
        },
{
    let read: std::collections::BTreeMap<String, konveyor_core::fix::FixStrategyEntry> =
        serde_json::from_str(content)?;
    Ok(read.into_iter().map(|(id, e)| (id, FixStrategyEntry {
        strategy: e.strategy, from: e.from, to: e.to, component: e.component, prop: e.prop,
        mappings: e.mappings.into_iter().map(|m| MappingEntry {
            from: m.from, to: m.to, component: m.component, prop: m.prop,
        }).collect(),
        package: e.package, new_version: e.new_version,
    })).collect())
}

/// The strategies that entries stand for.
pub open spec fn strategies_of(entries: Seq<(Seq<char>, EntryV)>) -> Seq<(Seq<char>, StrategyV)> {
    entries.map_values(|e: (Seq<char>, EntryV)| (e.0, entry_strategy(e.1)))
}

/// The strategies that entries stand for.
pub fn strategies_from_entries(entries: &Vec<(String, FixStrategyEntry)>) -> (out: Vec<
    (String, FixStrategy),
>)
    ensures
        strategy_models(out@) == strategies_of(entry_list_models(entries@)),
{
    let ghost goal = strategies_of(entry_list_models(entries@));
    let mut out: Vec<(String, FixStrategy)> = Vec::new();
    let mut i: usize = 0;
    assert(strategy_models(out@) =~= goal.take(0));
    while i < entries.len()
        invariant
            goal == strategies_of(entry_list_models(entries@)),
            i <= entries@.len(),
            strategy_models(out@) == goal.take(i as int),
        decreases entries.len() - i,
    {
        let strategy = strategy_entry_to_fix_strategy(&entries[i].1);
        let ghost before = strategy_models(out@);
        out.push((entries[i].0.clone(), strategy));
        assert(strategy_models(out@) =~= before.push(goal[i as int]));
        i = i + 1;
        assert(strategy_models(out@) =~= goal.take(i as int));
    }
    assert(goal.take(goal.len() as int) =~= goal);
    out
}

/// Load fix strategies from the content of a JSON file: rule IDs with their strategies.
pub fn load_strategies_from_json(content: &str) -> (r: Result<
    Vec<(String, FixStrategy)>,
    serde_json::Error,
>)
    ensures
        match r {
            Ok(v) => match strategy_document(content@) {
                Some(d) => strategy_models(v@) == strategies_of(d),
                None => false,
            },
            Err(_) => strategy_document(content@) is None,
        },
{
    match read_strategy_entries(content) {
        Ok(entries) => Ok(strategies_from_entries(&entries)),
        Err(e) => Err(e),
    }
}

} // verus!
