//! What the tables of known strategies hold.

use crate::fix::StrategyV;
use crate::fix_engine::{
    component_renames_table, css_renames_table, known_strategies, manual_reviews_table,
    prop_removals_table, prop_renames_table, structural_changes_table, value_changes_table,
};
use crate::object_laws::lemma_either;
use vstd::prelude::*;

verus! {

/// The kinds of strategies in the tables.
pub ghost enum Kind {
    Rename,
    RemoveProp,
    Llm,
    Manual,
}

/// Whether a strategy is of a kind. A rename renames something.
pub open spec fn is_kind(s: StrategyV, kind: Kind) -> bool {
    match kind {
        Kind::Rename => s matches StrategyV::Rename(ms) && ms.len() > 0,
        Kind::RemoveProp => s is RemoveProp,
        Kind::Llm => s is Llm,
        Kind::Manual => s is Manual,
    }
}

/// Whether all strategies of a table are of a kind.
pub open spec fn all_kind(table: Seq<(Seq<char>, StrategyV)>, kind: Kind) -> bool {
    forall|k: int| 0 <= k < table.len() ==> is_kind((#[trigger] table[k]).1, kind)
}

broadcast proof fn lemma_one_more(
    table: Seq<(Seq<char>, StrategyV)>,
    entry: (Seq<char>, StrategyV),
    kind: Kind,
)
    ensures
        #[trigger] all_kind(table.push(entry), kind) == (all_kind(table, kind) && is_kind(
            entry.1,
            kind,
        )),
{
    let now = table.push(entry);
    if all_kind(now, kind) {
        assert forall|k: int| 0 <= k < table.len() implies is_kind((#[trigger] table[k]).1, kind) by {
            assert(now[k] == table[k]);
        }
        assert(now[table.len() as int] == entry);
    }
}

/// The tables of renames rename, that of removals removes, and those of structural changes and of
/// reviews leave their rules to the language model and to manual attention.
pub proof fn law_table_kinds()
    ensures
        all_kind(component_renames_table(), Kind::Rename),
        all_kind(prop_renames_table(), Kind::Rename),
        all_kind(value_changes_table(), Kind::Rename),
        all_kind(css_renames_table(), Kind::Rename),
        all_kind(prop_removals_table(), Kind::RemoveProp),
        all_kind(structural_changes_table(), Kind::Llm),
        all_kind(manual_reviews_table(), Kind::Manual),
{
    assert(all_kind(component_renames_table(), Kind::Rename)) by {
        broadcast use lemma_one_more;

        reveal(component_renames_table);
    }
    assert(all_kind(prop_renames_table(), Kind::Rename)) by {
        broadcast use lemma_one_more;

        reveal(prop_renames_table);
    }
    assert(all_kind(value_changes_table(), Kind::Rename)) by {
        broadcast use lemma_one_more;

        reveal(value_changes_table);
    }
    assert(all_kind(css_renames_table(), Kind::Rename)) by {
        broadcast use lemma_one_more;

        reveal(css_renames_table);
    }
    assert(all_kind(prop_removals_table(), Kind::RemoveProp)) by {
        broadcast use lemma_one_more;

        reveal(prop_removals_table);
    }
    assert(all_kind(structural_changes_table(), Kind::Llm)) by {
        broadcast use lemma_one_more;

        reveal(structural_changes_table);
    }
    assert(all_kind(manual_reviews_table(), Kind::Manual)) by {
        broadcast use lemma_one_more;

        reveal(manual_reviews_table);
    }
}

/// The known strategies are those of all tables, and no other.
pub proof fn law_known_strategies(entry: (Seq<char>, StrategyV))
    ensures
        known_strategies().contains(entry) <==> component_renames_table().contains(entry)
            || prop_renames_table().contains(entry) || value_changes_table().contains(entry)
            || prop_removals_table().contains(entry) || css_renames_table().contains(entry)
            || structural_changes_table().contains(entry) || manual_reviews_table().contains(entry),
{
    let a = component_renames_table();
    let b = prop_renames_table();
    let c = value_changes_table();
    let d = prop_removals_table();
    let e = css_renames_table();
    let f = structural_changes_table();
    let g = manual_reviews_table();
    lemma_either(a, b, entry);
    lemma_either(a + b, c, entry);
    lemma_either(a + b + c, d, entry);
    lemma_either(a + b + c + d, e, entry);
    lemma_either(a + b + c + d + e, f, entry);
    lemma_either(a + b + c + d + e + f, g, entry);
}

/// How many rules are known, by table.
pub proof fn law_table_sizes()
    ensures
        component_renames_table().len() == 11,
        prop_renames_table().len() == 13,
        value_changes_table().len() == 10,
        prop_removals_table().len() == 14,
        css_renames_table().len() == 3,
        structural_changes_table().len() == 8,
        manual_reviews_table().len() == 8,
        known_strategies().len() == 67,
{
    reveal(component_renames_table);
    reveal(prop_renames_table);
    reveal(value_changes_table);
    reveal(prop_removals_table);
    reveal(css_renames_table);
    reveal(structural_changes_table);
    reveal(manual_reviews_table);
}

} // verus!
