//! The fix engine with its built-in strategy table.
//!
//! The table maps the IDs of known migration rules to the fix that they ask for.

use crate::engine::{
    add_manual, add_opt_fix, add_request, content_models, content_of, find_content, in_path_order,
    insert_fix, law_by_falling_line, law_insert_keeps_order, lines_fall, opt_strategy, path_of_uri,
    sort_plan, sorted_files, uri_to_path, with_fix, with_manual, with_request,
};
use crate::fix::{
    find_strategy, mapping_models, push_mapping, strategy_for, strategy_models, EditV, FixConfidence,
    FixPlan, FixStrategy, FixV, PlanV, PlannedFix, RenameMapping, StrategyV,
};
use crate::fixers::{
    edits_stand, import_path_fix, index_of_line, lemma_contains_itself, line_index, make_fix,
    no_edits, one_removal, opt_fix, plan_import_path_change, plan_rename, prop_fix,
    prop_pattern, rename_fix, text_variable,
};
use crate::incident::{Incident, IncidentV};
use crate::paths::path_rank;
use crate::pattern::{find_text, regex_first, regex_valid};
use crate::report::{ruleset_models, RuleSet, Violation, ViolationV};
use crate::text::{concat3, lines, lines_of, same, starts_with, texts, trim, trimmed};
use vstd::prelude::*;

verus! {

/// Component renames.
#[verifier::opaque]
pub open spec fn component_renames_table() -> Seq<(Seq<char>, StrategyV)> {
    Seq::<(Seq<char>, StrategyV)>::empty().push((
        "pfv6-rename-chip-to-label"@,
        StrategyV::Rename(
            Seq::<(Seq<char>, Seq<char>)>::empty()
                .push(("Chip"@, "Label"@))
                .push(("ChipGroup"@, "LabelGroup"@)),
        ),
    )).push((
        "pfv6-rename-toolbar-chip-group-content"@,
        StrategyV::Rename(
            Seq::<(Seq<char>, Seq<char>)>::empty()
                .push(("ToolbarChipGroupContent"@, "ToolbarLabelGroupContent"@)),
        ),
    )).push((
        "pfv6-rename-masthead-brand"@,
        StrategyV::Rename(
            Seq::<(Seq<char>, Seq<char>)>::empty()
                .push(("MastheadBrand"@, "MastheadLogo"@)),
        ),
    )).push((
        "pfv6-rename-content-header"@,
        StrategyV::Rename(
            Seq::<(Seq<char>, Seq<char>)>::empty()
                .push(("ContentHeader"@, "PageHeader"@)),
        ),
    )).push((
        "pfv6-rename-invalid-object"@,
        StrategyV::Rename(
            Seq::<(Seq<char>, Seq<char>)>::empty()
                .push(("InvalidObject"@, "MissingPage"@)),
        ),
    )).push((
        "pfv6-rename-not-authorized"@,
        StrategyV::Rename(
            Seq::<(Seq<char>, Seq<char>)>::empty()
                .push(("NotAuthorized"@, "UnauthorizedAccess"@)),
        ),
    )).push((
        "pfv6-rename-text-to-content"@,
        StrategyV::Rename(
            Seq::<(Seq<char>, Seq<char>)>::empty()
                .push(("TextContent"@, "Content"@))
                .push(("TextList"@, "Content"@))
                .push(("TextListItem"@, "Content"@))
                .push(("Text"@, "Content"@)),
        ),
    )).push((
        "pfv6-rename-text-variants"@,
        StrategyV::Rename(
            Seq::<(Seq<char>, Seq<char>)>::empty()
                .push(("TextVariants"@, "ContentVariants"@))
                .push(("TextProps"@, "ContentProps"@)),
        ),
    )).push((
        "pfv6-rename-text-isvisited"@,
        StrategyV::Rename(
            Seq::<(Seq<char>, Seq<char>)>::empty()
                .push(("isVisited"@, "isVisitedLink"@)),
        ),
    )).push((
        "pfv6-rename-textlist-isplain"@,
        StrategyV::Rename(
            Seq::<(Seq<char>, Seq<char>)>::empty()
                .push(("isPlain"@, "isPlainList"@)),
        ),
    )).push((
        "pfv6-rename-form-field-group-typo"@,
        StrategyV::Rename(
            Seq::<(Seq<char>, Seq<char>)>::empty()
                .push(("FormFiledGroupHeaderTitleTextObject"@, "FormFieldGroupHeaderTitleTextObject"@)),
        ),
    ))
}

/// Prop renames.
#[verifier::opaque]
pub open spec fn prop_renames_table() -> Seq<(Seq<char>, StrategyV)> {
    Seq::<(Seq<char>, StrategyV)>::empty().push((
        "pfv6-prop-rename-button-isactive"@,
        StrategyV::Rename(
            Seq::<(Seq<char>, Seq<char>)>::empty()
                .push(("isActive"@, "isClicked"@)),
        ),
    )).push((
        "pfv6-prop-rename-page-header"@,
        StrategyV::Rename(
            Seq::<(Seq<char>, Seq<char>)>::empty()
                .push(("header"@, "masthead"@)),
        ),
    )).push((
        "pfv6-prop-rename-page-tertiary-nav"@,
        StrategyV::Rename(
            Seq::<(Seq<char>, Seq<char>)>::empty()
                .push(("tertiaryNav"@, "horizontalSubnav"@)),
        ),
    )).push((
        "pfv6-prop-rename-page-is-tertiary-grouped"@,
        StrategyV::Rename(
            Seq::<(Seq<char>, Seq<char>)>::empty()
                .push(("isTertiaryNavGrouped"@, "isHorizontalSubnavGrouped"@)),
        ),
    )).push((
        "pfv6-prop-rename-page-is-tertiary-width-limited"@,
        StrategyV::Rename(
            Seq::<(Seq<char>, Seq<char>)>::empty()
                .push(("isTertiaryNavWidthLimited"@, "isHorizontalSubnavWidthLimited"@)),
        ),
    )).push((
        "pfv6-prop-rename-avatar-border"@,
        StrategyV::Rename(
            Seq::<(Seq<char>, Seq<char>)>::empty()
                .push(("border"@, "isBordered"@)),
        ),
    )).push((
        "pfv6-prop-rename-formgroup-labelicon"@,
        StrategyV::Rename(
            Seq::<(Seq<char>, Seq<char>)>::empty()
                .push(("labelIcon"@, "labelHelp"@)),
        ),
    )).push((
        "pfv6-prop-rename-tabs-issecondary"@,
        StrategyV::Rename(
            Seq::<(Seq<char>, Seq<char>)>::empty()
                .push(("isSecondary"@, "isSubtab"@)),
        ),
    )).push((
        "pfv6-prop-rename-checkbox-label-position"@,
        StrategyV::Rename(
            Seq::<(Seq<char>, Seq<char>)>::empty()
                .push(("isLabelBeforeButton"@, "labelPosition"@)),
        ),
    )).push((
        "pfv6-prop-rename-innerref-to-ref"@,
        StrategyV::Rename(
            Seq::<(Seq<char>, Seq<char>)>::empty()
                .push(("innerRef"@, "ref"@)),
        ),
    )).push((
        "pfv6-prop-rename-toolbar-chip-to-label"@,
        StrategyV::Rename(
            Seq::<(Seq<char>, Seq<char>)>::empty()
                .push(("chips"@, "labels"@))
                .push(("deleteChip"@, "deleteLabel"@))
                .push(("deleteChipGroup"@, "deleteLabelGroup"@))
                .push(("chipGroupExpandedText"@, "labelGroupExpandedText"@))
                .push(("chipGroupCollapsedText"@, "labelGroupCollapsedText"@))
                .push(("categoryName"@, "categoryName"@))
                .push(("customChipGroupContent"@, "customLabelGroupContent"@))
                .push(("chipContainerRef"@, "labelContainerRef"@))
                .push(("expandableChipContainerRef"@, "expandableLabelContainerRef"@))
                .push(("chipGroupContentRef"@, "labelGroupContentRef"@)),
        ),
    )).push((
        "pfv6-prop-rename-menutoggle-splitbutton"@,
        StrategyV::Rename(
            Seq::<(Seq<char>, Seq<char>)>::empty()
                .push(("splitButtonOptions"@, "splitButtonItems"@)),
        ),
    )).push((
        "pfv6-prop-rename-toolbar-chip-interfaces"@,
        StrategyV::Rename(
            Seq::<(Seq<char>, Seq<char>)>::empty()
                .push(("ToolbarChipGroup"@, "ToolbarLabelGroup"@))
                .push(("ToolbarChip"@, "ToolbarLabel"@)),
        ),
    ))
}

/// Changes of prop values.
#[verifier::opaque]
pub open spec fn value_changes_table() -> Seq<(Seq<char>, StrategyV)> {
    Seq::<(Seq<char>, StrategyV)>::empty().push((
        "pfv6-prop-value-toolbar-group-variant"@,
        StrategyV::Rename(
            Seq::<(Seq<char>, Seq<char>)>::empty()
                .push(("icon-button-group"@, "action-group-plain"@))
                .push(("button-group"@, "action-group"@)),
        ),
    )).push((
        "pfv6-prop-value-toolbar-item-variant"@,
        StrategyV::Rename(
            Seq::<(Seq<char>, Seq<char>)>::empty()
                .push(("chip-group"@, "label-group"@)),
        ),
    )).push((
        "pfv6-prop-value-tabs-variant"@,
        StrategyV::Rename(
            Seq::<(Seq<char>, Seq<char>)>::empty()
                .push(("light300"@, "secondary"@)),
        ),
    )).push((
        "pfv6-prop-value-nav-tertiary"@,
        StrategyV::Rename(
            Seq::<(Seq<char>, Seq<char>)>::empty()
                .push(("tertiary"@, "horizontal-subnav"@)),
        ),
    )).push((
        "pfv6-prop-value-drawer-colorvariant"@,
        StrategyV::Rename(
            Seq::<(Seq<char>, Seq<char>)>::empty()
                .push(("light-200"@, "secondary"@)),
        ),
    )).push((
        "pfv6-prop-value-label-overflow"@,
        StrategyV::Rename(
            Seq::<(Seq<char>, Seq<char>)>::empty()
                .push(("isOverflowLabel"@, "variant"@)),
        ),
    )).push((
        "pfv6-prop-value-toolbar-spacer"@,
        StrategyV::Rename(
            Seq::<(Seq<char>, Seq<char>)>::empty()
                .push(("spacer"@, "gap"@))
                .push(("spaceItems"@, "gap"@))
                .push(("spacerNone"@, "gapNone"@))
                .push(("spacerSm"@, "gapSm"@))
                .push(("spacerMd"@, "gapMd"@))
                .push(("spacerLg"@, "gapLg"@)),
        ),
    )).push((
        "pfv6-prop-rename-toolbar-align"@,
        StrategyV::Rename(
            Seq::<(Seq<char>, Seq<char>)>::empty()
                .push(("alignLeft"@, "alignStart"@))
                .push(("alignRight"@, "alignEnd"@)),
        ),
    )).push((
        "pfv6-prop-value-banner-color"@,
        StrategyV::Rename(
            Seq::<(Seq<char>, Seq<char>)>::empty()
                .push(("cyan"@, "teal"@))
                .push(("gold"@, "yellow"@)),
        ),
    )).push((
        "pfv6-prop-value-banner-variant"@,
        StrategyV::Rename(
            Seq::<(Seq<char>, Seq<char>)>::empty()
                .push(("variant"@, "color"@)),
        ),
    ))
}

/// Prop removals.
#[verifier::opaque]
pub open spec fn prop_removals_table() -> Seq<(Seq<char>, StrategyV)> {
    Seq::<(Seq<char>, StrategyV)>::empty()
        .push(("pfv6-prop-remove-accordion-ishidden"@, StrategyV::RemoveProp))
        .push(("pfv6-prop-remove-card-various"@, StrategyV::RemoveProp))
        .push(("pfv6-prop-remove-datalist-plain-button"@, StrategyV::RemoveProp))
        .push(("pfv6-prop-remove-drawer-nopadding"@, StrategyV::RemoveProp))
        .push(("pfv6-prop-remove-expandable-isactive"@, StrategyV::RemoveProp))
        .push(("pfv6-prop-remove-helpertext-props"@, StrategyV::RemoveProp))
        .push(("pfv6-prop-remove-masthead-bgcolor"@, StrategyV::RemoveProp))
        .push(("pfv6-prop-remove-nav-theme"@, StrategyV::RemoveProp))
        .push(("pfv6-prop-remove-navitem-wrapper"@, StrategyV::RemoveProp))
        .push(("pfv6-prop-remove-switch-labeloff"@, StrategyV::RemoveProp))
        .push(("pfv6-prop-remove-toolbar-various"@, StrategyV::RemoveProp))
        .push(("pfv6-prop-remove-navlist-aria-scroll"@, StrategyV::RemoveProp))
        .push(("pfv6-prop-remove-duallist-onoptionselect"@, StrategyV::RemoveProp))
        .push(("pfv6-prop-remove-accordion-toggle-isexpanded"@, StrategyV::RemoveProp))
}

/// CSS class and variable renames.
#[verifier::opaque]
pub open spec fn css_renames_table() -> Seq<(Seq<char>, StrategyV)> {
    Seq::<(Seq<char>, StrategyV)>::empty().push((
        "pfv6-css-v5-prefix"@,
        StrategyV::Rename(
            Seq::<(Seq<char>, Seq<char>)>::empty()
                .push(("pf-v5-"@, "pf-v6-"@)),
        ),
    )).push((
        "pfv6-css-variable-v5-prefix"@,
        StrategyV::Rename(
            Seq::<(Seq<char>, Seq<char>)>::empty()
                .push(("--pf-v5-"@, "--pf-v6-"@)),
        ),
    )).push((
        "pfv6-css-variable-logical-properties"@,
        StrategyV::Rename(
            Seq::<(Seq<char>, Seq<char>)>::empty()
                .push(("PaddingTop"@, "PaddingBlockStart"@))
                .push(("PaddingBottom"@, "PaddingBlockEnd"@))
                .push(("PaddingLeft"@, "PaddingInlineStart"@))
                .push(("PaddingRight"@, "PaddingInlineEnd"@))
                .push(("MarginTop"@, "MarginBlockStart"@))
                .push(("MarginBottom"@, "MarginBlockEnd"@))
                .push(("MarginLeft"@, "MarginInlineStart"@))
                .push(("MarginRight"@, "MarginInlineEnd"@))
                .push(("InsetTop"@, "InsetBlockStart"@))
                .push(("InsetBottom"@, "InsetBlockEnd"@))
                .push(("InsetLeft"@, "InsetInlineStart"@))
                .push(("InsetRight"@, "InsetInlineEnd"@))
                .push(("--Left"@, "--InsetInlineStart"@))
                .push(("--Right"@, "--InsetInlineEnd"@)),
        ),
    ))
}

/// Structural changes that are left to the language model.
#[verifier::opaque]
pub open spec fn structural_changes_table() -> Seq<(Seq<char>, StrategyV)> {
    Seq::<(Seq<char>, StrategyV)>::empty()
        .push(("pfv6-dom-masthead-layout"@, StrategyV::Llm))
        .push(("pfv6-deprecated-modal"@, StrategyV::Llm))
        .push(("pfv6-chip-deprecated-import"@, StrategyV::Llm))
        .push(("pfv6-remove-empty-state-header"@, StrategyV::Llm))
        .push(("pfv6-deprecated-select-old"@, StrategyV::Llm))
        .push(("pfv6-deprecated-dropdown-old"@, StrategyV::Llm))
        .push(("pfv6-deprecated-wizard-old"@, StrategyV::Llm))
        .push(("pfv6-behavioral-button-icon-children"@, StrategyV::Llm))
}

/// Changes that need manual review.
#[verifier::opaque]
pub open spec fn manual_reviews_table() -> Seq<(Seq<char>, StrategyV)> {
    Seq::<(Seq<char>, StrategyV)>::empty()
        .push(("pfv6-dom-expandable-section-toggle"@, StrategyV::Manual))
        .push(("pfv6-dom-navlist-scroll-buttons"@, StrategyV::Manual))
        .push(("pfv6-dom-progress-tooltip"@, StrategyV::Manual))
        .push(("pfv6-dom-truncate-tooltip"@, StrategyV::Manual))
        .push(("pfv6-dom-dropdown-item-tooltip"@, StrategyV::Manual))
        .push(("pfv6-dom-menu-item-tooltip"@, StrategyV::Manual))
        .push(("pfv6-dom-pagination-toggle"@, StrategyV::Manual))
        .push(("pfv6-dom-tabs-scroll-buttons"@, StrategyV::Manual))
}

/// The strategies of all known rules.
pub open spec fn known_strategies() -> Seq<(Seq<char>, StrategyV)> {
    component_renames_table() + prop_renames_table() + value_changes_table()
        + prop_removals_table() + css_renames_table() + structural_changes_table()
        + manual_reviews_table()
}

/// The models of the strategies of known rules.
fn add_strategy(out: &mut Vec<(String, FixStrategy)>, rule_id: &str, strategy: FixStrategy)
    ensures
        strategy_models(final(out)@) == strategy_models(old(out)@).push((rule_id@, strategy@)),
{
    out.push((rule_id.to_owned(), strategy));
    assert(strategy_models(out@) =~= strategy_models(old(out)@).push((rule_id@, strategy@)));
}

/// No renames.
fn no_renames() -> (out: Vec<RenameMapping>)
    ensures
        mapping_models(out@) == Seq::<(Seq<char>, Seq<char>)>::empty(),
{
    let out: Vec<RenameMapping> = Vec::new();
    assert(mapping_models(out@) =~= Seq::<(Seq<char>, Seq<char>)>::empty());
    out
}

/// No strategies.
fn no_strategies() -> (out: Vec<(String, FixStrategy)>)
    ensures
        strategy_models(out@) == Seq::<(Seq<char>, StrategyV)>::empty(),
{
    let out: Vec<(String, FixStrategy)> = Vec::new();
    assert(strategy_models(out@) =~= Seq::<(Seq<char>, StrategyV)>::empty());
    out
}

/// Component renames.
fn component_renames() -> (out: Vec<(String, FixStrategy)>)
    ensures
        strategy_models(out@) == component_renames_table(),
{
    proof {
        reveal(component_renames_table);
    }
    let mut out = no_strategies();
    let mut m = no_renames();
    push_mapping(&mut m, "Chip", "Label");
    push_mapping(&mut m, "ChipGroup", "LabelGroup");
    add_strategy(&mut out, "pfv6-rename-chip-to-label", FixStrategy::Rename(m));
    let mut m = no_renames();
    push_mapping(&mut m, "ToolbarChipGroupContent", "ToolbarLabelGroupContent");
    add_strategy(&mut out, "pfv6-rename-toolbar-chip-group-content", FixStrategy::Rename(m));
    let mut m = no_renames();
    push_mapping(&mut m, "MastheadBrand", "MastheadLogo");
    add_strategy(&mut out, "pfv6-rename-masthead-brand", FixStrategy::Rename(m));
    let mut m = no_renames();
    push_mapping(&mut m, "ContentHeader", "PageHeader");
    add_strategy(&mut out, "pfv6-rename-content-header", FixStrategy::Rename(m));
    let mut m = no_renames();
    push_mapping(&mut m, "InvalidObject", "MissingPage");
    add_strategy(&mut out, "pfv6-rename-invalid-object", FixStrategy::Rename(m));
    let mut m = no_renames();
    push_mapping(&mut m, "NotAuthorized", "UnauthorizedAccess");
    add_strategy(&mut out, "pfv6-rename-not-authorized", FixStrategy::Rename(m));
    let mut m = no_renames();
    push_mapping(&mut m, "TextContent", "Content");
    push_mapping(&mut m, "TextList", "Content");
    push_mapping(&mut m, "TextListItem", "Content");
    push_mapping(&mut m, "Text", "Content");
    add_strategy(&mut out, "pfv6-rename-text-to-content", FixStrategy::Rename(m));
    let mut m = no_renames();
    push_mapping(&mut m, "TextVariants", "ContentVariants");
    push_mapping(&mut m, "TextProps", "ContentProps");
    add_strategy(&mut out, "pfv6-rename-text-variants", FixStrategy::Rename(m));
    let mut m = no_renames();
    push_mapping(&mut m, "isVisited", "isVisitedLink");
    add_strategy(&mut out, "pfv6-rename-text-isvisited", FixStrategy::Rename(m));
    let mut m = no_renames();
    push_mapping(&mut m, "isPlain", "isPlainList");
    add_strategy(&mut out, "pfv6-rename-textlist-isplain", FixStrategy::Rename(m));
    let mut m = no_renames();
    push_mapping(&mut m, "FormFiledGroupHeaderTitleTextObject", "FormFieldGroupHeaderTitleTextObject");
    add_strategy(&mut out, "pfv6-rename-form-field-group-typo", FixStrategy::Rename(m));
    out
}

/// Prop renames.
fn prop_renames() -> (out: Vec<(String, FixStrategy)>)
    ensures
        strategy_models(out@) == prop_renames_table(),
{
    proof {
        reveal(prop_renames_table);
    }
    let mut out = no_strategies();
    let mut m = no_renames();
    push_mapping(&mut m, "isActive", "isClicked");
    add_strategy(&mut out, "pfv6-prop-rename-button-isactive", FixStrategy::Rename(m));
    let mut m = no_renames();
    push_mapping(&mut m, "header", "masthead");
    add_strategy(&mut out, "pfv6-prop-rename-page-header", FixStrategy::Rename(m));
    let mut m = no_renames();
    push_mapping(&mut m, "tertiaryNav", "horizontalSubnav");
    add_strategy(&mut out, "pfv6-prop-rename-page-tertiary-nav", FixStrategy::Rename(m));
    let mut m = no_renames();
    push_mapping(&mut m, "isTertiaryNavGrouped", "isHorizontalSubnavGrouped");
    add_strategy(&mut out, "pfv6-prop-rename-page-is-tertiary-grouped", FixStrategy::Rename(m));
    let mut m = no_renames();
    push_mapping(&mut m, "isTertiaryNavWidthLimited", "isHorizontalSubnavWidthLimited");
    add_strategy(&mut out, "pfv6-prop-rename-page-is-tertiary-width-limited", FixStrategy::Rename(m));
    let mut m = no_renames();
    push_mapping(&mut m, "border", "isBordered");
    add_strategy(&mut out, "pfv6-prop-rename-avatar-border", FixStrategy::Rename(m));
    let mut m = no_renames();
    push_mapping(&mut m, "labelIcon", "labelHelp");
    add_strategy(&mut out, "pfv6-prop-rename-formgroup-labelicon", FixStrategy::Rename(m));
    let mut m = no_renames();
    push_mapping(&mut m, "isSecondary", "isSubtab");
    add_strategy(&mut out, "pfv6-prop-rename-tabs-issecondary", FixStrategy::Rename(m));
    let mut m = no_renames();
    push_mapping(&mut m, "isLabelBeforeButton", "labelPosition");
    add_strategy(&mut out, "pfv6-prop-rename-checkbox-label-position", FixStrategy::Rename(m));
    let mut m = no_renames();
    push_mapping(&mut m, "innerRef", "ref");
    add_strategy(&mut out, "pfv6-prop-rename-innerref-to-ref", FixStrategy::Rename(m));
    let mut m = no_renames();
    push_mapping(&mut m, "chips", "labels");
    push_mapping(&mut m, "deleteChip", "deleteLabel");
    push_mapping(&mut m, "deleteChipGroup", "deleteLabelGroup");
    push_mapping(&mut m, "chipGroupExpandedText", "labelGroupExpandedText");
    push_mapping(&mut m, "chipGroupCollapsedText", "labelGroupCollapsedText");
    push_mapping(&mut m, "categoryName", "categoryName");
    push_mapping(&mut m, "customChipGroupContent", "customLabelGroupContent");
    push_mapping(&mut m, "chipContainerRef", "labelContainerRef");
    push_mapping(&mut m, "expandableChipContainerRef", "expandableLabelContainerRef");
    push_mapping(&mut m, "chipGroupContentRef", "labelGroupContentRef");
    add_strategy(&mut out, "pfv6-prop-rename-toolbar-chip-to-label", FixStrategy::Rename(m));
    let mut m = no_renames();
    push_mapping(&mut m, "splitButtonOptions", "splitButtonItems");
    add_strategy(&mut out, "pfv6-prop-rename-menutoggle-splitbutton", FixStrategy::Rename(m));
    let mut m = no_renames();
    push_mapping(&mut m, "ToolbarChipGroup", "ToolbarLabelGroup");
    push_mapping(&mut m, "ToolbarChip", "ToolbarLabel");
    add_strategy(&mut out, "pfv6-prop-rename-toolbar-chip-interfaces", FixStrategy::Rename(m));
    out
}

/// Changes of prop values.
fn value_changes() -> (out: Vec<(String, FixStrategy)>)
    ensures
        strategy_models(out@) == value_changes_table(),
{
    proof {
        reveal(value_changes_table);
    }
    let mut out = no_strategies();
    let mut m = no_renames();
    push_mapping(&mut m, "icon-button-group", "action-group-plain");
    push_mapping(&mut m, "button-group", "action-group");
    add_strategy(&mut out, "pfv6-prop-value-toolbar-group-variant", FixStrategy::Rename(m));
    let mut m = no_renames();
    push_mapping(&mut m, "chip-group", "label-group");
    add_strategy(&mut out, "pfv6-prop-value-toolbar-item-variant", FixStrategy::Rename(m));
    let mut m = no_renames();
    push_mapping(&mut m, "light300", "secondary");
    add_strategy(&mut out, "pfv6-prop-value-tabs-variant", FixStrategy::Rename(m));
    let mut m = no_renames();
    push_mapping(&mut m, "tertiary", "horizontal-subnav");
    add_strategy(&mut out, "pfv6-prop-value-nav-tertiary", FixStrategy::Rename(m));
    let mut m = no_renames();
    push_mapping(&mut m, "light-200", "secondary");
    add_strategy(&mut out, "pfv6-prop-value-drawer-colorvariant", FixStrategy::Rename(m));
    let mut m = no_renames();
    push_mapping(&mut m, "isOverflowLabel", "variant");
    add_strategy(&mut out, "pfv6-prop-value-label-overflow", FixStrategy::Rename(m));
    let mut m = no_renames();
    push_mapping(&mut m, "spacer", "gap");
    push_mapping(&mut m, "spaceItems", "gap");
    push_mapping(&mut m, "spacerNone", "gapNone");
    push_mapping(&mut m, "spacerSm", "gapSm");
    push_mapping(&mut m, "spacerMd", "gapMd");
    push_mapping(&mut m, "spacerLg", "gapLg");
    add_strategy(&mut out, "pfv6-prop-value-toolbar-spacer", FixStrategy::Rename(m));
    let mut m = no_renames();
    push_mapping(&mut m, "alignLeft", "alignStart");
    push_mapping(&mut m, "alignRight", "alignEnd");
    add_strategy(&mut out, "pfv6-prop-rename-toolbar-align", FixStrategy::Rename(m));
    let mut m = no_renames();
    push_mapping(&mut m, "cyan", "teal");
    push_mapping(&mut m, "gold", "yellow");
    add_strategy(&mut out, "pfv6-prop-value-banner-color", FixStrategy::Rename(m));
    let mut m = no_renames();
    push_mapping(&mut m, "variant", "color");
    add_strategy(&mut out, "pfv6-prop-value-banner-variant", FixStrategy::Rename(m));
    out
}

/// Prop removals.
fn prop_removals() -> (out: Vec<(String, FixStrategy)>)
    ensures
        strategy_models(out@) == prop_removals_table(),
{
    proof {
        reveal(prop_removals_table);
    }
    let mut out = no_strategies();
    add_strategy(&mut out, "pfv6-prop-remove-accordion-ishidden", FixStrategy::RemoveProp);
    add_strategy(&mut out, "pfv6-prop-remove-card-various", FixStrategy::RemoveProp);
    add_strategy(&mut out, "pfv6-prop-remove-datalist-plain-button", FixStrategy::RemoveProp);
    add_strategy(&mut out, "pfv6-prop-remove-drawer-nopadding", FixStrategy::RemoveProp);
    add_strategy(&mut out, "pfv6-prop-remove-expandable-isactive", FixStrategy::RemoveProp);
    add_strategy(&mut out, "pfv6-prop-remove-helpertext-props", FixStrategy::RemoveProp);
    add_strategy(&mut out, "pfv6-prop-remove-masthead-bgcolor", FixStrategy::RemoveProp);
    add_strategy(&mut out, "pfv6-prop-remove-nav-theme", FixStrategy::RemoveProp);
    add_strategy(&mut out, "pfv6-prop-remove-navitem-wrapper", FixStrategy::RemoveProp);
    add_strategy(&mut out, "pfv6-prop-remove-switch-labeloff", FixStrategy::RemoveProp);
    add_strategy(&mut out, "pfv6-prop-remove-toolbar-various", FixStrategy::RemoveProp);
    add_strategy(&mut out, "pfv6-prop-remove-navlist-aria-scroll", FixStrategy::RemoveProp);
    add_strategy(&mut out, "pfv6-prop-remove-duallist-onoptionselect", FixStrategy::RemoveProp);
    add_strategy(&mut out, "pfv6-prop-remove-accordion-toggle-isexpanded", FixStrategy::RemoveProp);
    out
}

/// CSS class and variable renames.
fn css_renames() -> (out: Vec<(String, FixStrategy)>)
    ensures
        strategy_models(out@) == css_renames_table(),
{
    proof {
        reveal(css_renames_table);
    }
    let mut out = no_strategies();
    let mut m = no_renames();
    push_mapping(&mut m, "pf-v5-", "pf-v6-");
    add_strategy(&mut out, "pfv6-css-v5-prefix", FixStrategy::Rename(m));
    let mut m = no_renames();
    push_mapping(&mut m, "--pf-v5-", "--pf-v6-");
    add_strategy(&mut out, "pfv6-css-variable-v5-prefix", FixStrategy::Rename(m));
    let mut m = no_renames();
    push_mapping(&mut m, "PaddingTop", "PaddingBlockStart");
    push_mapping(&mut m, "PaddingBottom", "PaddingBlockEnd");
    push_mapping(&mut m, "PaddingLeft", "PaddingInlineStart");
    push_mapping(&mut m, "PaddingRight", "PaddingInlineEnd");
    push_mapping(&mut m, "MarginTop", "MarginBlockStart");
    push_mapping(&mut m, "MarginBottom", "MarginBlockEnd");
    push_mapping(&mut m, "MarginLeft", "MarginInlineStart");
    push_mapping(&mut m, "MarginRight", "MarginInlineEnd");
    push_mapping(&mut m, "InsetTop", "InsetBlockStart");
    push_mapping(&mut m, "InsetBottom", "InsetBlockEnd");
    push_mapping(&mut m, "InsetLeft", "InsetInlineStart");
    push_mapping(&mut m, "InsetRight", "InsetInlineEnd");
    push_mapping(&mut m, "--Left", "--InsetInlineStart");
    push_mapping(&mut m, "--Right", "--InsetInlineEnd");
    add_strategy(&mut out, "pfv6-css-variable-logical-properties", FixStrategy::Rename(m));
    out
}

/// Structural changes that are left to the language model.
fn structural_changes() -> (out: Vec<(String, FixStrategy)>)
    ensures
        strategy_models(out@) == structural_changes_table(),
{
    proof {
        reveal(structural_changes_table);
    }
    let mut out = no_strategies();
    add_strategy(&mut out, "pfv6-dom-masthead-layout", FixStrategy::Llm);
    add_strategy(&mut out, "pfv6-deprecated-modal", FixStrategy::Llm);
    add_strategy(&mut out, "pfv6-chip-deprecated-import", FixStrategy::Llm);
    add_strategy(&mut out, "pfv6-remove-empty-state-header", FixStrategy::Llm);
    add_strategy(&mut out, "pfv6-deprecated-select-old", FixStrategy::Llm);
    add_strategy(&mut out, "pfv6-deprecated-dropdown-old", FixStrategy::Llm);
    add_strategy(&mut out, "pfv6-deprecated-wizard-old", FixStrategy::Llm);
    add_strategy(&mut out, "pfv6-behavioral-button-icon-children", FixStrategy::Llm);
    out
}

/// Changes that need manual review.
fn manual_reviews() -> (out: Vec<(String, FixStrategy)>)
    ensures
        strategy_models(out@) == manual_reviews_table(),
{
    proof {
        reveal(manual_reviews_table);
    }
    let mut out = no_strategies();
    add_strategy(&mut out, "pfv6-dom-expandable-section-toggle", FixStrategy::Manual);
    add_strategy(&mut out, "pfv6-dom-navlist-scroll-buttons", FixStrategy::Manual);
    add_strategy(&mut out, "pfv6-dom-progress-tooltip", FixStrategy::Manual);
    add_strategy(&mut out, "pfv6-dom-truncate-tooltip", FixStrategy::Manual);
    add_strategy(&mut out, "pfv6-dom-dropdown-item-tooltip", FixStrategy::Manual);
    add_strategy(&mut out, "pfv6-dom-menu-item-tooltip", FixStrategy::Manual);
    add_strategy(&mut out, "pfv6-dom-pagination-toggle", FixStrategy::Manual);
    add_strategy(&mut out, "pfv6-dom-tabs-scroll-buttons", FixStrategy::Manual);
    out
}

/// Appends strategies.
fn append_strategies(out: &mut Vec<(String, FixStrategy)>, more: Vec<(String, FixStrategy)>)
    ensures
        strategy_models(final(out)@) == strategy_models(old(out)@) + strategy_models(more@),
{
    let mut rest = more;
    out.append(&mut rest);
    assert(strategy_models(out@) =~= strategy_models(old(out)@) + strategy_models(more@));
}

/// Build the known fix strategy table.
/// Each entry maps a rule ID to the fix transform that should be applied.
pub fn build_strategy_table() -> (out: Vec<(String, FixStrategy)>)
    ensures
        strategy_models(out@) == known_strategies(),
{
    let mut out = component_renames();
    append_strategies(&mut out, prop_renames());
    append_strategies(&mut out, value_changes());
    append_strategies(&mut out, prop_removals());
    append_strategies(&mut out, css_renames());
    append_strategies(&mut out, structural_changes());
    append_strategies(&mut out, manual_reviews());
    out
}

/// The strategy that labels ask for, from index `from` on: the first that says anything.
pub open spec fn strategy_of_labels(labels: Seq<Seq<char>>, from: int) -> Option<StrategyV>
    decreases labels.len() - from,
{
    if from < 0 || from >= labels.len() {
        None
    } else if labels[from] == "change-type=prop-removal"@ {
        Some(StrategyV::RemoveProp)
    } else if labels[from] == "change-type=dom-structure"@ || labels[from]
        == "change-type=behavioral"@ || labels[from] == "change-type=accessibility"@ {
        Some(StrategyV::Manual)
    } else {
        strategy_of_labels(labels, from + 1)
    }
}

/// Try to infer a fix strategy from rule labels when no explicit mapping exists.
pub fn infer_strategy_from_labels(labels: &Vec<String>) -> (r: Option<FixStrategy>)
    ensures
        opt_strategy(r) == strategy_of_labels(texts(labels@), 0),
{
    let ghost all = texts(labels@);
    let mut i: usize = 0;
    while i < labels.len()
        invariant
            all == texts(labels@),
            i <= labels@.len(),
            strategy_of_labels(all, 0) == strategy_of_labels(all, i as int),
        decreases labels.len() - i,
    {
        let l = labels[i].as_str();
        assert(all[i as int] == l@);
        if same(l, "change-type=prop-removal") {
            return Some(FixStrategy::RemoveProp);
        }
        if same(l, "change-type=dom-structure") || same(l, "change-type=behavioral") || same(
            l,
            "change-type=accessibility",
        ) {
            return Some(FixStrategy::Manual);
        }
        i = i + 1;
    }
    None
}

/// The strategy for a rule: the one known for it, or else the one its labels ask for, or else
/// the language model.
pub open spec fn chosen_strategy(rule_id: Seq<char>, labels: Seq<Seq<char>>) -> StrategyV {
    match strategy_for(known_strategies(), rule_id) {
        Some(s) => s,
        None => match strategy_of_labels(labels, 0) {
            Some(s) => s,
            None => StrategyV::Llm,
        },
    }
}

/// The fix that removes a prop from a line: with the whole line where the prop begins it, alone
/// where it stands between others.
pub open spec fn remove_prop_from(
    i: IncidentV,
    line: u32,
    prop: Seq<char>,
    text: Seq<char>,
    rule_id: Seq<char>,
) -> Option<FixV> {
    let named = "Remove prop '"@ + prop;
    if prop.is_prefix_of(trimmed(text)) {
        Some(
            prop_fix(
                i,
                line,
                seq![
                    EditV {
                        line,
                        old_text: text,
                        new_text: Seq::empty(),
                        rule_id,
                        description: named + "' (entire line)"@,
                    },
                ],
                FixConfidence::High,
                rule_id,
                named + "'"@,
            ),
        )
    } else if !regex_valid(prop_pattern(prop)) {
        None
    } else {
        match regex_first(prop_pattern(prop), text) {
            Some(m) => Some(
                prop_fix(
                    i,
                    line,
                    seq![
                        EditV {
                            line,
                            old_text: m,
                            new_text: Seq::empty(),
                            rule_id,
                            description: named + "'"@,
                        },
                    ],
                    FixConfidence::High,
                    rule_id,
                    named + "'"@,
                ),
            ),
            None => Some(
                prop_fix(
                    i,
                    line,
                    Seq::empty(),
                    FixConfidence::Low,
                    rule_id,
                    named + "' (manual)"@,
                ),
            ),
        }
    }
}

/// The fix that removes a prop, where the incident has a line and a prop and the file has that
/// line.
pub open spec fn remove_prop_fix(
    i: IncidentV,
    source: Option<Seq<char>>,
    rule_id: Seq<char>,
) -> Option<FixV> {
    match (i.line_number, text_variable(i, "propName"@), source) {
        (Some(line), Some(prop), Some(s)) => if line_index(line) < lines_of(s).len() {
            remove_prop_from(i, line, prop, lines_of(s)[line_index(line)], rule_id)
        } else {
            None
        },
        _ => None,
    }
}

/// Plans the removal of a prop. `source` is the content of the file, where it could be read.
pub fn plan_remove_prop(rule_id: &str, incident: &Incident, source: Option<&str>) -> (r: Option<
    PlannedFix,
>)
    ensures
        opt_fix(r) == remove_prop_fix(
            incident@,
            match source {
                Some(s) => Some(s@),
                None => None,
            },
            rule_id@,
        ),
        match (r, source) {
            (Some(fix), Some(s)) => edits_stand(fix@.edits, lines_of(s@)),
            _ => true,
        },
{
    let line = match incident.line_number {
        Some(l) => l,
        None => return None,
    };
    let prop = match crate::fixers::get_text_variable(incident, "propName") {
        Some(p) => p,
        None => return None,
    };
    let source = match source {
        Some(s) => s,
        None => return None,
    };
    let file = lines(source);
    let at = index_of_line(line);
    if at >= file.len() {
        return None;
    }
    let text = file[at].as_str();
    assert(lines_of(source@)[at as int] == text@);
    proof {
        lemma_contains_itself(text@);
    }
    let inner = trim(text);
    if starts_with(inner.as_str(), prop) {
        let words = concat3("Remove prop '", prop, "' (entire line)");
        let edits = one_removal(line, text, rule_id, words);
        let description = concat3("Remove prop '", prop, "'");
        Some(make_fix(incident, line, edits, FixConfidence::High, rule_id, description))
    } else {
        let pattern = concat3(
            "\\s+",
            prop,
            "(?:=\\{[^}]*\\}|=\"[^\"]*\"|='[^']*'|=\\{.*?\\})?",
        );
        let re = match regex::Regex::new(pattern.as_str()) {
            Ok(x) => x,
            Err(_) => return None,
        };
        match find_text(&re, text) {
            Some(m) => {
                let words = concat3("Remove prop '", prop, "'");
                let edits = one_removal(line, m.as_str(), rule_id, words);
                let description = concat3("Remove prop '", prop, "'");
                Some(make_fix(incident, line, edits, FixConfidence::High, rule_id, description))
            },
            None => {
                let description = concat3("Remove prop '", prop, "' (manual)");
                Some(
                    make_fix(
                        incident,
                        line,
                        no_edits(),
                        FixConfidence::Low,
                        rule_id,
                        description,
                    ),
                )
            },
        }
    }
}

/// The plan with one more incident dealt with, by the strategy for its rule. The table holds
/// neither prefix changes nor dependency updates; such a strategy changes nothing.
pub open spec fn plan_step(
    plan: PlanV,
    rule_id: Seq<char>,
    strategy: StrategyV,
    i: IncidentV,
    path: Seq<char>,
    source: Option<Seq<char>>,
) -> PlanV {
    match strategy {
        StrategyV::Rename(ms) => with_fix(plan, path, rename_fix(i, ms, source, rule_id)),
        StrategyV::RemoveProp => with_fix(plan, path, remove_prop_fix(i, source, rule_id)),
        StrategyV::ImportPathChange(from, to) => with_fix(
            plan,
            path,
            import_path_fix(i, from, to, rule_id),
        ),
        StrategyV::Manual => with_manual(plan, rule_id, i),
        StrategyV::Llm => with_request(plan, rule_id, i, path),
        _ => plan,
    }
}

/// The plan with the first `n` incidents of a rule dealt with.
pub open spec fn plan_incidents(
    plan: PlanV,
    rule_id: Seq<char>,
    strategy: StrategyV,
    incidents: Seq<IncidentV>,
    n: int,
    root: Seq<char>,
    files: Seq<(Seq<char>, Seq<char>)>,
) -> PlanV
    decreases n,
{
    if n <= 0 || n > incidents.len() {
        plan
    } else {
        let path = path_of_uri(incidents[n - 1].file_uri, root);
        plan_step(
            plan_incidents(plan, rule_id, strategy, incidents, n - 1, root, files),
            rule_id,
            strategy,
            incidents[n - 1],
            path,
            content_of(files, path, 0),
        )
    }
}

/// The plan with the first `n` violations of a rule set dealt with.
pub open spec fn plan_violations(
    plan: PlanV,
    violations: Seq<(Seq<char>, ViolationV)>,
    n: int,
    root: Seq<char>,
    files: Seq<(Seq<char>, Seq<char>)>,
) -> PlanV
    decreases n,
{
    if n <= 0 || n > violations.len() {
        plan
    } else {
        let (rule_id, violation) = violations[n - 1];
        plan_incidents(
            plan_violations(plan, violations, n - 1, root, files),
            rule_id,
            chosen_strategy(rule_id, violation.labels),
            violation.incidents,
            violation.incidents.len() as int,
            root,
            files,
        )
    }
}

/// The plan with the first `n` rule sets dealt with.
pub open spec fn plan_rulesets(
    output: Seq<Seq<(Seq<char>, ViolationV)>>,
    n: int,
    root: Seq<char>,
    files: Seq<(Seq<char>, Seq<char>)>,
) -> PlanV
    decreases n,
{
    if n <= 0 || n > output.len() {
        PlanV { files: Seq::empty(), manual: Seq::empty(), pending: Seq::empty() }
    } else {
        plan_violations(
            plan_rulesets(output, n - 1, root, files),
            output[n - 1],
            output[n - 1].len() as int,
            root,
            files,
        )
    }
}

/// The plan for an analysis: every incident dealt with in order, then the fixes of each file by
/// falling line.
pub open spec fn planned(
    output: Seq<Seq<(Seq<char>, ViolationV)>>,
    root: Seq<char>,
    files: Seq<(Seq<char>, Seq<char>)>,
) -> PlanV {
    let plan = plan_rulesets(output, output.len() as int, root, files);
    PlanV { files: sorted_files(plan.files), ..plan }
}

fn step(
    plan: &mut FixPlan,
    rule_id: &str,
    strategy: &FixStrategy,
    incident: &Incident,
    path: &str,
    source: Option<&str>,
)
    ensures
        final(plan)@ == plan_step(
            old(plan)@,
            rule_id@,
            strategy@,
            incident@,
            path@,
            match source {
                Some(s) => Some(s@),
                None => None,
            },
        ),
{
    match strategy {
        FixStrategy::Rename(mappings) => {
            let fix = plan_rename(rule_id, incident, mappings, source);
            add_opt_fix(plan, path, fix);
        },
        FixStrategy::RemoveProp => {
            let fix = plan_remove_prop(rule_id, incident, source);
            add_opt_fix(plan, path, fix);
        },
        FixStrategy::ImportPathChange { old_path, new_path } => {
            let fix = plan_import_path_change(
                rule_id,
                incident,
                old_path.as_str(),
                new_path.as_str(),
            );
            add_opt_fix(plan, path, fix);
        },
        FixStrategy::Manual => add_manual(plan, rule_id, incident),
        FixStrategy::Llm => add_request(plan, rule_id, incident, path),
        _ => {},
    }
}

fn choose_strategy(
    table: &Vec<(String, FixStrategy)>,
    rule_id: &str,
    labels: &Vec<String>,
) -> (r: FixStrategy)
    requires
        strategy_models(table@) == known_strategies(),
    ensures
        r@ == chosen_strategy(rule_id@, texts(labels@)),
{
    match find_strategy(table, rule_id) {
        Some(s) => s.clone(),
        None => match infer_strategy_from_labels(labels) {
            Some(s) => s,
            None => FixStrategy::Llm,
        },
    }
}

fn add_violation(
    plan: &mut FixPlan,
    rule_id: &str,
    violation: &Violation,
    root: &str,
    table: &Vec<(String, FixStrategy)>,
    files: &Vec<(String, String)>,
)
    requires
        strategy_models(table@) == known_strategies(),
    ensures
        final(plan)@ == plan_incidents(
            old(plan)@,
            rule_id@,
            chosen_strategy(rule_id@, violation@.labels),
            violation@.incidents,
            violation@.incidents.len() as int,
            root@,
            content_models(files@),
        ),
{
    let strategy = choose_strategy(table, rule_id, &violation.labels);
    let ghost start = plan@;
    let ghost incidents = violation@.incidents;
    let mut i: usize = 0;
    while i < violation.incidents.len()
        invariant
            incidents == violation@.incidents,
            i <= violation.incidents@.len(),
            plan@ == plan_incidents(
                start,
                rule_id@,
                strategy@,
                incidents,
                i as int,
                root@,
                content_models(files@),
            ),
        decreases violation.incidents.len() - i,
    {
        let incident = &violation.incidents[i];
        assert(incidents[i as int] == incident@);
        let path = uri_to_path(incident.file_uri.as_str(), root);
        let source = find_content(files, path.as_str());
        step(plan, rule_id, &strategy, incident, path.as_str(), source);
        i = i + 1;
    }
}

/// Build a fix plan from analysis output, by the known strategies. `files` holds the content of
/// the files that could be read.
pub fn plan_fixes(
    output: &Vec<RuleSet>,
    project_root: &str,
    files: &Vec<(String, String)>,
) -> (r: FixPlan)
    ensures
        r@ == planned(ruleset_models(output@), project_root@, content_models(files@)),
{
    let table = build_strategy_table();
    let ghost all = ruleset_models(output@);
    let ghost contents = content_models(files@);
    let mut plan = FixPlan::default();
    assert(plan@ =~= plan_rulesets(all, 0, project_root@, contents));
    let mut i: usize = 0;
    while i < output.len()
        invariant
            all == ruleset_models(output@),
            strategy_models(table@) == known_strategies(),
            contents == content_models(files@),
            i <= output@.len(),
            plan@ == plan_rulesets(all, i as int, project_root@, contents),
        decreases output.len() - i,
    {
        let violations = &output[i].violations;
        let ghost vs = all[i as int];
        let ghost start = plan@;
        let mut k: usize = 0;
        while k < violations.len()
            invariant
                vs == violations@.map_values(|v: (String, Violation)| (v.0@, v.1@)),
                strategy_models(table@) == known_strategies(),
                contents == content_models(files@),
                k <= violations@.len(),
                plan@ == plan_violations(start, vs, k as int, project_root@, contents),
            decreases violations.len() - k,
        {
            assert(vs[k as int] == (violations@[k as int].0@, violations@[k as int].1@));
            add_violation(
                &mut plan,
                violations[k].0.as_str(),
                &violations[k].1,
                project_root,
                &table,
                files,
            );
            k = k + 1;
        }
        i = i + 1;
    }
    sort_plan(plan)
}

proof fn lemma_incidents_in_order(
    plan: PlanV,
    rule_id: Seq<char>,
    strategy: StrategyV,
    incidents: Seq<IncidentV>,
    n: int,
    root: Seq<char>,
    files: Seq<(Seq<char>, Seq<char>)>,
)
    requires
        in_path_order(plan.files),
    ensures
        in_path_order(
            plan_incidents(plan, rule_id, strategy, incidents, n, root, files).files,
        ),
    decreases n,
{
    if 0 < n <= incidents.len() {
        lemma_incidents_in_order(plan, rule_id, strategy, incidents, n - 1, root, files);
        let before = plan_incidents(plan, rule_id, strategy, incidents, n - 1, root, files).files;
        let after = plan_incidents(plan, rule_id, strategy, incidents, n, root, files).files;
        let path = path_of_uri(incidents[n - 1].file_uri, root);
        if after != before {
            let f = choose|f: FixV| after == #[trigger] insert_fix(before, path, f);
            assert(after == insert_fix(before, path, f));
            law_insert_keeps_order(before, path, f);
        }
    }
}

proof fn lemma_violations_in_order(
    plan: PlanV,
    violations: Seq<(Seq<char>, ViolationV)>,
    n: int,
    root: Seq<char>,
    files: Seq<(Seq<char>, Seq<char>)>,
)
    requires
        in_path_order(plan.files),
    ensures
        in_path_order(plan_violations(plan, violations, n, root, files).files),
    decreases n,
{
    if 0 < n <= violations.len() {
        lemma_violations_in_order(plan, violations, n - 1, root, files);
        let (rule_id, violation) = violations[n - 1];
        lemma_incidents_in_order(
            plan_violations(plan, violations, n - 1, root, files),
            rule_id,
            chosen_strategy(rule_id, violation.labels),
            violation.incidents,
            violation.incidents.len() as int,
            root,
            files,
        );
    }
}

proof fn lemma_rulesets_in_order(
    output: Seq<Seq<(Seq<char>, ViolationV)>>,
    n: int,
    root: Seq<char>,
    files: Seq<(Seq<char>, Seq<char>)>,
)
    ensures
        in_path_order(plan_rulesets(output, n, root, files).files),
    decreases n,
{
    if 0 < n <= output.len() {
        lemma_rulesets_in_order(output, n - 1, root, files);
        lemma_violations_in_order(
            plan_rulesets(output, n - 1, root, files),
            output[n - 1],
            output[n - 1].len() as int,
            root,
            files,
        );
    }
}

/// In every plan by the known strategies the files stand in the order of their paths, none twice,
/// and the fixes of each file by falling line.
pub proof fn law_plan_in_order(
    output: Seq<Seq<(Seq<char>, ViolationV)>>,
    root: Seq<char>,
    files: Seq<(Seq<char>, Seq<char>)>,
)
    ensures
        in_path_order(planned(output, root, files).files),
        forall|i: int|
            0 <= i < planned(output, root, files).files.len() ==> lines_fall(
                (#[trigger] planned(output, root, files).files[i]).1,
            ),
{
    lemma_rulesets_in_order(output, output.len() as int, root, files);
    let before = plan_rulesets(output, output.len() as int, root, files).files;
    let after = planned(output, root, files).files;
    assert forall|i: int| 0 <= i < after.len() implies lines_fall((#[trigger] after[i]).1) by {
        law_by_falling_line(before[i].1, before[i].1.len() as int);
    }
    assert forall|i: int, j: int| 0 <= i < j < after.len() implies path_rank(
        (#[trigger] after[i]).0,
        (#[trigger] after[j]).0,
    ) is Less by {
        assert(path_rank(before[i].0, before[j].0) is Less);
    }
}

} // verus!
