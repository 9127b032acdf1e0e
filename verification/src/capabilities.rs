//! Capability definitions for the frontend provider.
//!
//! Each capability maps to a distinct analysis domain:
//! - `referenced`: symbol search in JS/TS/JSX/TSX (imports, JSX usage, props, and so on)
//! - `cssclass`: CSS class name search across CSS and JS/TS files
//! - `cssvar`: CSS custom property search
//! - `dependency`: package.json dependency checking

use crate::text::same;
use vstd::prelude::*;

verus! {

/// All capabilities this provider supports.
pub const CAPABILITIES: [&'static str; 4] = ["referenced", "cssclass", "cssvar", "dependency"];

/// The location within source code to search for references.
#[derive(Debug, Clone, Copy, PartialEq, Eq, Structural)]
pub enum ReferenceLocation {
    /// Match import declarations: `import { X } from '...'`
    Import,
    /// Match JSX component usage: `<Button ...>`
    JsxComponent,
    /// Match JSX prop usage: `<Button isActive={...}>`
    JsxProp,
    /// Match function and hook calls: `useButton(...)`
    FunctionCall,
    /// Match type references: `const x: ButtonProps = ...`
    TypeReference,
}

/// Condition for the `referenced` capability.
#[derive(Debug)]
pub struct ReferencedCondition {
    /// Pattern to search for, a regular expression.
    pub pattern: String,
    /// Location filter. If absent, all locations are searched.
    pub location: Option<ReferenceLocation>,
    /// Only props on components whose name matches.
    pub component: Option<String>,
    /// Only components that are direct children of a component whose name matches.
    pub parent: Option<String>,
    /// Only components that are no direct children of a component whose name matches.
    pub not_parent: Option<String>,
    /// Only components whose parent was imported from a module whose path matches.
    pub parent_from: Option<String>,
    /// Only components with a direct child whose name matches.
    pub child: Option<String>,
    /// Only components with a direct child whose name does not match.
    pub not_child: Option<String>,
    /// Only components without a direct child whose name matches.
    pub requires_child: Option<String>,
    /// Only props whose value matches.
    pub value: Option<String>,
    /// Only symbols imported from a module whose path matches.
    pub from: Option<String>,
    /// Only files whose path matches.
    pub file_pattern: Option<String>,
}

/// Condition for the `cssclass` capability.
#[derive(Debug)]
pub struct CssClassCondition {
    /// CSS class name pattern, a regular expression.
    pub pattern: String,
    /// Only files whose path matches.
    pub file_pattern: Option<String>,
}

/// Condition for the `cssvar` capability.
#[derive(Debug)]
pub struct CssVarCondition {
    /// CSS variable pattern, a regular expression, such as `--pf-v5-.*`.
    pub pattern: String,
    /// Only files whose path matches.
    pub file_pattern: Option<String>,
}

/// Condition for the `dependency` capability.
#[derive(Debug)]
pub struct DependencyCondition {
    /// Dependency name, matched exactly.
    pub name: Option<String>,
    /// Regular expression for the dependency name.
    pub nameregex: Option<String>,
    /// Match versions up to this one.
    pub upperbound: Option<String>,
    /// Match versions from this one on.
    pub lowerbound: Option<String>,
}

/// A condition of a rule.
#[derive(Debug)]
pub enum ProviderCondition {
    Referenced(ReferencedCondition),
    CssClass(CssClassCondition),
    CssVar(CssVarCondition),
    Dependency(DependencyCondition),
}

/// What a capability analyses.
#[derive(Debug, Clone, Copy, PartialEq, Eq, Structural)]
pub enum Capability {
    Referenced,
    CssClass,
    CssVar,
    Dependency,
}

/// The capability of the given name.
pub open spec fn capability_named(name: Seq<char>) -> Option<Capability> {
    if name == "referenced"@ {
        Some(Capability::Referenced)
    } else if name == "cssclass"@ {
        Some(Capability::CssClass)
    } else if name == "cssvar"@ {
        Some(Capability::CssVar)
    } else if name == "dependency"@ {
        Some(Capability::Dependency)
    } else {
        None
    }
}

impl Capability {
    /// The capability of the given name.
    pub fn from_name(name: &str) -> (r: Option<Capability>)
        ensures
            r == capability_named(name@),
    {
        if same(name, "referenced") {
            Some(Capability::Referenced)
        } else if same(name, "cssclass") {
            Some(Capability::CssClass)
        } else if same(name, "cssvar") {
            Some(Capability::CssVar)
        } else if same(name, "dependency") {
            Some(Capability::Dependency)
        } else {
            None
        }
    }
}

} // verus!
