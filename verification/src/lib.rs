//! Static analysis of front-end projects.

pub mod apply;
pub mod apply_laws;
pub mod call_laws;
pub mod capabilities;
pub mod child_laws;
pub mod classname_laws;
pub mod classnames;
pub mod code_snip;
pub mod component_laws;
pub mod css_var_laws;
pub mod css_vars;
pub mod dependency;
pub mod dependency_laws;
pub mod edit_laws;
pub mod element_laws;
pub mod engine;
pub mod estree;
pub mod evaluate;
pub mod evaluation_laws;
pub mod exports;
pub mod file_laws;
pub mod file_uri;
pub mod fix;
pub mod fix_engine;
pub mod fixers;
pub mod function_calls;
pub mod goose_client;
pub mod imports;
pub mod incident;
pub mod index_laws;
pub mod index_lookup;
pub mod json;
pub mod jsx_context;
pub mod jsx_element;
pub mod jsx;
pub mod jsx_children;
pub mod jsx_laws;
pub mod known_plan_laws;
pub mod local_laws;
pub mod locals;
pub mod lookup;
pub mod node_laws;
pub mod object_laws;
pub mod object_props;
pub mod parent_laws;
pub mod paths;
pub mod pattern;
pub mod plan_laws;
pub mod preview_laws;
pub mod printed_tree;
pub mod project_index;
pub mod prop_laws;
pub mod property_values;
pub mod query_eval;
pub mod query_laws;
pub mod query_names;
pub mod query_parents;
pub mod reference_laws;
pub mod removal_laws;
pub mod rename_laws;
pub mod render_laws;
pub mod report;
pub mod rules;
pub mod scan;
pub mod scanner;
pub mod scope;
pub mod serve;
pub mod service;
pub mod session_laws;
pub mod spans;
pub mod strategy_laws;
pub mod text;
pub mod type_names;
pub mod value_laws;
pub mod version_laws;
