//! Template transforms: variable collection, scope tracking, event names and
//! the small rules of element and asset resolution.
pub mod collect_vars;
pub mod v_model;
pub mod whitespace;
pub mod conditionals;
pub mod props;
pub mod v_for;
pub mod v_slot;
pub mod element;
pub mod build_props;
pub mod v_on;
pub mod context;
pub mod dom_v_model;
pub mod dom_v_on;
pub mod expr_transform;
pub mod scope_tracking;
pub mod patch_flags;
pub mod providers;
pub mod resolutions;
pub mod asset_urls;
pub mod utils;
pub mod script_expr;
pub mod element_transform;
