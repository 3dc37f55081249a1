//! The OpenType font format: primitive field types, offset links, the table
//! directory and a selection of tables.
pub mod values;
pub mod links;
pub mod stat;
pub mod stat_view;
pub mod directory;
pub mod metrics;
pub mod glyf;
pub mod cmap;
pub mod layout;
pub mod common;
pub mod context;
pub mod gsub;
pub mod gpos_values;
pub mod gpos;
pub mod gpos_table;
pub mod gdef;
pub mod base;
pub mod gvar;
pub mod name;
pub mod os2;
pub mod fvar;
pub mod kern;
pub mod tables;
