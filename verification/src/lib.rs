//! Verified core of the hier tiling compositor: the window layout model
//! and the decisions taken on it.

pub mod action;
pub mod capture;
pub mod clock;
pub mod command;
pub mod control;
pub mod decor;
pub mod host;
pub mod keys;
pub mod layout;
pub mod layout_laws;
pub mod nesting;
pub mod session;
pub mod session_laws;
pub mod text;
