//! Inventory of installed applications and their resolution against a target
//! Linux distribution.

use vstd::prelude::*;

pub mod config;
pub mod desktop;
pub mod flow;
pub mod laws;
pub mod order;
pub mod osrelease;
pub mod resolver;
pub mod rules;
pub mod scan_laws;
pub mod scanner;
pub mod selection;
pub mod text;
pub mod versions;

verus! {
} // verus!
