//! Installing and launching 7th Heaven for Final Fantasy VII on Linux through Steam and
//! Proton: the decisions and text transformations, each with its specification.
use vstd::prelude::*;

pub mod command;
pub mod config_handler;
pub mod dialog;
pub mod installer;
pub mod library_scan;
pub mod pattern;
pub mod proton;
pub mod resource_handler;
pub mod steam_helper;
pub mod steamhelper;
pub mod text;

verus! {

broadcast use vstd::string::group_string_axioms;

} // verus!
