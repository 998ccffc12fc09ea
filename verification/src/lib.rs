use vstd::prelude::*;

pub mod text;
pub mod time;
pub mod catalog;
pub mod player;
pub mod cache;
pub mod scan;
pub mod editor;
pub mod layout;
pub mod opus;
pub mod browser;
pub mod paths;

verus! {

} // verus!
