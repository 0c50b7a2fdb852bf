//! Editing logic of the rawdaw desktop DAW: grid snapping, sorted event
//! lists, drag clamping, the piano roll, drum grid and arrangement lane
//! models, the editors' dropdown encodings and menus, and the edits each
//! inspector field commits.

use vstd::prelude::*;

pub mod time;
pub mod grid;
pub mod text;
pub mod choice;
pub mod drum;
pub mod pitch;
pub mod chord;
pub mod pitched;
pub mod names;
pub mod keys;
pub mod matrix;
pub mod piano_roll;
pub mod arrangement;
pub mod edits;
pub mod tracks;
pub mod library;
pub mod activation;
pub mod step_grid;
pub mod variants;
pub mod menus;
pub mod chord_edits;
pub mod inspector;
pub mod picker;

verus! {
} // verus!
