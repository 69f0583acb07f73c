//! lattice: structured tasks built from schema-driven templates.
//!
//! The library holds the logic of the lattice orchestrator: the domain
//! entities, field validation, the text formats the editors read and
//! write (code blocks, Gherkin, sequence diagrams, OpenAPI), caret
//! editing, path layout and agent manifests.

pub mod agents;
pub mod cache;
pub mod code_blocks;
pub mod cursor;
pub mod derived;
pub mod dispatch;
pub mod entities;
pub mod fields;
pub mod filters;
pub mod form;
pub mod gherkin;
pub mod ids;
pub mod keybind;
pub mod layout;
pub mod model;
pub mod num;
pub mod openapi;
pub mod openapi_editor;
pub mod palette;
pub mod paths;
pub mod preview;
pub mod prompt;
pub mod runner;
pub mod sequence;
pub mod submit;
pub mod text;
pub mod time;
pub mod ui;
pub mod utf8;
pub mod validation;
pub mod watch;

use vstd::prelude::*;

verus! {

/// The library version string.
pub fn version() -> (r: &'static str)
    ensures
        r@ == "0.1.0"@,
        r@.len() > 0,
{
    let v = "0.1.0";
    proof {
        reveal_strlit("0.1.0");
    }
    v
}

} // verus!
