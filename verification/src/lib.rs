//! Verified core of the murrelet livecode engine: the discrete logic that
//! decides how config strings, keys, MIDI messages, schemas and override
//! paths are interpreted.

pub mod keys;
pub mod text;
pub mod schema;
pub mod nested;
pub mod template;
pub mod overrides;
pub mod cli;
pub mod midi;
pub mod derive_rules;
pub mod expr;
pub mod assets;
pub mod livecode;
pub mod perform;
pub mod includes;
pub mod cells;
pub mod timing;
pub mod osc;
