//! The verified logic of five MCP servers: Premiere Pro timecode
//! arithmetic, the After Effects helpers and bridge queue, FRED and CFPB
//! request building and result shaping, and SEC EDGAR lookups.
use vstd::prelude::*;

pub mod text;
pub mod timecode;
pub mod premiere;
pub mod after_effects;
pub mod fred;
pub mod cfpb;
pub mod sec_edgar;

verus! {
} // verus!
