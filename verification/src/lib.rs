//! Verified core logic of the LingChat companion app: script validation,
//! the event schema, tool permissions and settings, and the pure helpers of
//! the AI tools and TTS adapters.
use vstd::prelude::*;

pub mod text;
pub mod json;
pub mod strset;
pub mod strmap;
pub mod diag;
pub mod report;
pub mod validate;
pub mod schema;
pub mod graph;
pub mod event;
pub mod chapter;
pub mod script;
pub mod permissions;
pub mod settings;
pub mod types;
pub mod tts_local;
pub mod notes;
pub mod tool_text;
pub mod adapters;
pub mod tools;
pub mod translator;
pub mod archive;
pub mod editor;
pub mod scene;
pub mod characters;
pub mod command;
pub mod switch;
pub mod search;
pub mod executor;
pub mod registry;
pub mod tts_provider;
pub mod background;
pub mod roles;
pub mod channels;
pub mod fonts;
pub mod locale;
pub mod import_flow;
pub mod definitions;
pub mod listing;
pub mod workshop;
pub mod media;

verus! {

} // verus!
