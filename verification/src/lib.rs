//! The decision core of an embeddable agent: provider choice, context window
//! upkeep, approval and permission rules, conversation memory, turn limits and
//! the hand-over of prompts and tool calls. Everything here works on plain
//! values; pointers, threads and the network stay with the embedding program.

pub mod agent;
pub mod approval;
pub mod chat;
pub mod context;
pub mod dev_paths;
pub mod doubles;
pub mod json;
pub mod memory;
pub mod provider;
pub mod scope;
pub mod stop;
pub mod subagent;
pub mod text;
pub mod tool;
pub mod turn;
pub mod whisper_engine;
