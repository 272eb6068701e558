use vstd::prelude::*;

pub mod text;
pub mod types;
pub mod computer_use;
pub mod web;
pub mod vision;
pub mod json;
pub mod tools;
pub mod tui;
pub mod chat;
pub mod settings;
pub mod ollama;
pub mod agent;
pub mod memory;
pub mod computer;
pub mod control;
pub mod render;
pub mod hardware;
pub mod design;
pub mod recommend;
pub mod markdown;
pub mod progress;
pub mod history;
pub mod bench;

verus! {
} // verus!
