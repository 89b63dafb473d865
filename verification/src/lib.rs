pub mod agent;
pub mod budget;
pub mod calls;
pub mod chat;
pub mod command;
pub mod compact;
pub mod complete;
pub mod config;
pub mod dup;
pub mod engine;
pub mod file_command;
pub mod help;
pub mod index;
pub mod json;
pub mod list_command;
pub mod message;
pub mod net;
pub mod number;
pub mod outbox;
pub mod paths;
pub mod prompt;
pub mod provider_command;
pub mod refresh;
pub mod route;
pub mod screen;
pub mod search;
pub mod settings;
pub mod shown;
pub mod sorting;
pub mod split;
pub mod stall;
pub mod symbol_laws;
pub mod symbols;
pub mod table;
pub mod terms;
pub mod text;
pub mod tools;
pub mod transcript;
pub mod turn;
pub mod ui;
