//! Orchestration core of a multi-agent assistant platform.
//!
//! A user states an objective; the core decomposes it into a tree of tasks,
//! assigns each to an agent, drives each agent through a conversational loop
//! with an LLM backend, dispatches tool calls into sandboxed containers, and
//! reports state changes through events.  This crate holds the verified
//! logic: the streaming chat-completion assembly, the task-tree and ancestry
//! rules, the planner and executor decision rules, and the code-block
//! extractor.  I/O (database, HTTP, containers) stays outside and hands the
//! library plain values.

pub mod abilities;
pub mod agents;
pub mod browser;
pub mod chats;
pub mod codeblocks;
pub mod completion;
pub mod executor;
pub mod jsonclean;
pub mod messages;
pub mod models;
pub mod openai;
pub mod pagination;
pub mod planner;
pub mod sandbox;
pub mod settings;
pub mod sse;
pub mod strutil;
pub mod task_results;
pub mod tasks;
pub mod webtools;
