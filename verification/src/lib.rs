//! Aggregates a developer's recent activity: git commits across many local
//! repositories plus free-text notes, merged into one chronological timeline.

pub mod ai;
pub mod config;
pub mod db;
pub mod git_ops;
pub mod report;
pub mod scanner;
pub mod settings;
pub mod textutil;
pub mod timeline;
