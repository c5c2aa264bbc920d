//! What a person reads: every page, row and status line the program prints.
pub mod browse;
pub mod catalog;
pub mod cell;
pub mod chat;
pub mod config;
pub mod draft;
pub mod fault;
pub mod figures;
pub mod fire;
pub mod help;
pub mod info;
pub mod keys;
pub mod live;
pub mod pick;
pub mod raw;
pub mod replay;
pub mod rows;
pub mod serve;
pub mod sessions;
pub mod stats;
pub mod summary;
pub mod timeline;
pub mod watch;
