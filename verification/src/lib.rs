//! The core of a mail client that works from a local cache.
//!
//! The cache ([`store`], [`rows`], [`paging`], [`commands`]) holds folders, messages and
//! bodies of all accounts and keeps two truths about the flags of a message: what the
//! server last reported and what the user intends while an operation is pending. The
//! state machine ([`model`], [`update`] and the modules of its steps) holds what the
//! client shows; it takes the actions of the user and the answers of cache and server as
//! events and hands out the work to be done outside as effects. The functions are
//! verified against their contracts; the few that call into another library say in
//! their comments what is taken on trust. The laws that relate several functions are
//! proved in [`store_laws`], [`row_laws`], [`flag_laws`], [`move_laws`] and
//! [`table_laws`].

pub mod accounts;
pub mod actions;
pub mod body;
pub mod commands;
pub mod compose;
pub mod config;
pub mod dnd;
pub mod effects;
pub mod flag_laws;
pub mod flags;
pub mod forms;
pub mod mime;
pub mod model;
pub mod models;
pub mod move_laws;
pub mod navigation;
pub mod order;
pub mod paging;
pub mod reconcile;
pub mod row_laws;
pub mod rows;
pub mod search;
pub mod seqs;
pub mod sorting;
pub mod store;
pub mod sync;
pub mod sync_exec;
pub mod sync_steps;
pub mod store_folders;
pub mod store_laws;
pub mod store_query;
pub mod store_resync;
pub mod table_laws;
pub mod text;
pub mod update;
pub mod uri_list;
pub mod watch;
