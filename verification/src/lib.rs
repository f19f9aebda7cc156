//! The session core of an interactive remote-shell client.
//!
//! The core decides and its caller acts: nothing here opens a socket, a
//! terminal, a file or a database. What it holds is
//!
//! - the adaptive backoff of the polling loops ([`backoff`]);
//! - the registries of remote and local sessions with their command
//!   queues, and the commands on them ([`registry`], [`ssh`],
//!   [`local_term`]);
//! - the machines that decide step by step what a session worker, a tunnel,
//!   a relay, a connect request and a login do next ([`worker`], [`relay`],
//!   [`connect`], [`login`]);
//! - the rows and figures that the panels of the application show
//!   ([`sftp`], [`local_files`], [`monitor`], [`stats`], [`local_monitor`],
//!   [`units`], [`timestamps`]);
//! - the records of the store and the rules by which they are read and
//!   written ([`models`], [`repositories`], [`db_commands`], [`security`],
//!   [`session_state`], [`ai_service`]);
//! - the text helpers under all of these ([`text`], [`scan`]).

pub mod ai_service;
pub mod backoff;
pub mod connect;
pub mod db_commands;
pub mod local_files;
pub mod local_monitor;
pub mod local_term;
pub mod login;
pub mod models;
pub mod monitor;
pub mod registry;
pub mod relay;
pub mod repositories;
pub mod scan;
pub mod security;
pub mod session;
pub mod session_state;
pub mod sftp;
pub mod ssh;
pub mod ssh_utils;
pub mod stats;
pub mod text;
pub mod timestamps;
pub mod units;
pub mod worker;
