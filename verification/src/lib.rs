//! A gateway that speaks the MongoDB wire protocol over a relational
//! backend.
//!
//! The library holds what the gateway decides: the binary form of
//! documents, the framing of messages, the commands and what they answer,
//! filters, updates and pipelines, the statements for the backend, and the
//! state machines that guard the serving loop. Sockets, the clock and the
//! backend itself are outside: whoever runs the server hands in bytes and
//! times and carries out what comes back.
//!
//! Every function states what it returns in a contract that the verifier
//! proves. Doubles are held as their IEEE-754 bits.

pub mod aggregation;
pub mod aggregation_pipeline;
pub mod authentication;
pub mod bson;
pub mod chars;
pub mod circuit_breaker;
pub mod codec;
pub mod codec_laws;
pub mod collection_laws;
pub mod command_laws;
pub mod command_processor;
pub mod config;
pub mod connection;
pub mod connection_pool;
pub mod cursor;
pub mod error;
pub mod filter;
pub mod geospatial;
pub mod grouping;
pub mod health;
pub mod index_commands;
pub mod indexing;
pub mod lifting;
pub mod logger;
pub mod mongodb_commands;
pub mod monitoring;
pub mod numeric;
pub mod pipeline_sql;
pub mod process_manager;
pub mod production_config;
pub mod rate_limiter;
pub mod replication;
pub mod response_laws;
pub mod security;
pub mod shutdown;
pub mod sort_laws;
pub mod sql;
pub mod ssl;
pub mod stages;
pub mod statements;
pub mod storage;
pub mod storage_laws;
pub mod store;
pub mod system;
pub mod text;
pub mod transactions;
pub mod update;
pub mod update_laws;
pub mod wire_protocol;
pub mod writes;
