//! Core of an MQTT v5 broker: wire codec for control packets, incremental
//! frame reader, per-client session automaton, and a topic trie that routes
//! PUBLISH messages to subscribers.
pub mod broker;
pub mod definitions;
pub mod frame;
pub mod packet;
pub mod reader;
pub mod text;
pub mod topic;
pub mod varint;
