//! Trading-terminal core: market-data buffering, exchange request
//! construction and signing, order parameter mapping, reconnection
//! backoff and event decoding, each with a machine-checked contract.

pub mod ring_buffer;
pub mod backoff;
pub mod text;
pub mod signing;
pub mod query;
pub mod market;
pub mod errors;
pub mod rest;
pub mod symbols;
pub mod orders;
pub mod broker;
pub mod aggregation;
pub mod pipeline;
pub mod indicators;
pub mod gpu;
pub mod chart;
pub mod json;
pub mod fields;
pub mod userdata;
pub mod feed;
pub mod link;
pub mod rest_types;
pub mod keystore;
