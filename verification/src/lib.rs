//! Verified core of a network anomaly detection system: packets are grouped into symmetric
//! flows, each flow keeps a sliding window with rolling aggregates, a flow table of fixed
//! capacity forgets the least recently used flow, and a mitigation layer decides which
//! clients are let through.
#![allow(unused_imports)]

pub mod addr;
pub mod blocklist;
pub mod capture;
pub mod config;
pub mod dashboard;
pub mod flow;
pub mod meter;
pub mod mitigation;
pub mod packet;
pub mod router;
pub mod store;
pub mod table;
pub mod text;
pub mod time;
pub mod training;
pub mod window;
