//! A Minecraft server Prometheus multi-target exporter.
//!
//! This library is the part of mcexport that decides and computes. It uses the
//! [Multi-Target Exporter Pattern](https://prometheus.io/docs/guides/multi-target-exporter/) to ping and process each
//! target individually. Different targets can be pinged with different protocol versions and varying timeouts
//! independent of each other. Therefore, errors within one ping operation cannot affect other targets and their
//! response and state can be returned directly.
//!
//! Nothing in here touches the network. Whatever takes several rounds of input and output, such as resolving an address
//! or pinging a server, is a function from how far the work has come to what is to be done next. The application around
//! this library does that and reports back.
//!
//! The protocol implementation is compatible with all Minecraft: Java Edition servers from version 1.7 up. It is
//! expected that the servers strictly follow the protocol and appropriately return the expected values
//! at a given time. If the servers fail to do so, the probe requests are marked as unsuccessful.

pub mod config;
pub mod number;
pub mod protocol;
pub mod probe;
pub mod ping;
pub mod timeout;
pub mod metrics;
pub mod exporter;
