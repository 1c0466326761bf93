//! A userspace network-stack bridge: in-memory packet queues feed a TCP/IP
//! protocol engine (smoltcp) through a virtual device, while a socket layer
//! lets an embedding caller open sockets, push and pull application bytes,
//! and drive protocol progress by explicit polling and pumping.

pub mod addr;
pub mod blob;
pub mod device;
pub mod engine;
pub mod error;
pub mod socket;
pub mod stack;
pub mod fifo;
