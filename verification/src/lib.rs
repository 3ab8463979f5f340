//! A UDP full-NAT load balancer: the packet decisions of its XDP data
//! plane, the consistent-hash ring, connection tracking and configuration
//! parsing, each with a contract proved by Verus.

pub mod common;
pub mod hash;
pub mod checksum;
pub mod packet;
pub mod dataplane;
pub mod pipeline;
pub mod config;
pub mod ring;
pub mod conntrack;
pub mod health;
pub mod laws;
