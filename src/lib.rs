//! Thermal model of a building as a lumped resistor-capacitor network.
//!
//! A declarative building description (`as_loaded`) is validated and resolved
//! into a [`model::Model`], which is then compiled into an [`rc_network::RcNetwork`]:
//! a graph whose nodes carry heat capacity and whose edges carry thermal conductance.
//! Physical quantities are fixed-point integers (see [`units`]).
//!
//! The laws that hold of every model and network are proved in [`laws`]; the
//! outside graph and multimap the network is stored in are described in [`graph`].

pub mod as_loaded;
pub mod dot;
pub mod error;
pub mod influxdb;
pub mod graph;
pub mod laws;
pub mod load;
pub mod lookup;
pub mod model;
pub mod rc_network;
pub mod units;
