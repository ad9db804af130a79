//! The parts of the server that sit between the editor and the network.
pub mod proxy;
