//! Message types, wire encodings and node decisions of a small robot
//! control network: a keyboard controller, a PC relay, a control node, a
//! sensor node, and the link to the board that drives the servos.

pub mod command;
pub mod keys;
pub mod link;
pub mod node;
