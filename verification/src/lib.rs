//! A bridge that receives webhook posts and sends their texts to a Signal user, and a socket over
//! which two such bridges pass texts on to each other.
//!
//! Each long-running part of the bridge is a machine that is told of events and says what it waits
//! for; the program around the library performs the input and output.

pub mod http;
pub mod json;
pub mod mode;
pub mod path;
pub mod pipe;
pub mod rpc;
pub mod signal;
pub mod unix;
