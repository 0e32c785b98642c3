//! Helpers shared by the components: text handling, process discovery,
//! host identification and archive expansion.

pub mod net;
pub mod os;
pub mod process;
pub mod text;
pub mod zip;
