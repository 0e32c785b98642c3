//! What the agent exchanges with the distribution platform.

pub mod client;
