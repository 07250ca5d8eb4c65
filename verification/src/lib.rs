//! Rewriting of podcast feeds so that audio downloads pass through a
//! forwarding endpoint, and classification of the clients that ask for them.

pub mod client;
pub mod escape;
pub mod event;
pub mod forward;
pub mod link_laws;
pub mod markup;
pub mod openpodcast;
pub mod posthog;
pub mod rss;
pub mod text;
pub mod user_agents;
pub mod weburl;
