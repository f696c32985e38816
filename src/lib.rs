//! A crawl-and-extract engine: a bounded crawl scheduler, selector-based
//! extraction, parsing of generated structured output, a publish/subscribe hub for
//! session events, and the session state machine that ties them together.

pub mod models;
pub mod extract;
pub mod scheduler;
pub mod channel;
pub mod ai;
pub mod session;
