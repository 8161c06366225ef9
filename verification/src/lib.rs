//! The core of a small Slack log client: who is asked for what, what is remembered between two
//! answers, when a connection is given up and what is shown for each event.

pub mod account;
pub mod address;
pub mod clock;
pub mod error;
pub mod form;
pub mod laws;
pub mod model;
pub mod promises;
pub mod response;
pub mod runs;
pub mod state;
pub mod streams;
pub mod ui;
