//! Core of an autonomous knowledge-acquisition engine: a bounded same-host
//! breadth-first web crawler, a topic researcher, a content-addressed
//! knowledge store, a progress ledger scoring acquired content against
//! learning tracks, and the cycle-scheduling state machine that drives them.

pub mod api;
pub mod brain;
pub mod chat;
pub mod codecs;
pub mod crawl;
pub mod cycle;
pub mod html;
pub mod ledger;
pub mod plugins;
pub mod rank;
pub mod research;
pub mod state;
pub mod status;
pub mod store;
pub mod text;
pub mod url;

