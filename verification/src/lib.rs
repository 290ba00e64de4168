use vstd::prelude::*;

pub mod alert;
pub mod base64;
pub mod bootstrap;
pub mod browser;
pub mod client;
pub mod config;
pub mod crypto;
pub mod error;
pub mod event;
pub mod event_log;
pub mod fetch;
pub mod gemtext;
pub mod identity;
pub mod json;
pub mod keys;
pub mod known_hosts;
pub mod ledger;
pub mod misfin;
pub mod model;
pub mod node;
pub mod node_identity;
pub mod num;
pub mod observation;
pub mod parser;
pub mod peer;
pub mod paths;
pub mod session;
pub mod strmap;
pub mod sync;
pub mod tab;
pub mod text;
pub mod time;
pub mod titan;
pub mod update;
pub mod urlparse;

verus! {

} // verus!
