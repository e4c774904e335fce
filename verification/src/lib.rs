use vstd::prelude::*;

pub mod text;
pub mod updater;
pub mod machine;
pub mod http;
pub mod dashboard;
pub mod config;
pub mod watcher;
pub mod poller;
pub mod opcua;
pub mod sensor;
pub mod mock;

verus! {

} // verus!
