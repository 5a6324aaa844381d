use vstd::prelude::*;

pub mod application;
pub mod automation;
pub mod champ_select;
pub mod client_cache;
pub mod clock;
pub mod commands;
pub mod constants;
pub mod decimal;
pub mod domain;
pub mod errors;
pub mod keyed_cache;
pub mod league_client;
pub mod league_events;
pub mod lockfile;
pub mod matches;
pub mod order;
pub mod performance;
pub mod postmatch;
pub mod ranked;
pub mod ranked_data;
pub mod reader;
pub mod roster_cache;
pub mod storage;
pub mod text;
pub mod validation;

verus! {

/// Name of the layer that talks to the local League Client.
pub fn layer_name() -> (name: &'static str)
    ensures
        name@ == "adapters"@,
{
    "adapters"
}

} // verus!
