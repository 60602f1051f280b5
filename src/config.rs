//! Settings of a running service.
use vstd::prelude::*;

verus! {

/// Tracker access, the webhook secret, the model, and the listening port.
#[derive(Clone, Debug)]
pub struct Config {
    pub hevy_api_key: String,
    pub hevy_api_url: String,
    pub webhook_token: String,
    pub port: String,
    pub gemini_api_key: String,
    pub gemini_model: String,
}

} // verus!
