//! The configuration a node runs Raft with.
use vstd::prelude::*;
use openraft::{Config, ConfigError};

verus! {

#[verifier::external_type_specification]
#[verifier::external_body]
pub struct ExConfig(Config);

#[verifier::external_type_specification]
#[verifier::external_body]
pub struct ExConfigError(ConfigError);

/// How often the leader sends heartbeats, in milliseconds.
pub const HEARTBEAT_INTERVAL: u64 = 500;

/// The shortest election timeout, in milliseconds.
pub const ELECTION_TIMEOUT_MIN: u64 = 1500;

/// The longest election timeout, in milliseconds.
pub const ELECTION_TIMEOUT_MAX: u64 = 3000;

/// The configuration that `Config::default()` gives once its heartbeat interval and election
/// timeouts are set to the values given.
pub uninterp spec fn configured(
    heartbeat_interval: u64,
    election_timeout_min: u64,
    election_timeout_max: u64,
) -> Config;

/// Builds `openraft::Config` with the given heartbeat interval and election timeouts, every other
/// setting at the value of `Config::default()`, and checks it with `Config::validate`.
/// The contract claims that the configuration returned is that configuration (named
/// [`configured`]: `Config::default()` takes no input, so it depends on the three values alone),
/// and that the check passes exactly when the shortest election timeout lies
/// between the heartbeat interval and the longest election timeout: `validate` also refuses a
/// zero `max_payload_entries`, which `Config::default()` sets to 300. What the error holds is not
/// stated.
#[verifier::external_body]
fn validated_config(
    heartbeat_interval: u64,
    election_timeout_min: u64,
    election_timeout_max: u64,
) -> (r: Result<Config, ConfigError>)
    ensures
        r is Ok <==> (heartbeat_interval < election_timeout_min && election_timeout_min
            < election_timeout_max),
        r matches Ok(c) ==> c == configured(
            heartbeat_interval,
            election_timeout_min,
            election_timeout_max,
        ),
{
    Config { heartbeat_interval, election_timeout_min, election_timeout_max, ..Default::default() }.validate()
}

/// The Raft configuration of a node: heartbeats every [`HEARTBEAT_INTERVAL`] ms, elections
/// after [`ELECTION_TIMEOUT_MIN`] to [`ELECTION_TIMEOUT_MAX`] ms; it passes validation.
pub fn node_config() -> (r: Result<Config, ConfigError>)
    ensures
        r matches Ok(c) && c == configured(500, 1500, 3000),
{
    validated_config(HEARTBEAT_INTERVAL, ELECTION_TIMEOUT_MIN, ELECTION_TIMEOUT_MAX)
}

} // verus!
