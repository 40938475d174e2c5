//! The settings of the house.

use vstd::prelude::*;

verus! {

/// What the house is configured with.
#[derive(Debug, Clone)]
pub struct Config {
    /// Where the Ark server is reached.
    pub ark_server_url: String,
    /// Where the chain explorer is reached.
    pub esplora_url: String,
    /// The file that holds the master seed, 32 bytes in hexadecimal.
    pub master_seed_file: String,
    /// How the database is reached.
    pub database: String,
    /// The seconds between two checks for transactions.
    pub transaction_check_interval_seconds: u64,
    /// The most that a single bet can win, in satoshis.
    pub max_payout_sats: u64,
    /// The seconds between two sweeps for missed deposits.
    pub vtxo_sync_interval_seconds: u64,
}

/// The seconds between two checks for transactions, unless configured.
pub fn default_transaction_check_interval() -> (seconds: u64)
    ensures
        seconds == 10,
{
    10
}

/// The most that a single bet can win, unless configured.
pub fn default_max_payout_sats() -> (sats: u64)
    ensures
        sats == 100_000,
{
    100_000
}

/// The seconds between two sweeps for missed deposits, unless configured.
pub fn default_vtxo_sync_interval() -> (seconds: u64)
    ensures
        seconds == 300,
{
    300
}

impl Config {
    /// The settings with everything that has a default left at it.
    pub fn with_defaults(
        ark_server_url: String,
        esplora_url: String,
        master_seed_file: String,
        database: String,
    ) -> (config: Config)
        ensures
            config.ark_server_url == ark_server_url,
            config.esplora_url == esplora_url,
            config.master_seed_file == master_seed_file,
            config.database == database,
            config.transaction_check_interval_seconds == 10,
            config.max_payout_sats == 100_000,
            config.vtxo_sync_interval_seconds == 300,
    {
        Config {
            ark_server_url,
            esplora_url,
            master_seed_file,
            database,
            transaction_check_interval_seconds: default_transaction_check_interval(),
            max_payout_sats: default_max_payout_sats(),
            vtxo_sync_interval_seconds: default_vtxo_sync_interval(),
        }
    }
}

} // verus!
