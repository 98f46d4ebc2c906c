//! The miner's settings.

use vstd::prelude::*;

verus! {

/// What a miner was told on the command line.
pub struct Miner {
    /// The file that holds the signing key.
    pub keypair_filepath: Option<String>,
    /// The price of a compute unit in micro-lamports, and the fixed tip in lamports.
    pub priority_fee: u64,
    /// The most to tip when the tip follows the market; zero keeps the tip fixed.
    pub max_adaptive_tip: u64,
}

impl Miner {
    /// A miner with these settings.
    pub fn new(
        priority_fee: u64,
        max_adaptive_tip: u64,
        keypair_filepath: Option<String>,
    ) -> (miner: Miner)
        ensures
            miner.priority_fee == priority_fee,
            miner.max_adaptive_tip == max_adaptive_tip,
            miner.keypair_filepath == keypair_filepath,
    {
        Miner { keypair_filepath, priority_fee, max_adaptive_tip }
    }

    /// The file to read the signing key from, if one was given.
    pub fn signer(&self) -> (path: Option<&String>)
        ensures
            path is Some <==> self.keypair_filepath is Some,
            path matches Some(p) ==> *p == self.keypair_filepath->0,
    {
        match &self.keypair_filepath {
            Some(path) => Some(path),
            None => None,
        }
    }
}

} // verus!
