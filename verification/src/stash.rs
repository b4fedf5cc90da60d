//! The stash: configuration, the names of the durable state files inside
//! the mirror directory, and the construction of the remote sync state
//! from an enumeration of the remote store.

use vstd::prelude::*;
use vstd::string::*;
use crate::error::Error;
use crate::sdk::RemoteSdk;
use crate::state::{SyncState, key_of};

verus! {

/// Explicit configuration of one mirror: the directory that holds the
/// decompressed artifacts and the state file.
pub struct Config {
    pub symbol_dir: Option<String>,
}

impl Config {
    pub fn new(symbol_dir: Option<String>) -> (r: Config)
        ensures
            r.symbol_dir == symbol_dir,
    {
        Config { symbol_dir }
    }

    pub fn get_symbol_dir(&self) -> (r: Result<&String, Error>)
        ensures
            match r {
                Ok(d) => self.symbol_dir == Some(*d),
                Err(e) => self.symbol_dir is None && e == Error::MissingSymbolDir,
            },
    {
        match &self.symbol_dir {
            Some(d) => Ok(d),
            None => Err(Error::MissingSymbolDir),
        }
    }
}

/// The sync state that a sequence of enumerated records builds, keyed by
/// local name; when two records collide on one local name, the later one
/// wins.
pub open spec fn listing_map(s: Seq<RemoteSdk>) -> Map<Seq<char>, RemoteSdk>
    decreases s.len(),
{
    if s.len() == 0 {
        Map::empty()
    } else {
        listing_map(s.drop_last()).insert(key_of(s.last()), s.last())
    }
}

/// The local stash of memdb artifacts: the mirror directory everything is
/// written into.
pub struct MemDbStash {
    pub path: String,
}

impl MemDbStash {
    pub fn new(config: &Config) -> (r: Result<MemDbStash, Error>)
        ensures
            match r {
                Ok(stash) => config.symbol_dir matches Some(d) && stash.path@ == d@,
                Err(e) => config.symbol_dir is None && e == Error::MissingSymbolDir,
            },
    {
        match config.get_symbol_dir() {
            Ok(d) => Ok(MemDbStash { path: d.clone() }),
            Err(e) => Err(e),
        }
    }

    /// The canonical state file inside the mirror directory.
    pub fn get_sync_state_filename(&self) -> (r: String)
        ensures
            r@ == self.path@ + "/sync.state"@,
    {
        self.path.clone().concat("/sync.state")
    }

    /// The temporary file that `save` writes before atomically renaming it
    /// over the canonical state file.
    pub fn get_temp_state_filename(&self) -> (r: String)
        ensures
            r@ == self.path@ + "/sync.tempstate"@,
    {
        self.path.clone().concat("/sync.tempstate")
    }

    /// Build the remote sync state from the records the remote store
    /// enumerates, keyed by local name, later records winning collisions.
    pub fn get_remote_state(&self, listing: &Vec<RemoteSdk>) -> (r: SyncState)
        ensures
            r.wf(),
            r@ == listing_map(listing@),
    {
        let mut state = SyncState::new();
        let n = listing.len();
        let mut i: usize = 0;
        while i < n
            invariant
                i <= n,
                n == listing@.len(),
                state.wf(),
                state@ == listing_map(listing@.take(i as int)),
            decreases n - i,
        {
            state.insert(listing[i].clone());
            proof {
                assert(listing@.take(i as int + 1).drop_last() =~= listing@.take(i as int));
                assert(listing@.take(i as int + 1).last() == listing@[i as int]);
            }
            i = i + 1;
        }
        proof {
            assert(listing@.take(n as int) =~= listing@);
        }
        state
    }
}

/// The temporary state file never collides with the canonical one, for
/// any mirror directory: a crash while the temporary file is being
/// written leaves the canonical file untouched.
pub proof fn lemma_temp_filename_distinct(dir: Seq<char>)
    ensures
        dir + "/sync.state"@ != dir + "/sync.tempstate"@,
{
    reveal_strlit("/sync.state");
    reveal_strlit("/sync.tempstate");
    assert((dir + "/sync.state"@).len() == dir.len() + 11);
    assert((dir + "/sync.tempstate"@).len() == dir.len() + 15);
}

} // verus!
