//! The data the engine consumes from the external catalog service: games
//! with their categorical attribute ids, and the credential pair that the
//! retrieval layer authenticates with. Retrieval itself (HTTP, auth
//! refresh) lives outside the library; the engine only works on the plain
//! values below.

use vstd::prelude::*;

verus! {

/// A recommendable game: a unique id, a display name, the ids of its three
/// attribute families, an optional release timestamp (zero when absent),
/// and the catalog's pool of related games.
#[derive(Debug, PartialEq)]
pub struct Game {
    pub id: u64,
    pub name: String,
    pub genres: Vec<u64>,
    pub themes: Vec<u64>,
    pub player_perspectives: Vec<u64>,
    pub first_release_date: i64,
    pub similar_games: Vec<Game>,
}

/// The credential pair used by the external catalog's authentication
/// service. The library never reads the environment itself; the caller
/// fills this in.
#[derive(Debug, PartialEq)]
pub struct TwitchClient {
    pub id: String,
    pub secret: String,
}

/// Whether an access token refreshed `elapsed_secs` ago, valid for
/// `expires_in` seconds, is still usable.
pub fn auth_is_valid(elapsed_secs: u64, expires_in: u64) -> (r: bool)
    ensures
        r == (elapsed_secs < expires_in),
{
    elapsed_secs < expires_in
}

} // verus!
