//! The decisions around a single request: which user agent it presents, and
//! whether its answer is usable.
use vstd::prelude::*;

use rand::seq::SliceRandom;

use crate::constants::{user_agent_table, user_agents};
use crate::error::{TwitchRecoverError, TwitchRecoverResult};

verus! {

/// Relies on rand::seq::SliceRandom::choose with rand::thread_rng: none for
/// an empty list, else one of its items, picked at random.
#[verifier::external_body]
fn choose_one(items: &Vec<&'static str>) -> (r: Option<&'static str>)
    ensures
        r is None <==> items@.len() == 0,
        r matches Some(s) ==> items@.contains(s),
{
    items.as_slice().choose(&mut rand::thread_rng()).copied()
}

/// A user agent picked at random from the table; `UserAgent` only where the
/// table is empty, which it never is.
pub fn get_random_header() -> (r: TwitchRecoverResult<&'static str>)
    ensures
        r matches Ok(ua) && user_agent_table().contains(ua@),
{
    let table = user_agents();
    match choose_one(&table) {
        Some(ua) => {
            proof {
                let i = choose|i: int| 0 <= i < table@.len() && table@[i] == ua;
                assert(user_agent_table()[i] == ua@);
            }
            Ok(ua)
        },
        None => Err(TwitchRecoverError::UserAgent),
    }
}

/// Whether an answer of `status` from `url` is usable: only 200 is.
pub fn check_status(status: u16, url: &str) -> (r: TwitchRecoverResult<()>)
    ensures
        status == 200 ==> r is Ok,
        status != 200 ==> (r matches Err(TwitchRecoverError::BadResponseCode(s, u)) && s == status
            && u@ == url@),
{
    if status != 200 {
        return Err(TwitchRecoverError::BadResponseCode(status, url.to_owned()));
    }
    Ok(())
}

} // verus!
