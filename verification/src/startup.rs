//! What the proxy decides when it starts.
use crate::text;
use crate::text::push_decimal;
use vstd::prelude::*;

verus! {

/// How often the address of the adapter is asked for.
pub const MAC_LOOKUP_ATTEMPTS: u32 = 5;

/// The seconds between two such attempts.
pub const MAC_LOOKUP_PAUSE: u64 = 2;

/// What to do after an attempt.
#[derive(Debug, Clone, Copy, PartialEq, Eq)]
pub enum LookupStep {
    /// Go on with this address.
    Found([u8; 6]),
    /// Ask again after so many seconds: the Bluetooth daemon may still be
    /// starting up.
    RetryAfter(u64),
    /// Give up.
    GiveUp,
}

/// The step after attempt number `attempt`, counted from one, which found
/// `found`.
pub open spec fn lookup_step(attempt: u32, found: Option<[u8; 6]>) -> LookupStep {
    match found {
        Some(mac) => LookupStep::Found(mac),
        None => if attempt < MAC_LOOKUP_ATTEMPTS {
            LookupStep::RetryAfter(MAC_LOOKUP_PAUSE)
        } else {
            LookupStep::GiveUp
        },
    }
}

/// Decides what to do after attempt number `attempt`, counted from one.
pub fn after_lookup(attempt: u32, found: Option<[u8; 6]>) -> (step: LookupStep)
    ensures
        step == lookup_step(attempt, found),
{
    match found {
        Some(mac) => LookupStep::Found(mac),
        None => if attempt < MAC_LOOKUP_ATTEMPTS {
            LookupStep::RetryAfter(MAC_LOOKUP_PAUSE)
        } else {
            LookupStep::GiveUp
        },
    }
}

/// The path of the D-Bus object of the adapter with the number `adapter_index`.
pub open spec fn adapter_object(adapter_index: nat) -> Seq<char> {
    "/org/bluez/hci"@ + text::decimal(adapter_index)
}

/// The D-Bus object of the adapter with the number `adapter_index`.
pub fn adapter_path(adapter_index: u16) -> (path: String)
    ensures
        path@ == adapter_object(adapter_index as nat),
{
    let mut path = "/org/bluez/hci".to_owned();
    push_decimal(&mut path, adapter_index as u64);
    path
}

/// Asking for the address comes to an end: an attempt is followed by another one
/// exactly where it found nothing and was not the last.
pub proof fn law_lookup_ends(attempt: u32, found: Option<[u8; 6]>)
    ensures
        lookup_step(attempt, found) is RetryAfter <==> found is None && attempt
            < MAC_LOOKUP_ATTEMPTS,
        lookup_step(attempt, found) is Found <==> found is Some,
{
}

/// How often the watchdog of the service manager is told that the proxy is
/// alive, given its timeout, both in nanoseconds: twice in each timeout.
pub fn ping_interval(timeout: u128) -> (interval: u128)
    ensures
        2 * interval <= timeout < 2 * interval + 2,
{
    timeout / 2
}

/// The address gone on with is the one that was found, byte by byte, at whichever
/// attempt. Where none was found, the first four attempts are followed by another
/// one after two seconds, and the fifth is the last.
pub proof fn law_lookup_goes_on_with_what_was_found(attempt: u32, mac: [u8; 6])
    ensures
        lookup_step(attempt, Some(mac)) matches LookupStep::Found(used) && used@.len() == mac@.len()
            && forall|i: int| 0 <= i < 6 ==> #[trigger] used@[i] == mac@[i],
        attempt < 5 ==> lookup_step(attempt, None) == LookupStep::RetryAfter(2),
        attempt >= 5 ==> lookup_step(attempt, None) is GiveUp,
{
}

/// The path of an adapter is the same for all adapters up to its number, which is
/// in decimal.
pub proof fn law_adapter_path_names_the_adapter(adapter_index: nat)
    ensures
        ({
            let path = adapter_object(adapter_index);
            let start = "/org/bluez/hci"@;
            &&& path.len() == start.len() + text::decimal(adapter_index).len()
            &&& path.take(start.len() as int) == start
            &&& path.skip(start.len() as int) == text::decimal(adapter_index)
        }),
{
}

/// Different adapters have different paths.
pub proof fn law_adapters_have_their_own_paths(first: nat, second: nat)
    ensures
        adapter_object(first) == adapter_object(second) ==> first == second,
{
    law_adapter_path_names_the_adapter(first);
    law_adapter_path_names_the_adapter(second);
    text::law_decimal_tells_numbers_apart(first, second);
}

} // verus!
