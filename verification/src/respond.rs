//! Serving one request: today's quote, rendered for the wire.
//!
//! A request carries nothing; the reply depends on the instant it is served
//! at and on the set of quotes alone. `send_quote` reads the instant from the
//! system clock, `send_quote_at` takes it from its caller.

use vstd::prelude::*;
use std::time::SystemTime;
use crate::quote::{QuoteSet, QuoteView};
use crate::select::{daily_index, lemma_cycle, lemma_same_day_same_index, within_day};
use crate::std_specs::since_unix_epoch;
use crate::wire::{reply_bytes, write_reply};

verus! {

/// The reply served from `quotes` at the instant `secs`.
pub open spec fn reply_at(quotes: Seq<QuoteView>, secs: nat) -> Seq<u8>
    recommends
        quotes.len() > 0,
{
    reply_bytes(quotes[daily_index(secs, quotes.len()) as int])
}

/// All requests of one day get the same reply from an unchanged set.
pub proof fn lemma_same_day_same_reply(quotes: Seq<QuoteView>, first: nat, second: nat, day: nat)
    requires
        quotes.len() > 0,
        within_day(first, day),
        within_day(second, day),
    ensures
        reply_at(quotes, first) == reply_at(quotes, second),
{
    lemma_same_day_same_index(first, second, day, quotes.len());
}

/// As many days later as the set has quotes, the same reply is served again.
pub proof fn lemma_reply_cycle(quotes: Seq<QuoteView>, secs: nat)
    requires
        quotes.len() > 0,
    ensures
        reply_at(quotes, secs + quotes.len() * 86400) == reply_at(quotes, secs),
{
    lemma_cycle(secs, quotes.len());
}

/// Why no reply was written.
#[derive(Debug, PartialEq, Eq, Structural, Clone, Copy)]
pub enum SendError {
    /// The clock reads a time before the Unix epoch.
    ClockBeforeEpoch,
}

/// The system clock's reading in whole seconds after the Unix epoch, or
/// `None` where the clock is set before the epoch.
fn unix_time() -> Option<u64> {
    let now = SystemTime::now();
    match since_unix_epoch(&now) {
        Ok(elapsed) => Some(elapsed.as_secs()),
        Err(_) => None,
    }
}

/// Appends to `client` the reply that is due at the clock reading `now`:
/// whole seconds after the Unix epoch, or `None` for a clock that is set
/// before the epoch, on which nothing is written.
pub fn send_quote_at(
    client: &mut Vec<u8>,
    quotes: &QuoteSet,
    now: Option<u64>,
) -> (sent: Result<(), SendError>)
    ensures
        match now {
            Some(secs) => sent is Ok && final(client)@ == old(client)@ + reply_at(
                quotes@,
                secs as nat,
            ),
            None => sent matches Err(SendError::ClockBeforeEpoch) && final(client)@ == old(
                client,
            )@,
        },
{
    match now {
        Some(secs) => {
            let quote = quotes.quote_of_the_day(secs);
            write_reply(client, quote);
            Ok(())
        },
        None => Err(SendError::ClockBeforeEpoch),
    }
}

/// Appends to `client` the reply that is due at the system clock's reading.
/// The reply is that of some instant; with a clock that is set before the
/// Unix epoch nothing is written.
pub fn send_quote(client: &mut Vec<u8>, quotes: &QuoteSet) -> (sent: Result<(), SendError>)
    ensures
        match sent {
            Ok(()) => exists|secs: nat|
                final(client)@ == old(client)@ + #[trigger] reply_at(quotes@, secs),
            Err(SendError::ClockBeforeEpoch) => final(client)@ == old(client)@,
        },
{
    let now = unix_time();
    send_quote_at(client, quotes, now)
}

} // verus!
