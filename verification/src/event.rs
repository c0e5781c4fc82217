//! History entries of routed links and the newest-first view of them.

use vstd::prelude::*;
use crate::config::opt_str;
use crate::engine::Outcome;
use crate::outside::now_rfc3339;

verus! {

/// One routed link.
#[derive(Debug, Clone, PartialEq)]
pub struct Event {
    /// RFC 3339 local timestamp.
    pub timestamp: String,
    pub url: String,
    pub host: Option<String>,
    pub outcome: Outcome,
    /// Why routing or launching failed, when it did.
    pub error: Option<String>,
}

impl Event {
    /// An event for `url` stamped with the current local time (RFC 3339).
    pub fn new(url: String, host: Option<String>, outcome: Outcome) -> (r: Event)
        ensures
            r.url@ == url@,
            opt_str(r.host) == opt_str(host),
            r.outcome@ == outcome@,
            r.error is None,
            r.timestamp@.len() >= 19,
            r.timestamp@.contains('T'),
    {
        Event { timestamp: now_rfc3339(), url, host, outcome, error: None }
    }
}

/// The most recent `limit` of the events (in log order), newest first.
pub open spec fn recent_spec(events: Seq<Event>, limit: nat) -> Seq<Event> {
    let n = events.len();
    let start = if n > limit {
        n - limit
    } else {
        0
    };
    events.subrange(start as int, n as int).reverse()
}

/// Keeps the most recent `limit` events of a log read oldest first, and
/// returns them newest first.
pub fn recent(events: Vec<Event>, limit: usize) -> (r: Vec<Event>)
    ensures
        r@ == recent_spec(events@, limit as nat),
{
    let ghost all = events@;
    let n = events.len();
    let mut events = events;
    let mut out: Vec<Event> = Vec::new();
    let mut k: usize = 0;
    while k < limit && events.len() > 0
        invariant
            n == all.len(),
            k <= n,
            k <= limit,
            events@ == all.take(n - k),
            out@ == all.subrange(n - k, n as int).reverse(),
        decreases n - k,
    {
        let ghost before = events@;
        match events.pop() {
            Some(e) => {
                assert(e == all[n - k - 1]);
                out.push(e);
                k = k + 1;
                assert(events@ =~= all.take(n - k));
                assert(out@ =~= all.subrange(n - k, n as int).reverse());
            },
            None => {},
        }
    }
    assert(recent_spec(all, limit as nat) =~= all.subrange(n - k, n as int).reverse());
    out
}

/// History reads newest first for every limit: the result holds the last
/// `min(n, limit)` events, the newest at the front.
pub proof fn lemma_recent_newest_first(events: Seq<Event>, limit: nat)
    ensures
        recent_spec(events, limit).len() == if events.len() < limit {
            events.len()
        } else {
            limit
        },
        forall|i: int|
            0 <= i < recent_spec(events, limit).len() ==> #[trigger] recent_spec(events, limit)[i]
                == events[events.len() - 1 - i],
{
}

} // verus!
