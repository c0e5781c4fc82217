//! Redirect resolution for tracker/shortener links, as a state machine: the
//! caller performs each request and reports the `Location` it got back;
//! the chain decides where to go next and when to stop.

use vstd::prelude::*;
use crate::outside::{join_url, url_join};
use crate::text::owned;

verus! {

broadcast use vstd::string::group_string_axioms;

/// At most this many requests are made for one link.
pub const MAX_HOPS: usize = 5;

/// A `Location` value resolved against the URL it came from; when that
/// fails, the raw value.
pub open spec fn join_location_spec(current: Seq<char>, location: Seq<char>) -> Seq<char> {
    match url_join(current, location) {
        Some(j) => j,
        None => location,
    }
}

/// Resolves a `Location` header value — often relative — against the URL
/// it came from; unparseable bases fall back to the raw header value.
pub fn join_location(current: &str, location: &str) -> (r: String)
    ensures
        r@ == join_location_spec(current@, location@),
{
    match join_url(current, location) {
        Some(j) => j,
        None => owned(location),
    }
}

/// A redirect chain being followed.
#[derive(Debug, Clone, PartialEq)]
pub struct RedirectChain {
    current: String,
    hopped: bool,
    hops: usize,
    done: bool,
}

impl RedirectChain {
    /// The URL reached so far.
    pub closed spec fn current_spec(&self) -> Seq<char> {
        self.current@
    }

    /// Whether at least one redirect was followed.
    pub closed spec fn hopped_spec(&self) -> bool {
        self.hopped
    }

    /// The number of requests answered so far.
    pub closed spec fn hops_spec(&self) -> nat {
        self.hops as nat
    }

    /// Whether the chain has ended.
    pub closed spec fn done_spec(&self) -> bool {
        self.done
    }

    /// A chain starting at the clicked link.
    pub fn start(url: &str) -> (r: RedirectChain)
        ensures
            r.current_spec() == url@,
            !r.hopped_spec(),
            r.hops_spec() == 0,
            !r.done_spec(),
    {
        RedirectChain { current: owned(url), hopped: false, hops: 0, done: false }
    }

    /// The URL to request next.
    pub fn current(&self) -> (r: &String)
        ensures
            r@ == self.current_spec(),
    {
        &self.current
    }

    /// Whether another request should be made.
    pub fn wants_hop(&self) -> (r: bool)
        ensures
            r == (!self.done_spec() && self.hops_spec() < MAX_HOPS),
    {
        !self.done && self.hops < MAX_HOPS
    }

    /// Records the answer to the request for the current URL: the
    /// `Location` of a redirect, or `None` when the chain ended there (a
    /// terminal status or an error). A redirect to the same URL ends the
    /// chain too.
    pub fn step(&mut self, location: Option<&str>)
        requires
            !old(self).done_spec(),
            old(self).hops_spec() < MAX_HOPS,
        ensures
            final(self).hops_spec() == old(self).hops_spec() + 1,
            match location {
                None => {
                    &&& final(self).done_spec()
                    &&& final(self).current_spec() == old(self).current_spec()
                    &&& final(self).hopped_spec() == old(self).hopped_spec()
                },
                Some(loc) => {
                    let next = join_location_spec(old(self).current_spec(), loc@);
                    if next == old(self).current_spec() {
                        &&& final(self).done_spec()
                        &&& final(self).current_spec() == old(self).current_spec()
                        &&& final(self).hopped_spec() == old(self).hopped_spec()
                    } else {
                        &&& !final(self).done_spec()
                        &&& final(self).current_spec() == next
                        &&& final(self).hopped_spec()
                    }
                },
            },
    {
        self.hops = self.hops + 1;
        match location {
            None => {
                self.done = true;
            },
            Some(loc) => {
                let next = join_location(self.current.as_str(), loc);
                if next == self.current {
                    self.done = true;
                } else {
                    self.current = next;
                    self.hopped = true;
                }
            },
        }
    }

    /// The final URL when at least one redirect happened, `None` otherwise
    /// (routing then uses the clicked link).
    pub fn result(self) -> (r: Option<String>)
        ensures
            match r {
                Some(u) => self.hopped_spec() && u@ == self.current_spec(),
                None => !self.hopped_spec(),
            },
    {
        if self.hopped {
            Some(self.current)
        } else {
            None
        }
    }
}

} // verus!
