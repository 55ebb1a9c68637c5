//! The feed cursor: two time boundaries and a continuation token.

use vstd::prelude::*;

verus! {

/// The width, in seconds, of a history window.
pub const MAX_UPDATE_DELTA_SEC: u64 = 3600;

/// How many items one page request asks for.
pub const PAGE_SIZE: u32 = 100;

/// One page request: from `start_time`, up to `end_time` when it is set
/// (unix seconds), at most `count` items.
pub struct FeedQuery {
    pub start_time: u64,
    pub end_time: Option<u64>,
    pub count: u32,
}

/// How a history request ended.
pub enum PageOutcome {
    /// A page came, with the continuation token it carried, if any.
    Received(Option<String>),
    /// The request failed.
    Failed,
}

/// The current unix time, a clock before the epoch read as zero.
fn now_seconds() -> (r: u64) {
    let t = crate::datetime::unix_now();
    if t < 0 {
        0
    } else {
        t as u64
    }
}

/// `a - b`, or zero where `b > a`.
pub open spec fn sat_sub(a: u64, b: u64) -> u64 {
    if a >= b {
        (a - b) as u64
    } else {
        0
    }
}

/// The request for the next page after the newest boundary `newest`.
pub open spec fn next_query(newest: u64) -> FeedQuery {
    FeedQuery { start_time: newest, end_time: None, count: PAGE_SIZE }
}

/// The newest boundary after a forward request made at `now`: it moves to
/// `now` and never back.
pub open spec fn advanced(newest: u64, now: u64) -> u64 {
    if now > newest {
        now
    } else {
        newest
    }
}

/// The request for the history window that ends at the oldest boundary.
pub open spec fn prev_query(oldest: u64) -> FeedQuery {
    FeedQuery {
        start_time: sat_sub(oldest, MAX_UPDATE_DELTA_SEC),
        end_time: Some(oldest),
        count: PAGE_SIZE,
    }
}

/// The oldest boundary after a history request: it retreats by one window
/// on success only.
pub open spec fn retreated(oldest: u64, outcome: PageOutcome) -> u64 {
    match outcome {
        PageOutcome::Received(_) => sat_sub(oldest, MAX_UPDATE_DELTA_SEC),
        PageOutcome::Failed => oldest,
    }
}

/// The cursor over the remote feed.
pub struct NewsProvider {
    received_from: u64,
    received_to: u64,
    last_next_from: String,
}

impl NewsProvider {
    /// The oldest boundary: history before it has not been fetched.
    pub closed spec fn oldest(&self) -> u64 {
        self.received_from
    }

    /// The newest boundary: the next forward page starts there.
    pub closed spec fn newest(&self) -> u64 {
        self.received_to
    }

    /// The continuation token of the last history page.
    pub closed spec fn token(&self) -> Seq<char> {
        self.last_next_from@
    }

    /// A cursor whose two boundaries both lie one window before `now`.
    pub fn starting_at(now: u64) -> (r: NewsProvider)
        ensures
            r.oldest() == sat_sub(now, MAX_UPDATE_DELTA_SEC),
            r.newest() == r.oldest(),
            r.token().len() == 0,
    {
        let start = if now >= MAX_UPDATE_DELTA_SEC {
            now - MAX_UPDATE_DELTA_SEC
        } else {
            0
        };
        NewsProvider { received_from: start, received_to: start, last_next_from: String::new() }
    }

    /// A cursor that starts one window before the current time.
    pub fn new() -> (r: NewsProvider)
        ensures
            r.newest() == r.oldest(),
            r.token().len() == 0,
    {
        NewsProvider::starting_at(now_seconds())
    }

    /// The request for the next forward page at time `now`; the newest
    /// boundary moves to `now` before the outcome is known.
    pub fn next_update_at(&mut self, now: u64) -> (q: FeedQuery)
        ensures
            q == next_query(old(self).newest()),
            final(self).newest() == advanced(old(self).newest(), now),
            final(self).oldest() == old(self).oldest(),
            final(self).token() == old(self).token(),
    {
        let start = self.received_to;
        if now > self.received_to {
            self.received_to = now;
        }
        FeedQuery { start_time: start, end_time: None, count: PAGE_SIZE }
    }

    /// The request for the next forward page, made now.
    pub fn next_update(&mut self) -> (q: FeedQuery)
        ensures
            q == next_query(old(self).newest()),
            final(self).newest() >= old(self).newest(),
            final(self).oldest() == old(self).oldest(),
            final(self).token() == old(self).token(),
    {
        let now = now_seconds();
        self.next_update_at(now)
    }

    /// The request for the history window that ends at the oldest boundary.
    pub fn prev_update(&self) -> (q: FeedQuery)
        ensures
            q == prev_query(self.oldest()),
    {
        let end = self.received_from;
        let start = if end >= MAX_UPDATE_DELTA_SEC {
            end - MAX_UPDATE_DELTA_SEC
        } else {
            0
        };
        FeedQuery { start_time: start, end_time: Some(end), count: PAGE_SIZE }
    }

    /// Takes in the outcome of the request `prev_update` gave: on success the
    /// oldest boundary retreats by one window and the page's token is kept;
    /// on failure nothing changes, so the same window is asked again.
    pub fn prev_completed(&mut self, outcome: PageOutcome) -> (ok: bool)
        ensures
            ok == (outcome is Received),
            final(self).oldest() == retreated(old(self).oldest(), outcome),
            final(self).newest() == old(self).newest(),
            outcome matches PageOutcome::Received(t) ==> final(self).token() == match t {
                Some(s) => s@,
                None => Seq::<char>::empty(),
            },
            outcome is Failed ==> final(self).token() == old(self).token(),
    {
        match outcome {
            PageOutcome::Received(next_from) => {
                let end = self.received_from;
                self.received_from = if end >= MAX_UPDATE_DELTA_SEC {
                    end - MAX_UPDATE_DELTA_SEC
                } else {
                    0
                };
                self.last_next_from = match next_from {
                    Some(s) => s,
                    None => String::new(),
                };
                true
            },
            PageOutcome::Failed => false,
        }
    }
}

/// A failed forward request still moves the newest boundary: when the clock
/// has passed it, the next request starts strictly later than the one before.
pub proof fn lemma_next_moves_forward(newest: u64, now: u64)
    requires
        now > newest,
    ensures
        next_query(advanced(newest, now)).start_time > next_query(newest).start_time,
{
}

/// A failed history request leaves the oldest boundary where it was, so the
/// retry asks for the identical window.
pub proof fn lemma_failed_prev_retries_same_window(oldest: u64)
    ensures
        retreated(oldest, PageOutcome::Failed) == oldest,
        prev_query(retreated(oldest, PageOutcome::Failed)) == prev_query(oldest),
{
}

} // verus!
