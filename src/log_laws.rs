//! Laws of the diagnostic log, stated over a run of offered messages.

use vstd::prelude::*;
use crate::log_store::{
    admits, important, init_already_logged, logged, LogRecord, LogView, MAX_MESSAGES, RECENT_WINDOW,
};

verus! {

/// A message offered to the store: level, text and timestamp.
pub type Offer = (Seq<char>, Seq<char>, Seq<char>);

/// The store after the offers, one after another.
pub open spec fn run(s: LogView, offers: Seq<Offer>) -> LogView
    decreases offers.len(),
{
    if offers.len() == 0 {
        s
    } else {
        let e = offers.last();
        logged(run(s, offers.drop_last()), e.0, e.1, e.2)
    }
}

/// The records of the offers that the store took, in the order offered.
pub open spec fn accepted(s: LogView, offers: Seq<Offer>) -> Seq<LogRecord>
    decreases offers.len(),
{
    if offers.len() == 0 {
        Seq::empty()
    } else {
        let e = offers.last();
        let before = run(s, offers.drop_last());
        accepted(s, offers.drop_last()) + if admits(before, e.0, e.1) {
            seq![LogRecord { level: e.0, message: e.1, timestamp: e.2 }]
        } else {
            Seq::empty()
        }
    }
}

/// The (level, message) pair of an offer.
pub open spec fn offer_key(e: Offer) -> (Seq<char>, Seq<char>) {
    (e.0, e.1)
}

/// No two offers carry the same (level, message) pair.
pub open spec fn distinct_keys(offers: Seq<Offer>) -> bool {
    forall|i: int, j: int|
        0 <= i < j < offers.len() ==> offer_key(#[trigger] offers[i]) != offer_key(#[trigger] offers[j])
}

/// The records of the offers that the importance filter passed when each was
/// offered, in the order offered.
pub open spec fn passed(s: LogView, offers: Seq<Offer>) -> Seq<LogRecord>
    decreases offers.len(),
{
    if offers.len() == 0 {
        Seq::empty()
    } else {
        let e = offers.last();
        let before = run(s, offers.drop_last());
        passed(s, offers.drop_last()) + if important(before.messages, e.0, e.1) {
            seq![LogRecord { level: e.0, message: e.1, timestamp: e.2 }]
        } else {
            Seq::empty()
        }
    }
}

/// Every pair in the recency window after a run was there before it or
/// came with one of the offers.
proof fn lemma_recent_from_offers(s: LogView, offers: Seq<Offer>)
    ensures
        forall|x: (Seq<char>, Seq<char>)|
            #[trigger] run(s, offers).recent.contains(x) ==> s.recent.contains(x) || exists|i: int|
                0 <= i < offers.len() && offer_key(#[trigger] offers[i]) == x,
    decreases offers.len(),
{
    if offers.len() > 0 {
        let init = offers.drop_last();
        lemma_recent_from_offers(s, init);
        let p = run(s, init);
        let e = offers.last();
        let r = run(s, offers).recent;
        assert forall|x: (Seq<char>, Seq<char>)| #[trigger] r.contains(x) implies s.recent.contains(x)
            || exists|i: int| 0 <= i < offers.len() && offer_key(#[trigger] offers[i]) == x by {
            let k = choose|k: int| 0 <= k < r.len() && r[k] == x;
            if admits(p, e.0, e.1) && k == r.len() - 1 {
                assert(offer_key(offers[offers.len() - 1]) == x);
            } else {
                if admits(p, e.0, e.1) && p.recent.len() >= RECENT_WINDOW {
                    assert(r[k] == p.recent[k + 1]);
                } else {
                    assert(r[k] == p.recent[k]);
                }
                assert(p.recent.contains(x));
                if !s.recent.contains(x) {
                    let i = choose|i: int| 0 <= i < init.len() && offer_key(#[trigger] init[i]) == x;
                    assert(offers[i] == init[i]);
                }
            }
        }
    }
}

/// When the offers carry distinct pairs, none of them already in the
/// recency window, the store takes exactly the offers that the importance
/// filter passes.
proof fn lemma_distinct_offers_taken_when_important(s: LogView, offers: Seq<Offer>)
    requires
        distinct_keys(offers),
        forall|i: int| 0 <= i < offers.len() ==> !s.recent.contains(offer_key(#[trigger] offers[i])),
    ensures
        accepted(s, offers) == passed(s, offers),
    decreases offers.len(),
{
    if offers.len() > 0 {
        let init = offers.drop_last();
        assert forall|i: int, j: int| 0 <= i < j < init.len() implies offer_key(#[trigger] init[i])
            != offer_key(#[trigger] init[j]) by {
            assert(init[i] == offers[i] && init[j] == offers[j]);
        }
        assert forall|i: int| 0 <= i < init.len() implies !s.recent.contains(
            offer_key(#[trigger] init[i]),
        ) by {
            assert(init[i] == offers[i]);
        }
        lemma_distinct_offers_taken_when_important(s, init);
        lemma_recent_from_offers(s, init);
        let p = run(s, init);
        let e = offers.last();
        let n = offers.len() - 1;
        assert(offers[n] == e);
        if p.recent.contains(offer_key(e)) {
            assert(!s.recent.contains(offer_key(offers[n])));
            let i = choose|i: int| 0 <= i < init.len() && offer_key(#[trigger] init[i]) == offer_key(e);
            assert(offers[i] == init[i]);
            assert(offer_key(offers[i]) != offer_key(offers[n]));
        }
        assert(admits(p, e.0, e.1) == important(p.messages, e.0, e.1));
    }
}

/// From a fresh store, up to the store's capacity of offers with distinct
/// (level, message) pairs leave exactly the offers that the importance filter
/// passed when each was offered, in the order offered.
pub proof fn lemma_distinct_messages_kept_in_order(offers: Seq<Offer>)
    requires
        offers.len() <= MAX_MESSAGES,
        distinct_keys(offers),
    ensures
        run(empty_log(), offers).messages == passed(empty_log(), offers),
        run(empty_log(), offers).messages.len() == passed(empty_log(), offers).len(),
{
    lemma_messages_kept_in_order(empty_log(), offers);
    lemma_distinct_offers_taken_when_important(empty_log(), offers);
    assert(Seq::<LogRecord>::empty() + accepted(empty_log(), offers) =~= accepted(empty_log(), offers));
}

/// The store with nothing in it.
pub open spec fn empty_log() -> LogView {
    LogView {
        messages: Seq::empty(),
        recent: Seq::empty(),
        forwarding: false,
        init_echoed: false,
        forwarded: Seq::empty(),
    }
}

/// While nothing has to be evicted, the store holds what it held before,
/// followed by every message it took, in the order they were offered; so its
/// length grows by the number of messages taken.
pub proof fn lemma_messages_kept_in_order(s: LogView, offers: Seq<Offer>)
    requires
        s.messages.len() + offers.len() <= MAX_MESSAGES,
    ensures
        run(s, offers).messages == s.messages + accepted(s, offers),
        run(s, offers).messages.len() == s.messages.len() + accepted(s, offers).len(),
        accepted(s, offers).len() <= offers.len(),
    decreases offers.len(),
{
    if offers.len() > 0 {
        lemma_messages_kept_in_order(s, offers.drop_last());
        assert(run(s, offers).messages =~= s.messages + accepted(s, offers));
    }
}

/// A store that is full and takes one more message drops exactly its oldest
/// message, and stays full.
pub proof fn lemma_full_store_evicts_oldest(
    s: LogView,
    level: Seq<char>,
    message: Seq<char>,
    timestamp: Seq<char>,
)
    requires
        s.wf(),
        s.messages.len() == MAX_MESSAGES,
        admits(s, level, message),
    ensures
        logged(s, level, message, timestamp).messages == s.messages.drop_first().push(
            LogRecord { level, message, timestamp },
        ),
        logged(s, level, message, timestamp).messages.len() == MAX_MESSAGES,
{
}

/// Offering the same message twice in a row has the effect of offering it
/// once: the second offer changes nothing.
pub proof fn lemma_repeat_is_ignored(
    s: LogView,
    level: Seq<char>,
    message: Seq<char>,
    t1: Seq<char>,
    t2: Seq<char>,
)
    ensures
        logged(logged(s, level, message, t1), level, message, t2) == logged(s, level, message, t1),
{
    let s1 = logged(s, level, message, t1);
    if admits(s, level, message) {
        assert(s1.recent.last() == (level, message));
        assert(s1.recent.contains((level, message)));
    }
}

/// On an empty store, an `info` message offered twice in a row leaves exactly
/// one stored message: the first.
pub proof fn lemma_fresh_info_stored_once(message: Seq<char>, t1: Seq<char>, t2: Seq<char>)
    ensures
        logged(logged(empty_log(), "info"@, message, t1), "info"@, message, t2).messages
            == seq![LogRecord { level: "info"@, message, timestamp: t1 }],
{
    reveal_strlit("info");
    reveal_strlit("error");
    reveal_strlit("warning");
    reveal_strlit("fatal");
    reveal_strlit("debug");
    assert("info"@.len() != "error"@.len());
    assert("info"@.len() != "warning"@.len());
    assert("info"@.len() != "fatal"@.len());
    assert("info"@.len() != "debug"@.len());
    assert(!init_already_logged(Seq::empty()));
    assert(important(Seq::empty(), "info"@, message));
    assert(admits(empty_log(), "info"@, message));
    lemma_repeat_is_ignored(empty_log(), "info"@, message, t1, t2);
    assert(logged(empty_log(), "info"@, message, t1).messages =~= seq![
        LogRecord { level: "info"@, message, timestamp: t1 },
    ]);
}

/// A `debug` message is never stored: offering one changes nothing, and a
/// well-formed store holds no message of that level.
pub proof fn lemma_debug_never_stored(s: LogView, message: Seq<char>, timestamp: Seq<char>)
    requires
        s.wf(),
    ensures
        logged(s, "debug"@, message, timestamp) == s,
        forall|i: int| 0 <= i < s.messages.len() ==> #[trigger] s.messages[i].level != "debug"@,
{
    reveal_strlit("debug");
    reveal_strlit("error");
    reveal_strlit("warning");
    reveal_strlit("fatal");
    assert("error"@[0] != "debug"@[0]);
    assert("fatal"@[0] != "debug"@[0]);
}

} // verus!
