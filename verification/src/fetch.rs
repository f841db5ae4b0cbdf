//! Per-source fetch decisions and the collection of per-source outcomes.

use vstd::prelude::*;

use crate::adapter::{decode, decode_model, DecodeError};
use crate::cache::CacheStore;
use crate::feed::{feed_views, FeedData, FeedModel};

verus! {

/// Greatest number of fetches allowed in flight at once.
pub const FETCH_CONCURRENCY: usize = 8;

/// The freshness rule: a cached payload is reused, and no fresh retrieval
/// made, exactly when a cached payload exists, the remote supplied a
/// last-modified timestamp, and the cached copy was retrieved no earlier
/// than that timestamp.  Any missing piece of information forces a fresh
/// fetch.
pub open spec fn spec_needs_fetch(cached_at: Option<i64>, remote_modified: Option<i64>) -> bool {
    !(cached_at is Some && remote_modified is Some && cached_at.unwrap() >= remote_modified.unwrap())
}

/// Decide whether a source must be freshly retrieved.  `cached_at` is the
/// retrieval timestamp of the cached payload, if one exists; and
/// `remote_modified` the remote last-modified timestamp, if the server
/// supplied a parsable one.  Both are seconds of the same epoch.
pub fn needs_fetch(cached_at: Option<i64>, remote_modified: Option<i64>) -> (fresh: bool)
    ensures
        fresh == spec_needs_fetch(cached_at, remote_modified),
{
    match (cached_at, remote_modified) {
        (Some(t), Some(r)) => t < r,
        _ => true,
    }
}

/// Take in a freshly retrieved payload: the bytes are stored under the
/// source's cache key whether or not they decode, and the decode outcome
/// is handed back.
pub fn ingest_fresh(
    store: &mut CacheStore,
    key: String,
    bytes: Vec<u8>,
    retrieved_at: i64,
) -> (r: Result<FeedData, DecodeError>)
    ensures
        final(store)@ == old(store)@.insert(key@, (bytes@, retrieved_at)),
        match r {
            Ok(f) => decode_model(bytes@) == Some(f@),
            Err(e) => decode_model(bytes@) is None && e == DecodeError::NeitherFormat,
        },
{
    let r = decode(bytes.as_slice());
    store.store(key, bytes, retrieved_at);
    r
}

/// What went wrong for one source.
#[derive(Clone, Copy, PartialEq, Eq, Structural, Debug)]
pub enum FailureKind {
    /// The metadata request or the retrieval itself failed.
    Network,
    /// Neither format recognized the retrieved payload.
    Decode,
}

/// Abstract value of a recorded per-source failure.
pub ghost struct SourceFailureModel {
    pub source: Seq<char>,
    pub kind: FailureKind,
}

/// A recorded per-source failure: the source locator and what went wrong.
#[derive(Clone)]
pub struct SourceFailure {
    pub source: String,
    pub kind: FailureKind,
}

impl View for SourceFailure {
    type V = SourceFailureModel;

    open spec fn view(&self) -> SourceFailureModel {
        SourceFailureModel { source: self.source@, kind: self.kind }
    }
}

/// Abstract values of a sequence of per-source outcomes.
pub open spec fn outcome_views(s: Seq<Result<FeedData, SourceFailure>>) -> Seq<
    Result<FeedModel, SourceFailureModel>,
> {
    s.map_values(
        |r: Result<FeedData, SourceFailure>|
            match r {
                Ok(f) => Ok::<FeedModel, SourceFailureModel>(f@),
                Err(e) => Err::<FeedModel, SourceFailureModel>(e@),
            },
    )
}

/// Abstract values of a sequence of failures.
pub open spec fn failure_views(s: Seq<SourceFailure>) -> Seq<SourceFailureModel> {
    s.map_values(|e: SourceFailure| e@)
}

/// The feeds of the successful outcomes, in order.
pub open spec fn oks(s: Seq<Result<FeedModel, SourceFailureModel>>) -> Seq<FeedModel>
    decreases s.len(),
{
    if s.len() == 0 {
        Seq::empty()
    } else {
        oks(s.drop_last()) + (match s.last() {
            Ok(f) => seq![f],
            Err(_) => Seq::<FeedModel>::empty(),
        })
    }
}

/// The failures among the outcomes, in order.
pub open spec fn errs(s: Seq<Result<FeedModel, SourceFailureModel>>) -> Seq<SourceFailureModel>
    decreases s.len(),
{
    if s.len() == 0 {
        Seq::empty()
    } else {
        errs(s.drop_last()) + (match s.last() {
            Ok(_) => Seq::<SourceFailureModel>::empty(),
            Err(e) => seq![e],
        })
    }
}

proof fn lemma_oks_errs_step(s: Seq<Result<FeedModel, SourceFailureModel>>, i: int)
    requires
        0 <= i < s.len(),
    ensures
        oks(s.take(i + 1)) == oks(s.take(i)) + (match s[i] {
            Ok(f) => seq![f],
            Err(_) => Seq::<FeedModel>::empty(),
        }),
        errs(s.take(i + 1)) == errs(s.take(i)) + (match s[i] {
            Ok(_) => Seq::<SourceFailureModel>::empty(),
            Err(e) => seq![e],
        }),
{
    assert(s.take(i + 1).drop_last() =~= s.take(i));
    assert(s.take(i + 1).last() == s[i]);
}

/// Collect per-source outcomes leniently: the feeds of every source that
/// succeeded, in order, and the recorded failures of the others, in
/// order; no failure aborts the batch.
pub fn collect_feeds(results: Vec<Result<FeedData, SourceFailure>>) -> (r: (
    Vec<FeedData>,
    Vec<SourceFailure>,
))
    ensures
        feed_views(r.0@) == oks(outcome_views(results@)),
        failure_views(r.1@) == errs(outcome_views(results@)),
{
    let ghost ov = outcome_views(results@);
    let mut rest = results;
    let mut feeds: Vec<FeedData> = Vec::new();
    let mut fails: Vec<SourceFailure> = Vec::new();
    let ghost mut done: int = 0;
    proof {
        assert(ov.skip(0) =~= ov);
        assert(oks(ov.take(0)) =~= Seq::<FeedModel>::empty());
        assert(errs(ov.take(0)) =~= Seq::<SourceFailureModel>::empty());
        assert(feed_views(feeds@) =~= Seq::<FeedModel>::empty());
        assert(failure_views(fails@) =~= Seq::<SourceFailureModel>::empty());
    }
    while rest.len() > 0
        invariant
            0 <= done <= ov.len(),
            outcome_views(rest@) == ov.skip(done),
            feed_views(feeds@) == oks(ov.take(done)),
            failure_views(fails@) == errs(ov.take(done)),
        decreases rest@.len(),
    {
        let ghost old_rest = rest@;
        proof {
            assert(outcome_views(old_rest).len() == old_rest.len());
            assert(done < ov.len());
        }
        let x = rest.remove(0);
        proof {
            lemma_oks_errs_step(ov, done);
            assert(outcome_views(old_rest)[0] == ov.skip(done)[0]);
            assert(ov.skip(done)[0] == ov[done]);
            assert(outcome_views(rest@) =~= outcome_views(old_rest).skip(1));
            assert(outcome_views(old_rest).skip(1) =~= ov.skip(done + 1));
        }
        match x {
            Ok(f) => {
                let ghost prev = feeds@;
                feeds.push(f);
                proof {
                    assert(feed_views(prev.push(f)) =~= feed_views(prev).push(f@));
                    assert(feed_views(feeds@) =~= oks(ov.take(done + 1)));
                    assert(failure_views(fails@) =~= errs(ov.take(done + 1)));
                }
            },
            Err(e) => {
                let ghost prev = fails@;
                fails.push(e);
                proof {
                    assert(failure_views(prev.push(e)) =~= failure_views(prev).push(e@));
                    assert(failure_views(fails@) =~= errs(ov.take(done + 1)));
                    assert(feed_views(feeds@) =~= oks(ov.take(done + 1)));
                }
            },
        }
        proof {
            done = done + 1;
        }
    }
    proof {
        assert(outcome_views(rest@).len() == 0);
        assert(done == ov.len());
        assert(ov.take(done) =~= ov);
    }
    (feeds, fails)
}

} // verus!
