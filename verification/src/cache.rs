//! The cache store: the last-fetched raw bytes of each feed source and
//! their retrieval time, keyed by a digest of the source locator.

use vstd::prelude::*;

verus! {

/// The hex digest that keys a source's cache slot.
pub uninterp spec fn md5_hex_of(s: Seq<char>) -> Seq<char>;

/// Produce the stable cache key of a feed source locator.
///
/// Relies on `md5::compute` — a digest of 16 bytes that depends on the
/// input alone — and on its `LowerHex` rendering, two hex digits per
/// byte, hence 32 characters.
#[verifier::external_body]
pub fn cache_key(source: &str) -> (r: String)
    ensures
        r@ == md5_hex_of(source@),
        r@.len() == 32,
{
    format!("{:x}", md5::compute(source))
}

/// One recorded store operation: a key, the payload bytes, and their
/// retrieval time in epoch seconds.
pub struct CacheRecord {
    pub key: String,
    pub bytes: Vec<u8>,
    pub retrieved_at: i64,
}

/// The mapping recorded by a journal of store operations: a later record
/// for a key overrides an earlier one.
pub open spec fn cache_map_of(s: Seq<CacheRecord>) -> Map<Seq<char>, (Seq<u8>, i64)>
    decreases s.len(),
{
    if s.len() == 0 {
        Map::empty()
    } else {
        cache_map_of(s.drop_last()).insert(
            s.last().key@,
            (s.last().bytes@, s.last().retrieved_at),
        )
    }
}

/// The in-memory cache store: a journal of store operations, seen as the
/// mapping from each key to the payload and retrieval time last stored
/// under it.
pub struct CacheStore {
    pub records: Vec<CacheRecord>,
}

impl View for CacheStore {
    type V = Map<Seq<char>, (Seq<u8>, i64)>;

    open spec fn view(&self) -> Map<Seq<char>, (Seq<u8>, i64)> {
        cache_map_of(self.records@)
    }
}

impl CacheStore {
    /// An empty store.
    pub fn new() -> (r: CacheStore)
        ensures
            r@ == Map::<Seq<char>, (Seq<u8>, i64)>::empty(),
    {
        CacheStore { records: Vec::new() }
    }

    /// Store a payload under a key, overwriting any prior payload.
    pub fn store(&mut self, key: String, bytes: Vec<u8>, retrieved_at: i64)
        ensures
            final(self)@ == old(self)@.insert(key@, (bytes@, retrieved_at)),
    {
        let ghost prev = self.records@;
        self.records.push(CacheRecord { key, bytes, retrieved_at });
        proof {
            assert(self.records@.drop_last() =~= prev);
        }
    }

    /// Load the payload and retrieval time stored under a key, if any.
    pub fn load(&self, key: &String) -> (r: Option<(&Vec<u8>, i64)>)
        ensures
            match r {
                Some(bt) => self@.contains_key(key@) && self@[key@] == (bt.0@, bt.1),
                None => !self@.contains_key(key@),
            },
    {
        let mut j: usize = self.records.len();
        proof {
            assert(self.records@.take(self.records@.len() as int) =~= self.records@);
        }
        while j > 0
            invariant
                j <= self.records@.len(),
                self@.contains_key(key@) == cache_map_of(
                    self.records@.take(j as int),
                ).contains_key(key@),
                cache_map_of(self.records@.take(j as int)).contains_key(key@) ==> self@[key@]
                    == cache_map_of(self.records@.take(j as int))[key@],
            decreases j,
        {
            proof {
                assert(self.records@.take(j as int).drop_last() =~= self.records@.take(
                    j as int - 1,
                ));
                assert(self.records@.take(j as int).last() == self.records@[j as int - 1]);
            }
            if self.records[j - 1].key == *key {
                return Some((&self.records[j - 1].bytes, self.records[j - 1].retrieved_at));
            }
            j = j - 1;
        }
        proof {
            assert(self.records@.take(0) =~= Seq::<CacheRecord>::empty());
        }
        None
    }
}

/// Law: a payload stored under a key and then immediately loaded comes
/// back byte-identical, together with the retrieval time that was stored,
/// whatever the store held before.
pub proof fn lemma_store_then_load(
    m: Map<Seq<char>, (Seq<u8>, i64)>,
    key: Seq<char>,
    bytes: Seq<u8>,
    retrieved_at: i64,
)
    ensures
        m.insert(key, (bytes, retrieved_at)).contains_key(key),
        m.insert(key, (bytes, retrieved_at))[key] == (bytes, retrieved_at),
{
}

} // verus!
