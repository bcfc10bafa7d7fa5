use vstd::prelude::*;
use vstd::std_specs::hash::DefaultHasherAdditionalSpecFns;
use vstd::utf8::encode_utf8;

use std::collections::hash_map::DefaultHasher;
use std::collections::{HashMap, HashSet};
use std::hash::Hasher;

use crate::text::text_eq;

verus! {

broadcast use vstd::std_specs::hash::group_hash_axioms;

/// The 64-bit digest of a URL: `DefaultHasher` fed its UTF-8 bytes once.
pub open spec fn url_hash(u: Seq<char>) -> u64 {
    DefaultHasher::spec_finish(seq![encode_utf8(u)])
}

/// Computes `url_hash` of `value`.
pub fn hash_url(value: &str) -> (h: u64)
    ensures
        h == url_hash(value@),
{
    let mut hasher = DefaultHasher::new();
    hasher.write(value.as_bytes());
    assert(hasher@ =~= seq![encode_utf8(value@)]);
    hasher.finish()
}

/// A membership structure over normalized URLs.
pub trait KnownURL: Sized {
    /// Whether `url` counts as known.
    spec fn is_known(&self, url: Seq<char>) -> bool;

    /// Whether marking `b` known makes `a` known too.
    spec fn same_entry(a: Seq<char>, b: Seq<char>) -> bool;

    /// Whatever shares an entry with a known URL is known.
    proof fn lemma_entry_known(&self, a: Seq<char>, b: Seq<char>)
        requires
            self.is_known(b),
            Self::same_entry(a, b),
        ensures
            self.is_known(a),
    ;

    /// Marks `value` known; nothing known is forgotten.
    fn insert(&mut self, value: &str)
        ensures
            final(self).is_known(value@),
            forall|u: Seq<char>|
                #[trigger] final(self).is_known(u) == (old(self).is_known(u) || Self::same_entry(
                    u,
                    value@,
                )),
    ;

    /// Whether `value` is known.
    fn contains(&self, value: &str) -> (r: bool)
        ensures
            r == self.is_known(value@),
    ;
}

/// The exact strategy: URLs kept verbatim, grouped by digest, so that no
/// URL is ever reported known that was not marked.
#[derive(Debug, Default)]
pub struct KnownURLSet {
    known_urls: HashMap<u64, Vec<String>>,
}

/// The hashed strategy: only the digest of each URL is kept; two URLs with
/// one digest are not told apart.
#[derive(Debug, Default)]
pub struct KnownURLHashSet {
    known_url_hashes: HashSet<u64>,
}

pub open spec fn bucket_holds(bucket: Seq<String>, u: Seq<char>) -> bool {
    exists|i: int| 0 <= i < bucket.len() && (#[trigger] bucket[i])@ == u
}

impl KnownURLSet {
    pub fn new() -> (r: Self)
        ensures
            forall|u: Seq<char>| !r.is_known(u),
    {
        KnownURLSet { known_urls: HashMap::new() }
    }
}

impl KnownURLHashSet {
    pub fn new() -> (r: Self)
        ensures
            forall|u: Seq<char>| !r.is_known(u),
    {
        KnownURLHashSet { known_url_hashes: HashSet::new() }
    }
}

impl KnownURL for KnownURLSet {
    closed spec fn is_known(&self, url: Seq<char>) -> bool {
        self.known_urls@.contains_key(url_hash(url)) && bucket_holds(
            self.known_urls@[url_hash(url)]@,
            url,
        )
    }

    open spec fn same_entry(a: Seq<char>, b: Seq<char>) -> bool {
        a == b
    }

    proof fn lemma_entry_known(&self, a: Seq<char>, b: Seq<char>) {
    }

    fn insert(&mut self, value: &str) {
        let h = hash_url(value);
        let mut bucket = match self.known_urls.remove(&h) {
            Some(b) => b,
            None => Vec::new(),
        };
        let ghost old_bucket = bucket@;
        bucket.push(value.to_string());
        assert(bucket@[old_bucket.len() as int]@ == value@);
        self.known_urls.insert(h, bucket);
        assert forall|u: Seq<char>|
            #[trigger] self.is_known(u) == (old(self).is_known(u) || Self::same_entry(
                u,
                value@,
            )) by {
            if url_hash(u) == h {
                if bucket_holds(old_bucket, u) {
                    let i = choose|i: int| 0 <= i < old_bucket.len() && (#[trigger] old_bucket[i])@ == u;
                    assert(bucket@[i] == old_bucket[i]);
                }
                if bucket_holds(bucket@, u) {
                    let i = choose|i: int| 0 <= i < bucket@.len() && (#[trigger] bucket@[i])@ == u;
                    if i < old_bucket.len() {
                        assert(old_bucket[i] == bucket@[i]);
                    }
                }
            }
        }
    }

    fn contains(&self, value: &str) -> (r: bool) {
        let h = hash_url(value);
        match self.known_urls.get(&h) {
            None => false,
            Some(bucket) => {
                let mut i: usize = 0;
                while i < bucket.len()
                    invariant
                        self.known_urls@.contains_key(h),
                        *bucket == self.known_urls@[h],
                        h == url_hash(value@),
                        i <= bucket@.len(),
                        forall|j: int| 0 <= j < i ==> (#[trigger] bucket@[j])@ != value@,
                    decreases bucket@.len() - i,
                {
                    if text_eq(bucket[i].as_str(), value) {
                        return true;
                    }
                    i = i + 1;
                }
                false
            },
        }
    }
}

impl KnownURL for KnownURLHashSet {
    closed spec fn is_known(&self, url: Seq<char>) -> bool {
        self.known_url_hashes@.contains(url_hash(url))
    }

    open spec fn same_entry(a: Seq<char>, b: Seq<char>) -> bool {
        url_hash(a) == url_hash(b)
    }

    proof fn lemma_entry_known(&self, a: Seq<char>, b: Seq<char>) {
    }

    fn insert(&mut self, value: &str) {
        let hash = hash_url(value);
        self.known_url_hashes.insert(hash);
    }

    fn contains(&self, value: &str) -> (r: bool) {
        let hash = hash_url(value);
        self.known_url_hashes.contains(&hash)
    }
}

/// Once marked, a URL stays known through any later marking, under either
/// strategy.
pub proof fn lemma_known_stays_known<K: KnownURL>(before: K, after: K, marked: Seq<char>, u: Seq<char>)
    requires
        before.is_known(u),
        forall|v: Seq<char>|
            #[trigger] after.is_known(v) == (before.is_known(v) || K::same_entry(v, marked)),
    ensures
        after.is_known(u),
{
    assert(after.is_known(u) == (before.is_known(u) || K::same_entry(u, marked)));
}

} // verus!
