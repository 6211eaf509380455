use vstd::prelude::*;
use vstd::string::*;
use vstd::utf8::*;

use crate::gc::gc_object::StringPtr;
use crate::lua_value::lua_value::bytes_equal;
use crate::lua_value::SHORT_STRING_LIMIT;

verus! {

#[verifier::external_type_specification]
#[verifier::external_body]
pub struct ExRandomState(ahash::RandomState);

/// `ahash::RandomState::new`: a hasher whose seeds are drawn afresh for each process.
#[verifier::external_body]
fn new_hash_state() -> ahash::RandomState {
    ahash::RandomState::new()
}

/// `ahash::RandomState::hash_one` on the text of a string. The value depends on the seeds the
/// process drew, so nothing is stated of it; it is public so that the contracts of `intern`
/// and `intern_owned` can say which call produced the hash they searched with.
#[verifier::external_body]
pub fn hash_str(h: &ahash::RandomState, s: &str) -> u64 {
    h.hash_one(s)
}

/// Number of buckets of a new table.
pub const INITIAL_SIZE: usize = 128;

/// One interned short string: its text, its hash and the string object.
pub struct InternEntry {
    pub text: String,
    pub hash: u64,
    pub ptr: StringPtr,
}

/// An entry as plain values: text, hash and the object's address.
pub type EntryView = (Seq<char>, u64, u64);

impl InternEntry {
    pub open spec fn view_of(&self) -> EntryView {
        (self.text@, self.hash, self.ptr.addr())
    }
}

/// The bucket of a hash in a table of `size` buckets.
pub open spec fn bucket_of(hash: u64, size: int) -> int {
    (hash as int) % size
}

/// The entry `e` sits somewhere in `buckets`.
pub open spec fn holds(buckets: Seq<Vec<InternEntry>>, e: EntryView) -> bool {
    exists|i: int, j: int|
        0 <= i < buckets.len() && 0 <= j < buckets[i]@.len() && #[trigger] buckets[i]@[j].view_of()
            == e
}

/// Every entry sits in the bucket of its hash.
pub open spec fn placed(buckets: Seq<Vec<InternEntry>>) -> bool {
    forall|i: int, j: int|
        0 <= i < buckets.len() && 0 <= j < buckets[i]@.len() ==> bucket_of(
            #[trigger] buckets[i]@[j].hash,
            buckets.len() as int,
        ) == i
}

/// Number of entries in the first `n` buckets.
pub open spec fn total(buckets: Seq<Vec<InternEntry>>, n: int) -> int
    decreases n,
{
    if n <= 0 {
        0
    } else {
        total(buckets, n - 1) + buckets[n - 1]@.len()
    }
}

/// Replacing one bucket changes the count by the difference of the two lengths.
proof fn lemma_total_update(buckets: Seq<Vec<InternEntry>>, k: int, v: Vec<InternEntry>, n: int)
    requires
        0 <= k < buckets.len(),
        n <= buckets.len(),
    ensures
        total(buckets.update(k, v), n) == if k < n {
            total(buckets, n) - buckets[k]@.len() + v@.len()
        } else {
            total(buckets, n)
        },
    decreases n,
{
    if n > 0 {
        lemma_total_update(buckets, k, v, n - 1);
    }
}

/// A count of entries is never negative.
proof fn lemma_total_nonneg(buckets: Seq<Vec<InternEntry>>, n: int)
    ensures
        total(buckets, n) >= 0,
    decreases n,
{
    if n > 0 {
        lemma_total_nonneg(buckets, n - 1);
    }
}

/// Empty buckets hold no entries.
proof fn lemma_total_empty(buckets: Seq<Vec<InternEntry>>, n: int)
    requires
        n <= buckets.len(),
        forall|i: int| 0 <= i < buckets.len() ==> (#[trigger] buckets[i])@.len() == 0,
    ensures
        total(buckets, n) == 0,
    decreases n,
{
    if n > 0 {
        lemma_total_empty(buckets, n - 1);
    }
}

/// Adding `ne` to bucket `k` adds exactly that entry.
proof fn lemma_holds_push(nb: Seq<Vec<InternEntry>>, nb2: Seq<Vec<InternEntry>>, k: int, ne: InternEntry)
    requires
        0 <= k < nb.len(),
        nb2 == nb.update(k, nb2[k]),
        nb2[k]@ == nb[k]@.push(ne),
    ensures
        forall|e: EntryView| holds(nb2, e) <==> (holds(nb, e) || e == ne.view_of()),
{
    assert forall|e: EntryView| holds(nb2, e) implies (holds(nb, e) || e == ne.view_of()) by {
        let (i, j) = choose|i: int, j: int|
            0 <= i < nb2.len() && 0 <= j < nb2[i]@.len() && #[trigger] nb2[i]@[j].view_of() == e;
        if i != k || j < nb[k]@.len() {
            assert(nb[i]@[j].view_of() == e);
        }
    }
    assert forall|e: EntryView| holds(nb, e) implies holds(nb2, e) by {
        let (i, j) = choose|i: int, j: int|
            0 <= i < nb.len() && 0 <= j < nb[i]@.len() && #[trigger] nb[i]@[j].view_of() == e;
        assert(nb2[i]@[j].view_of() == e);
    }
    assert(nb2[k]@[nb[k]@.len() as int].view_of() == ne.view_of());
}

/// The first of the first `n` entries of `bucket` whose text is `t`, or -1.
pub open spec fn first_text_match(bucket: Seq<InternEntry>, t: Seq<char>, n: int) -> int
    decreases n,
{
    if n <= 0 {
        -1
    } else if first_text_match(bucket, t, n - 1) >= 0 {
        first_text_match(bucket, t, n - 1)
    } else if bucket[n - 1].text@ == t {
        n - 1
    } else {
        -1
    }
}

/// Once the first match is at `j`, looking further does not change it.
proof fn lemma_first_match_found(bucket: Seq<InternEntry>, t: Seq<char>, j: int, n: int)
    requires
        0 <= j < n,
        j < bucket.len(),
        first_text_match(bucket, t, j) == -1,
        bucket[j].text@ == t,
    ensures
        first_text_match(bucket, t, n) == j,
    decreases n - j,
{
    if n > j + 1 {
        lemma_first_match_found(bucket, t, j, n - 1);
    }
}

/// What looking a string up gives.
pub enum InternLookup {
    /// Longer than `SHORT_STRING_LIMIT` bytes: long strings are not interned.
    Long,
    /// An interned string with this text.
    Found(StringPtr),
    /// Not interned; the string's hash, under which a new string object is to be recorded.
    Missing(u64),
}

/// The table of interned short strings: buckets of entries chosen by hash.
pub struct StringInterner {
    buckets: Vec<Vec<InternEntry>>,
    nuse: usize,
    hashbuilder: ahash::RandomState,
}

impl StringInterner {
    /// The entries in each bucket.
    pub closed spec fn buckets(&self) -> Seq<Vec<InternEntry>> {
        self.buckets@
    }

    /// The table's hasher.
    pub closed spec fn hashbuilder(&self) -> ahash::RandomState {
        self.hashbuilder
    }

    /// Number of buckets.
    pub closed spec fn size(&self) -> int {
        self.buckets@.len() as int
    }

    /// Number of strings recorded.
    pub closed spec fn nuse(&self) -> int {
        self.nuse as int
    }

    /// The interned entries.
    pub open spec fn entries(&self) -> Set<EntryView> {
        Set::new(|e: EntryView| holds(self.buckets(), e))
    }

    /// Well formed: there is at least one bucket, every entry sits in its hash's bucket, and
    /// the count of strings is the number of entries.
    pub open spec fn wf(&self) -> bool {
        &&& self.size() > 0
        &&& placed(self.buckets())
        &&& self.nuse() == total(self.buckets(), self.size())
    }

    /// An empty table of `INITIAL_SIZE` buckets with a freshly seeded hasher.
    pub fn new() -> (r: Self)
        ensures
            r.wf(),
            r.size() == INITIAL_SIZE,
            r.nuse() == 0,
            r.entries() == Set::<EntryView>::empty(),
    {
        let buckets = empty_buckets(INITIAL_SIZE);
        let r = StringInterner { buckets, nuse: 0, hashbuilder: new_hash_state() };
        proof {
            lemma_total_empty(r.buckets@, r.buckets@.len() as int);
        }
        assert(r.entries() =~= Set::<EntryView>::empty());
        r
    }

    /// The first entry of bucket `b` whose text is `t`, or -1.
    pub open spec fn first_match(&self, b: int, t: Seq<char>) -> int {
        first_text_match(self.buckets()[b]@, t, self.buckets()[b]@.len() as int)
    }

    /// Search the bucket of hash `h` for a short string with the text of `s`: the first entry
    /// with that text gives `Found` with its object, and `Missing(h)` comes back when there is
    /// none.
    pub fn lookup(&self, s: &str, h: u64) -> (r: InternLookup)
        requires
            self.wf(),
            encode_utf8(s@).len() <= SHORT_STRING_LIMIT,
        ensures
            ({
                let b = bucket_of(h, self.size());
                let j = self.first_match(b, s@);
                &&& j >= 0 ==> (r matches InternLookup::Found(p) && p.addr() == self.buckets()[b]@[j].ptr.addr())
                &&& j < 0 ==> (r matches InternLookup::Missing(h2) && h2 == h)
            }),
    {
        let bytes = s.as_bytes();
        let idx = (h % (self.buckets.len() as u64)) as usize;
        assert(idx == bucket_of(h, self.size()) && idx < self.buckets@.len());
        let bucket = &self.buckets[idx];
        let ghost bs = bucket@;
        let mut j: usize = 0;
        while j < bucket.len()
            invariant
                j <= bucket@.len(),
                bs == bucket@,
                idx < self.buckets@.len(),
                idx == bucket_of(h, self.size()),
                bucket == self.buckets@[idx as int],
                bytes@ == encode_utf8(s@),
                forall|k: int| 0 <= k < j ==> (#[trigger] bucket@[k]).text@ != s@,
                first_text_match(bs, s@, j as int) == -1,
            decreases bucket@.len() - j,
        {
            let e = &bucket[j];
            proof {
                encode_utf8_decode_utf8(e.text@);
                encode_utf8_decode_utf8(s@);
            }
            if bytes_equal(e.text.as_str().as_bytes(), bytes) {
                let p = e.ptr.clone();
                proof {
                    lemma_first_match_found(bs, s@, j as int, bs.len() as int);
                }
                return InternLookup::Found(p);
            }
            j = j + 1;
        }
        InternLookup::Missing(h)
    }

    /// Look `s` up: long strings are not interned; a short one is hashed with the table's
    /// hasher and searched in the bucket of that hash (as `lookup` does).
    pub fn intern(&self, s: &str) -> (r: InternLookup)
        requires
            self.wf(),
        ensures
            (r is Long) == (encode_utf8(s@).len() > SHORT_STRING_LIMIT),
            !(r is Long) ==> exists|h: u64| {
                &&& call_ensures(hash_str, (&self.hashbuilder(), s), h)
                &&& ({
                    let b = bucket_of(h, self.size());
                    let j = self.first_match(b, s@);
                    &&& j >= 0 ==> (r matches InternLookup::Found(p) && p.addr() == self.buckets()[b]@[j].ptr.addr())
                    &&& j < 0 ==> (r matches InternLookup::Missing(h2) && h2 == h)
                })
            },
    {
        let bytes = s.as_bytes();
        if bytes.len() > SHORT_STRING_LIMIT {
            return InternLookup::Long;
        }
        let h = hash_str(&self.hashbuilder, s);
        self.lookup(s, h)
    }

    /// Look up an owned string, as `intern` does with its text.
    pub fn intern_owned(&self, s: &String) -> (r: InternLookup)
        requires
            self.wf(),
        ensures
            (r is Long) == (encode_utf8(s@).len() > SHORT_STRING_LIMIT),
            !(r is Long) ==> exists|t: &str, h: u64| {
                &&& t@ == s@
                &&& call_ensures(hash_str, (&self.hashbuilder(), t), h)
                &&& ({
                    let b = bucket_of(h, self.size());
                    let j = self.first_match(b, s@);
                    &&& j >= 0 ==> (r matches InternLookup::Found(p) && p.addr() == self.buckets()[b]@[j].ptr.addr())
                    &&& j < 0 ==> (r matches InternLookup::Missing(h2) && h2 == h)
                })
            },
    {
        let t = s.as_str();
        let bytes = t.as_bytes();
        if bytes.len() > SHORT_STRING_LIMIT {
            return InternLookup::Long;
        }
        let h = hash_str(&self.hashbuilder, t);
        let r = self.lookup(t, h);
        proof {
            assert(t@ == s@);
            assert(call_ensures(hash_str, (&self.hashbuilder(), t), h));
        }
        r
    }

    /// Record a newly created short string `ptr` with text `text` and hash `hash`. When the
    /// table holds as many strings as it has buckets it first grows to twice the buckets.
    pub fn create_short_string(&mut self, text: String, hash: u64, ptr: StringPtr)
        requires
            old(self).wf(),
            old(self).nuse() < usize::MAX,
            old(self).nuse() >= old(self).size() ==> old(self).size() * 2 <= usize::MAX,
        ensures
            final(self).wf(),
            final(self).nuse() == old(self).nuse() + 1,
            final(self).size() == (if old(self).nuse() >= old(self).size() {
                old(self).size() * 2
            } else {
                old(self).size()
            }),
            final(self).entries() == old(self).entries().insert((text@, hash, ptr.addr())),
    {
        if self.nuse >= self.buckets.len() {
            let n = self.buckets.len() * 2;
            self.resize_to(n);
        }
        let e = InternEntry { text, hash, ptr };
        let ghost ev = e.view_of();
        place_entry(&mut self.buckets, e);
        self.nuse = self.nuse + 1;
        proof {
            assert(self.entries() =~= old(self).entries().insert(ev));
        }
    }

    /// Spread the entries over `new_size` buckets.
    fn resize_to(&mut self, new_size: usize)
        requires
            old(self).wf(),
            new_size > 0,
        ensures
            final(self).wf(),
            final(self).size() == new_size,
            final(self).nuse() == old(self).nuse(),
            final(self).entries() == old(self).entries(),
    {
        let nb = rehash(&self.buckets, new_size);
        self.buckets = nb;
        proof {
            assert(self.entries() =~= old(self).entries());
        }
    }

    /// Resize to the smallest power of two at least `new_size` buckets (one for 0), unless the
    /// table already has that many.
    pub fn resize(&mut self, new_size: usize)
        requires
            old(self).wf(),
            new_size <= usize::MAX / 2 + 1,
        ensures
            final(self).wf(),
            power_of_two(final(self).size()),
            final(self).size() >= new_size,
            final(self).size() == 1 || final(self).size() / 2 < new_size,
            final(self).nuse() == old(self).nuse(),
            final(self).entries() == old(self).entries(),
    {
        let n = next_power_of_two(new_size);
        if n != self.buckets.len() {
            self.resize_to(n);
        }
    }

    /// Halve the buckets when fewer than a quarter are used and there are more than
    /// `INITIAL_SIZE` of them.
    pub fn check_shrink(&mut self)
        requires
            old(self).wf(),
        ensures
            final(self).wf(),
            final(self).nuse() == old(self).nuse(),
            final(self).entries() == old(self).entries(),
            old(self).nuse() < old(self).size() / 4 && old(self).size() > INITIAL_SIZE ==> {
                &&& power_of_two(final(self).size())
                &&& final(self).size() >= old(self).size() / 2
                &&& final(self).size() / 2 < old(self).size() / 2
            },
            !(old(self).nuse() < old(self).size() / 4 && old(self).size() > INITIAL_SIZE)
                ==> final(self).size() == old(self).size(),
    {
        let size = self.buckets.len();
        if self.nuse < size / 4 && size > INITIAL_SIZE {
            self.resize(size / 2);
        }
    }

    /// Forget a dead string `ptr` whose hash is `hash`: the first entry of the hash's bucket
    /// holding that object is removed and the count drops by one; nothing changes if there is
    /// none.
    pub fn remove_dead_intern(&mut self, ptr: StringPtr, hash: u64)
        requires
            old(self).wf(),
        ensures
            final(self).wf(),
            final(self).size() == old(self).size(),
            ({
                let b = bucket_of(hash, old(self).size());
                let bucket = old(self).buckets()[b]@;
                &&& (forall|j: int| 0 <= j < bucket.len() ==> (#[trigger] bucket[j]).ptr.addr() != ptr.addr())
                    ==> final(self).buckets() == old(self).buckets() && final(self).nuse() == old(self).nuse()
                &&& (exists|j: int| 0 <= j < bucket.len() && (#[trigger] bucket[j]).ptr.addr() == ptr.addr())
                    ==> exists|j: int| {
                    &&& 0 <= j < bucket.len()
                    &&& #[trigger] bucket[j].ptr.addr() == ptr.addr()
                    &&& forall|k: int| 0 <= k < j ==> (#[trigger] bucket[k]).ptr.addr() != ptr.addr()
                    &&& final(self).buckets() == old(self).buckets().update(b, final(self).buckets()[b])
                    &&& final(self).buckets()[b]@ == bucket.remove(j)
                    &&& final(self).nuse() == old(self).nuse() - 1
                }
            }),
    {
        let b = (hash % (self.buckets.len() as u64)) as usize;
        assert(b == bucket_of(hash, old(self).size()) && b < old(self).buckets@.len());
        let ghost bucket = self.buckets@[b as int]@;
        let mut j: usize = 0;
        let blen = self.buckets[b].len();
        while j < blen
            invariant
                *self == *old(self),
                old(self).wf(),
                b == bucket_of(hash, old(self).size()),
                b < self.buckets@.len(),
                blen == bucket.len(),
                bucket == self.buckets@[b as int]@,
                j <= blen,
                forall|k: int| 0 <= k < j ==> (#[trigger] bucket[k]).ptr.addr() != ptr.addr(),
            decreases blen - j,
        {
            if self.buckets[b][j].ptr.as_u64() == ptr.as_u64() {
                let mut v = self.buckets.remove(b);
                let _dead = v.remove(j);
                self.buckets.insert(b, v);
                proof {
                    assert(self.buckets@ =~= old(self).buckets@.update(b as int, self.buckets@[b as int]));
                    lemma_total_update(old(self).buckets@, b as int, self.buckets@[b as int], old(self).buckets@.len() as int);
                    assert forall|i: int, k: int|
                        0 <= i < self.buckets@.len() && 0 <= k < self.buckets@[i]@.len() implies bucket_of(
                        #[trigger] self.buckets@[i]@[k].hash,
                        self.buckets@.len() as int,
                    ) == i by {
                        if i != b {
                            assert(self.buckets@[i] == old(self).buckets@[i]);
                        } else if k < j {
                            assert(self.buckets@[i]@[k] == old(self).buckets@[i]@[k]);
                        } else {
                            assert(self.buckets@[i]@[k] == old(self).buckets@[i]@[k + 1]);
                            assert(bucket_of(old(self).buckets@[i]@[k + 1].hash, old(self).buckets@.len() as int) == i);
                        }
                    }
                    assert(self.buckets@[b as int]@ == bucket.remove(j as int));
                    lemma_total_nonneg(self.buckets@, self.buckets@.len() as int);
                }
                self.nuse = self.nuse - 1;
                return;
            }
            j = j + 1;
        }
    }

    /// The number of strings and of buckets.
    pub fn stats(&self) -> (r: (usize, usize))
        ensures
            r.0 == self.nuse(),
            r.1 == self.size(),
    {
        (self.nuse, self.buckets.len())
    }
}

impl Default for StringInterner {
    fn default() -> (r: Self)
        ensures
            r.wf(),
            r.size() == INITIAL_SIZE,
            r.nuse() == 0,
            r.entries() == Set::<EntryView>::empty(),
    {
        Self::new()
    }
}

/// `n` is a power of two.
pub open spec fn power_of_two(n: int) -> bool
    decreases n,
{
    if n <= 1 {
        n == 1
    } else {
        n % 2 == 0 && power_of_two(n / 2)
    }
}

/// The smallest power of two that is at least `n` (1 for 0).
fn next_power_of_two(n: usize) -> (r: usize)
    requires
        n <= usize::MAX / 2 + 1,
    ensures
        power_of_two(r as int),
        r >= n,
        r == 1 || r / 2 < n,
{
    let mut p: usize = 1;
    while p < n
        invariant
            power_of_two(p as int),
            p == 1 || p / 2 < n,
            n <= usize::MAX / 2 + 1,
        decreases usize::MAX - p,
    {
        assert(power_of_two((p * 2) as int));
        p = p * 2;
    }
    p
}

/// Add `e` at the end of bucket `k`.
fn push_entry(buckets: &mut Vec<Vec<InternEntry>>, k: usize, e: InternEntry)
    requires
        k < old(buckets)@.len(),
    ensures
        final(buckets)@ == old(buckets)@.update(k as int, final(buckets)@[k as int]),
        final(buckets)@[k as int]@ == old(buckets)@[k as int]@.push(e),
{
    let mut bucket = buckets.remove(k);
    bucket.push(e);
    buckets.insert(k, bucket);
    proof {
        assert(buckets@ =~= old(buckets)@.update(k as int, buckets@[k as int]));
    }
}

/// Copy of an entry.
fn copy_entry(e: &InternEntry) -> (r: InternEntry)
    ensures
        r.view_of() == e.view_of(),
{
    InternEntry { text: e.text.clone(), hash: e.hash, ptr: e.ptr.clone() }
}

/// Push `e` into the bucket of its hash: the entries gain `e`, the count grows by one and
/// every entry stays in its hash's bucket.
fn place_entry(buckets: &mut Vec<Vec<InternEntry>>, e: InternEntry)
    requires
        old(buckets)@.len() > 0,
        placed(old(buckets)@),
    ensures
        final(buckets)@.len() == old(buckets)@.len(),
        placed(final(buckets)@),
        forall|x: EntryView| holds(final(buckets)@, x) <==> (holds(old(buckets)@, x) || x == e.view_of()),
        total(final(buckets)@, final(buckets)@.len() as int) == total(old(buckets)@, old(buckets)@.len() as int) + 1,
{
    let k = (e.hash % (buckets.len() as u64)) as usize;
    assert(k == bucket_of(e.hash, old(buckets)@.len() as int) && k < old(buckets)@.len());
    let ghost ne = e;
    push_entry(buckets, k, e);
    proof {
        lemma_holds_push(old(buckets)@, buckets@, k as int, ne);
        lemma_total_update(old(buckets)@, k as int, buckets@[k as int], old(buckets)@.len() as int);
        assert forall|i: int, j: int|
            0 <= i < buckets@.len() && 0 <= j < buckets@[i]@.len() implies bucket_of(
            #[trigger] buckets@[i]@[j].hash,
            buckets@.len() as int,
        ) == i by {
            if i != k || j < old(buckets)@[i]@.len() {
                assert(buckets@[i]@[j] == old(buckets)@[i]@[j]);
            }
        }
    }
}

/// The same entries spread over `new_size` buckets.
fn rehash(old_buckets: &Vec<Vec<InternEntry>>, new_size: usize) -> (r: Vec<Vec<InternEntry>>)
    requires
        new_size > 0,
    ensures
        r@.len() == new_size,
        placed(r@),
        forall|x: EntryView| holds(r@, x) <==> holds(old_buckets@, x),
        total(r@, new_size as int) == total(old_buckets@, old_buckets@.len() as int),
{
    let mut nb = empty_buckets(new_size);
    proof {
        lemma_total_empty(nb@, new_size as int);
    }
    let mut i: usize = 0;
    while i < old_buckets.len()
        invariant
            i <= old_buckets@.len(),
            nb@.len() == new_size,
            new_size > 0,
            placed(nb@),
            forall|x: EntryView| holds(nb@, x) ==> holds(old_buckets@, x),
            forall|i2: int, j2: int|
                0 <= i2 < i && 0 <= j2 < old_buckets@[i2]@.len() ==> holds(nb@, #[trigger] old_buckets@[i2]@[j2].view_of()),
            total(nb@, new_size as int) == total(old_buckets@, i as int),
        decreases old_buckets@.len() - i,
    {
        let b = &old_buckets[i];
        let mut j: usize = 0;
        while j < b.len()
            invariant
                i < old_buckets@.len(),
                b == old_buckets@[i as int],
                j <= b@.len(),
                nb@.len() == new_size,
                new_size > 0,
                placed(nb@),
                forall|x: EntryView| holds(nb@, x) ==> holds(old_buckets@, x),
                forall|i2: int, j2: int|
                    0 <= i2 < i && 0 <= j2 < old_buckets@[i2]@.len() ==> holds(nb@, #[trigger] old_buckets@[i2]@[j2].view_of()),
                forall|j2: int| 0 <= j2 < j ==> holds(nb@, #[trigger] b@[j2].view_of()),
                total(nb@, new_size as int) == total(old_buckets@, i as int) + j,
            decreases b@.len() - j,
        {
            let ne = copy_entry(&b[j]);
            proof {
                assert(holds(old_buckets@, b@[j as int].view_of()));
            }
            place_entry(&mut nb, ne);
            j = j + 1;
        }
        i = i + 1;
    }
    nb
}

/// `n` empty buckets.
fn empty_buckets(n: usize) -> (r: Vec<Vec<InternEntry>>)
    ensures
        r@.len() == n,
        forall|i: int| 0 <= i < n ==> (#[trigger] r@[i])@.len() == 0,
{
    let mut r: Vec<Vec<InternEntry>> = Vec::new();
    let mut i: usize = 0;
    while i < n
        invariant
            i <= n,
            r@.len() == i,
            forall|k: int| 0 <= k < i ==> (#[trigger] r@[k])@.len() == 0,
        decreases n - i,
    {
        r.push(Vec::new());
        i = i + 1;
    }
    r
}

} // verus!
