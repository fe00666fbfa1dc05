//! CIPSO label cache: hashing option bytes, looking a label up by the
//! option that carried it, and remembering new labels with a bounded bucket
//! size.
use vstd::prelude::*;

verus! {

pub const CIPSO_V4_OPT_LEN_MAX: i32 = 40;
pub const CIPSO_V4_HDR_LEN: i32 = 6;
pub const CIPSO_V4_CACHE_BUCKETBITS: i32 = 7;
pub const CIPSO_V4_CACHE_BUCKETS: usize = 128;
pub const CIPSO_V4_CACHE_REORDERLIMIT: u32 = 10;
pub const CIPSO_V4_CACHE_BUCKETS_MASK: u32 = 127;
pub const EINVAL: i32 = -22;
pub const ENOMEM: i32 = -12;
pub const ENOENT: i32 = -2;
pub const EPERM: i32 = -1;

// ---------------------------------------------------------------------------
// Hashing
// ---------------------------------------------------------------------------

/// `x` rotated left by eight bits.
pub open spec fn rotl8(x: u32) -> u32 {
    (x << 8) | (x >> 24)
}

/// The hash of `key` with seed `initval`: starting from the seed, each byte
/// in turn is folded in after the running value is rotated left by eight
/// bits. Four bytes hashed with seed 0 give their big-endian word.
pub open spec fn spec_jhash(key: Seq<u8>, initval: u32) -> u32
    decreases key.len(),
{
    if key.len() == 0 { initval } else { rotl8(spec_jhash(key.drop_last(), initval)) ^ (key.last() as u32) }
}

/// Hash the first `length` bytes of `key` (see `spec_jhash`).
pub fn jhash(key: &Vec<u8>, length: usize, initval: u32) -> (r: u32)
    requires
        length <= key.len(),
    ensures
        r == spec_jhash(key@.take(length as int), initval),
{
    let mut h: u32 = initval;
    let mut i: usize = 0;
    while i < length
        invariant
            length <= key.len(),
            i <= length,
            h == spec_jhash(key@.take(i as int), initval),
        decreases length - i,
    {
        proof {
            assert(key@.take(i as int + 1).drop_last() =~= key@.take(i as int));
        }
        h = ((h << 8) | (h >> 24)) ^ (key[i] as u32);
        i = i + 1;
    }
    h
}

/// The cache hash of the first `key_len` bytes of an option.
pub fn cipso_v4_map_cache_hash(key: &Vec<u8>, key_len: u32) -> (r: u32)
    requires
        key_len <= key.len(),
    ensures
        r == spec_jhash(key@.take(key_len as int), 0),
{
    jhash(key, key_len as usize, 0)
}

// ---------------------------------------------------------------------------
// The label cache
// ---------------------------------------------------------------------------

/// A cached mapping from option bytes to a label, with its hash, how
/// often it was hit, and the reference count of its label (the cache's own
/// reference and those handed out on hits).
pub struct cipso_v4_map_cache_entry {
    pub hash: u32,
    pub key: Vec<u8>,
    pub lsm_data: u64,
    pub activity: u32,
    pub lsm_refcnt: u32,
}

/// A bucket: its entry count and its entries, most recent first.
pub struct cipso_v4_map_cache_bkt {
    pub size: u32,
    pub list: Vec<cipso_v4_map_cache_entry>,
}

/// The cache: its buckets, whether it is on, and how many entries a bucket
/// may hold.
pub struct cipso_v4_cache {
    pub buckets: Vec<cipso_v4_map_cache_bkt>,
    pub enabled: bool,
    pub bucketsize: i32,
}

/// An entry carries the hash of its key and sits in the bucket `b` of that
/// hash.
pub open spec fn entry_ok(e: cipso_v4_map_cache_entry, b: int) -> bool {
    e.hash == spec_jhash(e.key@, 0) && (e.hash & CIPSO_V4_CACHE_BUCKETS_MASK) == b
}

/// Bucket number `b` counts its entries, and each of them belongs there.
pub open spec fn bucket_ok(bkt: cipso_v4_map_cache_bkt, b: int) -> bool {
    &&& bkt.size == bkt.list.len()
    &&& forall|j: int| 0 <= j < bkt.list.len() ==> entry_ok(#[trigger] bkt.list@[j], b)
}

impl cipso_v4_cache {
    /// The cache has its number of buckets, and each bucket is in order.
    pub open spec fn wf(&self) -> bool {
        &&& self.buckets.len() == CIPSO_V4_CACHE_BUCKETS
        &&& forall|b: int| 0 <= b < CIPSO_V4_CACHE_BUCKETS ==> bucket_ok(#[trigger] self.buckets@[b], b)
    }
}

/// An empty cache, on, with buckets of ten entries; the negated `ENOMEM`
/// without memory.
pub fn cipso_v4_cache_init(alloc_ok: bool) -> (r: Result<cipso_v4_cache, i32>)
    ensures
        !alloc_ok ==> r == Err::<cipso_v4_cache, i32>((-ENOMEM) as i32),
        alloc_ok ==> (r matches Ok(c) && c.wf() && c.enabled && c.bucketsize == 10
            && forall|b: int| 0 <= b < CIPSO_V4_CACHE_BUCKETS ==> (#[trigger] c.buckets@[b]).list.len() == 0),
{
    if !alloc_ok {
        return Err(-ENOMEM);
    }
    let mut buckets: Vec<cipso_v4_map_cache_bkt> = Vec::new();
    while buckets.len() < CIPSO_V4_CACHE_BUCKETS
        invariant
            buckets.len() <= CIPSO_V4_CACHE_BUCKETS,
            forall|b: int| 0 <= b < buckets.len() ==> (#[trigger] buckets@[b]).size == 0 && buckets@[b].list.len() == 0,
        decreases CIPSO_V4_CACHE_BUCKETS - buckets.len(),
    {
        buckets.push(cipso_v4_map_cache_bkt { size: 0, list: Vec::new() });
    }
    Ok(cipso_v4_cache { buckets, enabled: true, bucketsize: 10 })
}

/// Empty every bucket.
pub fn cipso_v4_cache_invalidate(cache: &mut cipso_v4_cache)
    requires
        old(cache).wf(),
    ensures
        final(cache).wf(),
        final(cache).enabled == old(cache).enabled,
        final(cache).bucketsize == old(cache).bucketsize,
        forall|b: int| 0 <= b < CIPSO_V4_CACHE_BUCKETS ==> (#[trigger] final(cache).buckets@[b]).list.len() == 0,
{
    let mut i: usize = 0;
    while i < CIPSO_V4_CACHE_BUCKETS
        invariant
            cache.wf(),
            i <= CIPSO_V4_CACHE_BUCKETS,
            cache.enabled == old(cache).enabled,
            cache.bucketsize == old(cache).bucketsize,
            forall|b: int| 0 <= b < i ==> (#[trigger] cache.buckets@[b]).list.len() == 0,
        decreases CIPSO_V4_CACHE_BUCKETS - i,
    {
        cache.buckets.set(i, cipso_v4_map_cache_bkt { size: 0, list: Vec::new() });
        i = i + 1;
    }
}

/// Whether `a` holds exactly the first `n` bytes of `b`.
fn bytes_equal(a: &Vec<u8>, b: &Vec<u8>, n: usize) -> (r: bool)
    requires
        n <= b.len(),
    ensures
        r == (a@ == b@.take(n as int)),
{
    if a.len() != n {
        return false;
    }
    let mut i: usize = 0;
    while i < a.len()
        invariant
            a.len() == n,
            n <= b.len(),
            i <= a.len(),
            forall|k: int| 0 <= k < i ==> a@[k] == b@[k],
        decreases a.len() - i,
    {
        if a[i] != b[i] {
            return false;
        }
        i = i + 1;
    }
    proof { assert(a@ =~= b@.take(n as int)); }
    true
}

/// A reference count after one more reference is taken: it saturates at
/// its ceiling.
pub open spec fn ref_taken(r: u32) -> u32 {
    if r < u32::MAX { (r + 1) as u32 } else { r }
}

/// The position of the first entry of `list` for `key` with hash `h`.
pub open spec fn first_hit(list: Seq<cipso_v4_map_cache_entry>, key: Seq<u8>, h: u32) -> Option<int> {
    if exists|j: int| 0 <= j < list.len() && list[j].hash == h && list[j].key@ == key {
        Some(choose|j: int| 0 <= j < list.len() && list[j].hash == h && list[j].key@ == key
            && forall|i: int| 0 <= i < j ==> !(list[i].hash == h && list[i].key@ == key))
    } else {
        None
    }
}

/// An entry after a hit: one more use, one more reference to its label.
pub open spec fn bumped_entry(e: cipso_v4_map_cache_entry) -> cipso_v4_map_cache_entry {
    cipso_v4_map_cache_entry { activity: (e.activity + 1) as u32, lsm_refcnt: ref_taken(e.lsm_refcnt), ..e }
}

/// The entry in front of a hit one: one use less, down to 0.
pub open spec fn aged_entry(e: cipso_v4_map_cache_entry) -> cipso_v4_map_cache_entry {
    cipso_v4_map_cache_entry { activity: if e.activity > 0 { (e.activity - 1) as u32 } else { 0 }, ..e }
}

/// A bucket's entries after a hit on entry `j`: it is bumped, the entry in
/// front of it (if any) aged, and the two trade places when the hit entry
/// is now used more than `CIPSO_V4_CACHE_REORDERLIMIT` times more.
pub open spec fn bumped_list(l: Seq<cipso_v4_map_cache_entry>, j: int) -> Seq<cipso_v4_map_cache_entry> {
    let e = bumped_entry(l[j]);
    if j == 0 {
        l.update(0, e)
    } else {
        let p = aged_entry(l[j - 1]);
        if e.activity > p.activity && e.activity - p.activity > CIPSO_V4_CACHE_REORDERLIMIT {
            l.update(j - 1, e).update(j, p)
        } else {
            l.update(j - 1, p).update(j, e)
        }
    }
}

/// Record a hit on entry `j` of bucket `b` (see `bumped_list`); return the
/// entry's label.
fn cache_bump(cache: &mut cipso_v4_cache, b: usize, j: usize) -> (lsm: u64)
    requires
        old(cache).wf(),
        b < CIPSO_V4_CACHE_BUCKETS,
        j < old(cache).buckets@[b as int].list.len(),
        old(cache).buckets@[b as int].list@[j as int].activity < u32::MAX,
    ensures
        final(cache).wf(),
        final(cache).enabled == old(cache).enabled,
        final(cache).bucketsize == old(cache).bucketsize,
        lsm == old(cache).buckets@[b as int].list@[j as int].lsm_data,
        final(cache).buckets@[b as int].size == old(cache).buckets@[b as int].size,
        final(cache).buckets@[b as int].list@ == bumped_list(old(cache).buckets@[b as int].list@, j as int),
        forall|bb: int| 0 <= bb < CIPSO_V4_CACHE_BUCKETS && bb != b ==> #[trigger] final(cache).buckets@[bb] == old(cache).buckets@[bb],
{
    let ghost list = cache.buckets@[b as int].list@;
    let mut bucket = cache.buckets.remove(b);
    let mut e = bucket.list.remove(j);
    let lsm = e.lsm_data;
    e.activity = e.activity + 1;
    if e.lsm_refcnt < u32::MAX {
        e.lsm_refcnt = e.lsm_refcnt + 1;
    }
    if j == 0 {
        bucket.list.insert(0, e);
    } else {
        let mut p = bucket.list.remove(j - 1);
        if p.activity > 0 {
            p.activity = p.activity - 1;
        }
        if e.activity > p.activity && e.activity - p.activity > CIPSO_V4_CACHE_REORDERLIMIT {
            bucket.list.insert(j - 1, e);
            bucket.list.insert(j, p);
        } else {
            bucket.list.insert(j - 1, p);
            bucket.list.insert(j, e);
        }
    }
    proof {
        assert(bucket.list@ =~= bumped_list(list, j as int));
        assert forall|k: int| 0 <= k < list.len() implies entry_ok(#[trigger] bucket.list@[k], b as int) by {
            assert(entry_ok(list[k], b as int));
            if j > 0 {
                assert(entry_ok(list[j - 1], b as int));
                assert(entry_ok(list[j as int], b as int));
            }
        }
        assert(bucket_ok(bucket, b as int));
    }
    cache.buckets.insert(b, bucket);
    proof {
        assert(cache.buckets@ =~= old(cache).buckets@.update(b as int, bucket));
    }
    lsm
}

/// What a lookup of the option bytes `key` answers on `cache`: the negated
/// `ENOENT` when the cache is off or holds no entry for `key`, else 0 and
/// the label of the first entry for `key` in the bucket of its hash.
pub open spec fn check_result(cache: cipso_v4_cache, key: Seq<u8>) -> (i32, Option<u64>) {
    let h = spec_jhash(key, 0);
    let list = cache.buckets@[(h & CIPSO_V4_CACHE_BUCKETS_MASK) as int].list@;
    if !cache.enabled {
        ((-ENOENT) as i32, None)
    } else {
        match first_hit(list, key, h) {
            None => ((-ENOENT) as i32, None),
            Some(j) => (0i32, Some(list[j].lsm_data)),
        }
    }
}

/// Look the label for the first `key_len` bytes of `key` up (see
/// `check_result`). A hit also counts one more use of the entry, takes one
/// more reference to its label (see `ref_taken`) and, unless it is the
/// first of its bucket, counts one less use of the entry before it (down to
/// 0), moving the hit entry in front of it when it is used enough more (see
/// `bumped_list`); nothing else changes.
pub fn cipso_v4_cache_check(cache: &mut cipso_v4_cache, key: &Vec<u8>, key_len: u32) -> (r: (i32, Option<u64>))
    requires
        old(cache).wf(),
        key_len <= key.len(),
        forall|b: int, j: int| 0 <= b < CIPSO_V4_CACHE_BUCKETS && 0 <= j < old(cache).buckets@[b].list.len()
            ==> (#[trigger] old(cache).buckets@[b].list@[j]).activity < u32::MAX,
    ensures
        final(cache).wf(),
        final(cache).enabled == old(cache).enabled,
        final(cache).bucketsize == old(cache).bucketsize,
        r == check_result(*old(cache), key@.take(key_len as int)),
        ({
            let k = key@.take(key_len as int);
            let h = spec_jhash(k, 0);
            let b = (h & CIPSO_V4_CACHE_BUCKETS_MASK) as int;
            let list = old(cache).buckets@[b].list@;
            old(cache).enabled ==> match first_hit(list, k, h) {
                None => *final(cache) == *old(cache),
                Some(j) => {
                    &&& final(cache).buckets@[b].list@ == bumped_list(list, j)
                    &&& final(cache).buckets@[b].size == old(cache).buckets@[b].size
                    &&& forall|bb: int| 0 <= bb < CIPSO_V4_CACHE_BUCKETS && bb != b ==>
                        #[trigger] final(cache).buckets@[bb] == old(cache).buckets@[bb]
                }
            }
        }),
{
    if !cache.enabled {
        return (-ENOENT, None);
    }
    let h = cipso_v4_map_cache_hash(key, key_len);
    let ghost k = key@.take(key_len as int);
    let b: usize = (h & CIPSO_V4_CACHE_BUCKETS_MASK) as usize;
    proof {
        assert(h & CIPSO_V4_CACHE_BUCKETS_MASK <= 127) by (bit_vector);
    }
    let ghost list = cache.buckets@[b as int].list@;
    let n = cache.buckets[b].list.len();
    let mut j: usize = 0;
    while j < n
        invariant
            cache.wf(),
            *cache == *old(cache),
            old(cache).enabled,
            forall|bb: int, jj: int| 0 <= bb < CIPSO_V4_CACHE_BUCKETS && 0 <= jj < old(cache).buckets@[bb].list.len()
                ==> (#[trigger] old(cache).buckets@[bb].list@[jj]).activity < u32::MAX,
            b < CIPSO_V4_CACHE_BUCKETS,
            b == (h & CIPSO_V4_CACHE_BUCKETS_MASK),
            h == spec_jhash(k, 0),
            k == key@.take(key_len as int),
            key_len <= key.len(),
            list == cache.buckets@[b as int].list@,
            n == list.len(),
            j <= n,
            forall|i: int| 0 <= i < j ==> !(list[i].hash == h && list[i].key@ == k),
        decreases n - j,
    {
        let hit = cache.buckets[b].list[j].hash == h && bytes_equal(&cache.buckets[b].list[j].key, key, key_len as usize);
        if hit {
            proof {
                assert(list[j as int].hash == h && list[j as int].key@ == k);
                assert(exists|jj: int| 0 <= jj < list.len() && list[jj].hash == h && list[jj].key@ == k);
                let c = choose|jj: int| 0 <= jj < list.len() && list[jj].hash == h && list[jj].key@ == k
                    && forall|i: int| 0 <= i < jj ==> !(list[i].hash == h && list[i].key@ == k);
                assert(c == j as int) by {
                    if c < j as int {
                        assert(!(list[c].hash == h && list[c].key@ == k));
                    }
                    if c > j as int {
                        assert(!(list[j as int].hash == h && list[j as int].key@ == k));
                    }
                }
            }
            let lsm = cache_bump(cache, b, j);
            return (0, Some(lsm));
        }
        j = j + 1;
    }
    (-ENOENT, None)
}

/// Release an entry that left the cache.
pub fn cipso_v4_cache_entry_free(entry: Option<cipso_v4_map_cache_entry>) {
}

/// The option bytes that an option at the start of `cipso` spans: its
/// second byte is its length.
pub open spec fn option_key(cipso: Seq<u8>) -> Seq<u8> {
    cipso.take(cipso[1] as int)
}

/// `new_list` is `old_list` with a fresh entry for `key` and label `lsm` in
/// front (holding the cache's reference to the label), and, when the bucket was `full`, without its last entry.
pub open spec fn bucket_after_add(old_list: Seq<cipso_v4_map_cache_entry>, new_list: Seq<cipso_v4_map_cache_entry>,
    key: Seq<u8>, lsm: u64, full: bool) -> bool
{
    &&& new_list.len() == (if full { old_list.len() } else { old_list.len() + 1 })
    &&& new_list[0].hash == spec_jhash(key, 0)
    &&& new_list[0].key@ == key
    &&& new_list[0].lsm_data == lsm
    &&& new_list[0].activity == 0
    &&& new_list[0].lsm_refcnt == 1
    &&& forall|k: int| 1 <= k < new_list.len() ==> #[trigger] new_list[k] == old_list[k - 1]
}

/// What `cipso_v4_cache_add` makes of `before`: unchanged when the cache is
/// off or its buckets may hold nothing; else the bucket of the option's hash
/// gains the option in front (see `bucket_after_add`), full when it held
/// `bucketsize` entries or more, and every other bucket stays.
pub open spec fn cache_after_add(before: cipso_v4_cache, after: cipso_v4_cache, cipso: Seq<u8>, lsm: u64) -> bool {
    if !before.enabled || before.bucketsize <= 0 {
        after == before
    } else {
        let key = option_key(cipso);
        let b = (spec_jhash(key, 0) & CIPSO_V4_CACHE_BUCKETS_MASK) as int;
        &&& after.enabled == before.enabled
        &&& after.bucketsize == before.bucketsize
        &&& bucket_after_add(before.buckets@[b].list@, after.buckets@[b].list@, key, lsm,
            before.buckets@[b].size >= before.bucketsize)
        &&& forall|bb: int| 0 <= bb < CIPSO_V4_CACHE_BUCKETS && bb != b ==> #[trigger] after.buckets@[bb] == before.buckets@[bb]
    }
}

/// Remember the label `lsm_data` for the option at the start of `cipso`
/// (see `cache_after_add`); always 0.
pub fn cipso_v4_cache_add(cache: &mut cipso_v4_cache, cipso: &Vec<u8>, lsm_data: u64) -> (r: i32)
    requires
        old(cache).wf(),
        2 <= cipso.len(),
        cipso@[1] <= cipso.len(),
    ensures
        r == 0,
        final(cache).wf(),
        cache_after_add(*old(cache), *final(cache), cipso@, lsm_data),
{
    if !cache.enabled || cache.bucketsize <= 0 {
        return 0;
    }
    let len = cipso[1] as usize;
    let mut key: Vec<u8> = Vec::new();
    let mut i: usize = 0;
    while i < len
        invariant
            len == cipso@[1],
            len <= cipso.len(),
            i <= len,
            key@ == cipso@.take(i as int),
        decreases len - i,
    {
        key.push(cipso[i]);
        i = i + 1;
    }
    let h = cipso_v4_map_cache_hash(&key, len as u32);
    assert(key@.take(len as int) =~= key@);
    let b: usize = (h & CIPSO_V4_CACHE_BUCKETS_MASK) as usize;
    proof {
        assert(h & CIPSO_V4_CACHE_BUCKETS_MASK <= 127) by (bit_vector);
    }
    let entry = cipso_v4_map_cache_entry { hash: h, key, lsm_data, activity: 0, lsm_refcnt: 1 };
    let ghost before = *cache;
    let mut bucket = cache.buckets.remove(b);
    let ghost old_list = bucket.list@;
    if bucket.size < cache.bucketsize as u32 {
        bucket.list.insert(0, entry);
        bucket.size = bucket.size + 1;
    } else {
        let gone = bucket.list.pop();
        bucket.list.insert(0, entry);
        cipso_v4_cache_entry_free(gone);
    }
    proof {
        assert(bucket_ok(before.buckets@[b as int], b as int));
        assert forall|k: int| 1 <= k < bucket.list@.len() implies #[trigger] bucket.list@[k] == old_list[k - 1] by {}
        assert forall|k: int| 0 <= k < bucket.list@.len() implies entry_ok(#[trigger] bucket.list@[k], b as int) by {
            if k > 0 {
                assert(bucket.list@[k] == old_list[k - 1]);
            }
        }
        assert(bucket_ok(bucket, b as int));
    }
    cache.buckets.insert(b, bucket);
    proof {
        assert(cache.buckets@ =~= before.buckets@.update(b as int, bucket));
    }
    0
}

/// A label just remembered for an option is what a lookup of that option
/// answers next: the entry found is the new one, in front of its bucket,
/// holding the cache's single reference to the label (which the lookup
/// then raises, see `cipso_v4_cache_check`).
pub proof fn cache_add_then_check(before: cipso_v4_cache, after: cipso_v4_cache, cipso: Seq<u8>, lsm: u64)
    requires
        before.wf(),
        before.enabled,
        before.bucketsize > 0,
        2 <= cipso.len(),
        cipso[1] <= cipso.len(),
        cache_after_add(before, after, cipso, lsm),
    ensures
        check_result(after, option_key(cipso)) == (0i32, Some(lsm)),
        ({
            let key = option_key(cipso);
            let h = spec_jhash(key, 0);
            let list = after.buckets@[(h & CIPSO_V4_CACHE_BUCKETS_MASK) as int].list@;
            first_hit(list, key, h) == Some(0int) && list[0].lsm_refcnt == 1
        }),
{
    let key = option_key(cipso);
    let h = spec_jhash(key, 0);
    let list = after.buckets@[(h & CIPSO_V4_CACHE_BUCKETS_MASK) as int].list@;
    assert(list[0].hash == h && list[0].key@ == key);
    assert(list.len() > 0) by {
        assert(h & CIPSO_V4_CACHE_BUCKETS_MASK <= 127) by (bit_vector);
        assert(before.buckets@[(h & CIPSO_V4_CACHE_BUCKETS_MASK) as int].size
            == before.buckets@[(h & CIPSO_V4_CACHE_BUCKETS_MASK) as int].list.len());
    }
    let c = choose|jj: int| 0 <= jj < list.len() && list[jj].hash == h && list[jj].key@ == key
        && forall|i: int| 0 <= i < jj ==> !(list[i].hash == h && list[i].key@ == key);
    assert(c == 0) by {
        if c > 0 {
            assert(!(list[0].hash == h && list[0].key@ == key));
        }
    }
}

} // verus!
