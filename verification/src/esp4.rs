//! IPsec ESP: sizing the scratch area that holds the IV, the crypto request
//! and the scatter list of one operation.
use vstd::prelude::*;

verus! {

pub const EINVAL: i32 = -22;
pub const ENOMEM: i32 = -12;
pub const ENOSYS: i32 = -38;

pub struct in_addr {
    pub s_addr: u32,
}

/// Properties of a security association.
pub struct xfrm_state_props {
    pub flags: u32,
    pub saddr: in_addr,
}

/// Extra data kept before the IV when sending.
pub struct esp_output_extra {
    pub seqhi: u32,
    pub esphoff: u32,
}

/// `v` rounded up to the alignment `a` (a power of two): the bits below the
/// alignment cleared after adding `a - 1`.
pub open spec fn align_up(v: int, a: usize) -> int {
    ((v + a - 1) as usize & !((a - 1) as usize)) as int
}

/// `val` rounded up to a multiple of `align`, a power of two (see
/// `align_up`): at least `val`, less than `val + align`, with no bit below
/// the alignment set.
pub fn ALIGN(val: usize, align: usize) -> (r: usize)
    requires
        align > 0,
        align & ((align - 1) as usize) == 0,
        val + align - 1 <= usize::MAX,
    ensures
        r == align_up(val as int, align),
        r >= val,
        r < val + align,
        r & ((align - 1) as usize) == 0,
{
    let m: usize = align - 1;
    let s: usize = val + m;
    let r = s & !m;
    proof {
        assert(s & !m <= s && s - (s & !m) <= m && (s & !m) & m == 0 && s & !m >= s - m) by (bit_vector);
    }
    r
}

/// The sizes that shape the scratch area: the cipher's IV size and
/// alignment mask, the crypto context alignment, the request's size and its
/// own extra size, and the size and alignment of a scatter-list entry.
pub struct esp_sizes {
    pub ivsize: usize,
    pub alignmask: usize,
    pub ctx_align: usize,
    pub req_size: usize,
    pub reqsize: usize,
    pub sg_size: usize,
    pub sg_align: usize,
}

/// A power of two.
pub open spec fn pow2(a: usize) -> bool {
    a > 0 && a & ((a - 1) as usize) == 0
}

/// Scratch bytes for one ESP operation: the extra data and the IV, padded
/// for the cipher's alignment and rounded to the context alignment (when
/// there is any); then the request, rounded to the scatter-list alignment;
/// then one scatter-list entry per fragment.
pub open spec fn esp_tmp_len(z: esp_sizes, nfrags: usize, extralen: usize) -> int {
    let l1 = extralen + z.ivsize;
    let l2 = if l1 > 0 { align_up(l1 + (z.alignmask & !((z.ctx_align - 1) as usize)), z.ctx_align) } else { l1 };
    let l3 = align_up(l2 + z.req_size + z.reqsize, z.sg_align);
    l3 + z.sg_size * nfrags
}

/// The size of the scratch area (see `esp_tmp_len`).
pub fn esp_alloc_tmp_len(z: &esp_sizes, nfrags: usize, extralen: usize) -> (len: usize)
    requires
        pow2(z.ctx_align),
        pow2(z.sg_align),
        extralen + z.ivsize + z.alignmask + z.ctx_align + z.req_size + z.reqsize + z.sg_align + z.sg_size * nfrags <= usize::MAX,
    ensures
        len == esp_tmp_len(*z, nfrags, extralen),
{
    let mut len: usize = extralen + z.ivsize;
    if len > 0 {
        let pad = z.alignmask & !(z.ctx_align - 1);
        proof {
            let m = z.alignmask;
            let c = (z.ctx_align - 1) as usize;
            assert(m & !c <= m) by (bit_vector);
        }
        let v = len + pad;
        len = ALIGN(v, z.ctx_align);
    }
    let v2 = len + z.req_size + z.reqsize;
    len = ALIGN(v2, z.sg_align);
    proof {
        assert(z.sg_size * nfrags <= usize::MAX);
    }
    len + z.sg_size * nfrags
}

/// The sizes this implementation works with: a 16-byte IV, no extra cipher
/// alignment, 8-byte context alignment, and request and scatter-list entries
/// that take no room of their own.
pub fn esp_default_sizes() -> (z: esp_sizes)
    ensures
        z == (esp_sizes { ivsize: 16, alignmask: 0, ctx_align: 8, req_size: 0, reqsize: 0, sg_size: 0, sg_align: 1 }),
{
    esp_sizes { ivsize: 16, alignmask: 0, ctx_align: 8, req_size: 0, reqsize: 0, sg_size: 0, sg_align: 1 }
}

/// Allocate the zeroed scratch area for `nfrags` fragments and `extralen`
/// extra bytes, sized for the default cipher (see `esp_default_sizes`).
pub fn esp_alloc_tmp(nfrags: usize, extralen: usize) -> (tmp: Vec<u8>)
    requires
        extralen + 64 <= usize::MAX,
    ensures
        tmp@.len() == esp_tmp_len(esp_sizes { ivsize: 16, alignmask: 0, ctx_align: 8, req_size: 0, reqsize: 0, sg_size: 0, sg_align: 1 }, nfrags, extralen),
        forall|i: int| 0 <= i < tmp@.len() ==> tmp@[i] == 0,
{
    let z = esp_default_sizes();
    proof {
        assert(8usize & 7usize == 0 && 1usize & 0usize == 0) by (bit_vector);
        assert(z.sg_size * nfrags == 0);
    }
    let len = esp_alloc_tmp_len(&z, nfrags, extralen);
    let mut tmp: Vec<u8> = Vec::new();
    while tmp.len() < len
        invariant
            tmp.len() <= len,
            forall|i: int| 0 <= i < tmp@.len() ==> tmp@[i] == 0,
        decreases len - tmp.len(),
    {
        tmp.push(0);
    }
    tmp
}

} // verus!
