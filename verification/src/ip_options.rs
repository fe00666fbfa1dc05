//! IPv4 header options: echoing the options of a received packet into a
//! reply, rebuilding options into an outgoing header, and blanking the
//! options that must not be copied into fragments.
use vstd::prelude::*;

verus! {

pub const IPOPT_END: u8 = 0;
pub const IPOPT_NOP: u8 = 1;
pub const IPOPT_SSRR: u8 = 131;
pub const IPOPT_LSRR: u8 = 133;
pub const IPOPT_RR: u8 = 7;
pub const IPOPT_TIMESTAMP: u8 = 68;
pub const EINVAL: i32 = -22;
pub const ENOMEM: i32 = -12;
/// Length of an IPv4 header without options.
pub const IPHDR_LEN: u8 = 20;
/// Room for options in an IPv4 header.
pub const IP_OPTIONS_MAX: usize = 40;

/// Parsed IPv4 options of a packet. The offsets `srr`, `rr` and `ts` are byte
/// offsets of the option within the IP header (0 when absent).
pub struct ip_options {
    pub optlen: u8,
    pub __data: Vec<u8>,
    pub faddr: u32,
    pub srr: u8,
    pub rr: u8,
    pub ts: u8,
    pub cipso: u8,
    pub is_strictroute: u8,
    pub rr_needaddr: u8,
    pub ts_needaddr: u8,
    pub ts_needtime: u8,
}

/// Whether an option of type `opt` is copied into every fragment.
pub open spec fn spec_ipopt_copied(opt: u8) -> bool {
    opt & 0x20 != 0
}

/// Whether an option of type `opt` is copied into every fragment (the copy
/// flag is bit 0x20 of the option type).
pub fn IPOPT_COPIED(opt: u8) -> (r: bool)
    ensures r == spec_ipopt_copied(opt),
{
    opt & 0x20 != 0
}

// ---------------------------------------------------------------------------
// Fragment option blanking
// ---------------------------------------------------------------------------

/// Walk the option area `s` from position `i` with `l` bytes left, replacing
/// every option that is not copied into fragments by no-op bytes. The boolean
/// tells whether the walk reached the end of the area (it stops early at an
/// end-of-list byte or at a malformed length).
pub open spec fn fragment_walk(s: Seq<u8>, i: int, l: int) -> (Seq<u8>, bool)
    decreases l,
{
    if l <= 0 || i < 0 || i >= s.len() {
        (s, l <= 0)
    } else if s[i] == IPOPT_END {
        (s, false)
    } else if s[i] == IPOPT_NOP {
        fragment_walk(s, i + 1, l - 1)
    } else if l < 2 || i + 1 >= s.len() {
        (s, false)
    } else {
        let optlen = s[i + 1] as int;
        if optlen < 2 || optlen > l || i + optlen > s.len() {
            (s, false)
        } else {
            let s2 = if spec_ipopt_copied(s[i]) {
                s
            } else {
                Seq::new(s.len(), |k: int| if i <= k < i + optlen { IPOPT_NOP } else { s[k] })
            };
            fragment_walk(s2, i + optlen, l - optlen)
        }
    }
}

proof fn lemma_fragment_walk_shape(s: Seq<u8>, i: int, l: int)
    ensures
        fragment_walk(s, i, l).0.len() == s.len(),
        forall|k: int| 0 <= k < s.len() ==> (#[trigger] fragment_walk(s, i, l).0[k] == s[k]
            || fragment_walk(s, i, l).0[k] == IPOPT_NOP),
        forall|k: int| 0 <= k < i && k < s.len() ==> #[trigger] fragment_walk(s, i, l).0[k] == s[k],
    decreases l,
{
    if l <= 0 || i < 0 || i >= s.len() {
    } else if s[i] == IPOPT_END {
    } else if s[i] == IPOPT_NOP {
        lemma_fragment_walk_shape(s, i + 1, l - 1);
    } else if l < 2 || i + 1 >= s.len() {
    } else {
        let optlen = s[i + 1] as int;
        if optlen < 2 || optlen > l || i + optlen > s.len() {
        } else {
            let s2 = if spec_ipopt_copied(s[i]) {
                s
            } else {
                Seq::new(s.len(), |k: int| if i <= k < i + optlen { IPOPT_NOP } else { s[k] })
            };
            lemma_fragment_walk_shape(s2, i + optlen, l - optlen);
        }
    }
}

/// Prepare the options of a packet for its non-first fragments: every option
/// whose copy flag is clear is overwritten by no-op bytes. When the whole
/// option area was walked, the record-route and timestamp bookkeeping is
/// cleared; a malformed option or an end-of-list byte stops the walk and
/// leaves the bookkeeping alone. `optarea` holds the option bytes that follow
/// the fixed IP header.
pub fn ip_options_fragment(optarea: &mut Vec<u8>, opt: &mut ip_options)
    requires
        old(opt).optlen as int <= old(optarea)@.len(),
    ensures
        final(optarea)@ == fragment_walk(old(optarea)@, 0, old(opt).optlen as int).0,
        fragment_walk(old(optarea)@, 0, old(opt).optlen as int).1 ==> (final(opt).ts == 0
            && final(opt).rr == 0 && final(opt).rr_needaddr == 0 && final(opt).ts_needaddr == 0
            && final(opt).ts_needtime == 0),
        !fragment_walk(old(optarea)@, 0, old(opt).optlen as int).1 ==> (final(opt).ts == old(opt).ts
            && final(opt).rr == old(opt).rr && final(opt).rr_needaddr == old(opt).rr_needaddr
            && final(opt).ts_needaddr == old(opt).ts_needaddr
            && final(opt).ts_needtime == old(opt).ts_needtime),
        final(opt).optlen == old(opt).optlen,
        final(opt).__data == old(opt).__data,
        final(opt).srr == old(opt).srr,
        final(opt).cipso == old(opt).cipso,
        final(opt).faddr == old(opt).faddr,
        final(opt).is_strictroute == old(opt).is_strictroute,
{
    let ghost s0 = optarea@;
    let ghost l0 = opt.optlen as int;
    let ghost opt0 = *opt;
    let mut l: usize = opt.optlen as usize;
    let mut i: usize = 0;
    while l > 0
        invariant
            optarea@.len() == s0.len(),
            i + l <= optarea.len(),
            l0 <= s0.len(),
            fragment_walk(s0, 0, l0) == fragment_walk(optarea@, i as int, l as int),
            *opt == opt0,
            opt0 == *old(opt),
            s0 == old(optarea)@,
            l0 == old(opt).optlen as int,
        decreases l,
    {
        let t = optarea[i];
        if t == IPOPT_END {
            return;
        }
        if t == IPOPT_NOP {
            l = l - 1;
            i = i + 1;
            continue;
        }
        if l < 2 {
            return;
        }
        let optlen = optarea[i + 1] as usize;
        if optlen < 2 || optlen > l {
            return;
        }
        if !IPOPT_COPIED(t) {
            let ghost before = optarea@;
            let end = i + optlen;
            let mut k: usize = i;
            while k < end
                invariant
                    end == i + optlen,
                    i <= k <= end,
                    end <= optarea@.len(),
                    optarea@.len() == before.len(),
                    forall|j: int| 0 <= j < optarea@.len() ==> #[trigger] optarea@[j] == (if i <= j < k {
                        IPOPT_NOP
                    } else {
                        before[j]
                    }),
                decreases end - k,
            {
                optarea.set(k, IPOPT_NOP);
                k = k + 1;
            }
            assert(optarea@ =~= Seq::new(before.len(), |j: int| if i <= j < i + optlen { IPOPT_NOP } else { before[j] }));
        }
        l = l - optlen;
        i = i + optlen;
    }
    opt.ts = 0;
    opt.rr = 0;
    opt.rr_needaddr = 0;
    opt.ts_needaddr = 0;
    opt.ts_needtime = 0;
}

/// Blanking the options for fragments never changes the size of the option
/// area, and every byte is either kept or replaced by a no-op.
pub proof fn ip_options_fragment_only_blanks(s: Seq<u8>, l: int)
    ensures
        fragment_walk(s, 0, l).0.len() == s.len(),
        forall|k: int| 0 <= k < s.len() ==> (#[trigger] fragment_walk(s, 0, l).0[k] == s[k]
            || fragment_walk(s, 0, l).0[k] == IPOPT_NOP),
{
    lemma_fragment_walk_shape(s, 0, l);
}


// ---------------------------------------------------------------------------
// Echoing received options into a reply
// ---------------------------------------------------------------------------

/// The option at header offset `off` lies inside the header bytes `hdr`.
pub open spec fn option_in_bounds(hdr: Seq<u8>, off: u8) -> bool {
    off == 0 || (off as int + 2 < hdr.len() && off as int + hdr[off as int + 1] as int <= hdr.len())
}

/// Length byte of the option at offset `off` (0 when the option is absent).
pub open spec fn option_len(hdr: Seq<u8>, off: u8) -> int {
    if off == 0 { 0 } else { hdr[off as int + 1] as int }
}

/// Pointer byte of the option at offset `off`.
pub open spec fn option_ptr(hdr: Seq<u8>, off: u8) -> int {
    hdr[off as int + 2] as int
}

/// The record-route option as echoed: copied, with its pointer advanced past
/// one address slot when the receiver must fill in its address.
pub open spec fn echo_rr_piece(hdr: Seq<u8>, sopt: ip_options) -> Seq<u8> {
    if sopt.rr == 0 {
        Seq::empty()
    } else {
        let len = option_len(hdr, sopt.rr);
        let so = option_ptr(hdr, sopt.rr);
        let b = hdr.subrange(sopt.rr as int, sopt.rr as int + len);
        if sopt.rr_needaddr != 0 && so <= len {
            b.update(2, (so + 4) as u8)
        } else {
            b
        }
    }
}

/// The timestamp option as echoed: copied unchanged.
pub open spec fn echo_ts_piece(hdr: Seq<u8>, sopt: ip_options) -> Seq<u8> {
    if sopt.ts == 0 {
        Seq::empty()
    } else {
        hdr.subrange(sopt.ts as int, sopt.ts as int + option_len(hdr, sopt.ts))
    }
}

/// The record-route option asks for an address slot that does not fit.
pub open spec fn echo_rr_fails(hdr: Seq<u8>, sopt: ip_options) -> bool {
    sopt.rr != 0 && sopt.rr_needaddr != 0 && option_ptr(hdr, sopt.rr) <= option_len(hdr, sopt.rr)
        && option_ptr(hdr, sopt.rr) + 3 > option_len(hdr, sopt.rr)
}

/// The timestamp option asks for an address slot that does not fit.
pub open spec fn echo_ts_fails(hdr: Seq<u8>, sopt: ip_options) -> bool {
    sopt.ts != 0 && sopt.ts_needaddr != 0 && option_ptr(hdr, sopt.ts) <= option_len(hdr, sopt.ts)
        && option_ptr(hdr, sopt.ts) + 3 > option_len(hdr, sopt.ts)
}

/// `n` rounded up to a multiple of four.
pub open spec fn round4(n: int) -> int {
    if n % 4 == 0 { n } else { n + 4 - n % 4 }
}

/// Build in `dopt` the options of a reply to a packet whose header bytes are
/// `hdr` and whose parsed options are `sopt`: the record-route and timestamp
/// options are copied (the record-route pointer is advanced when an address
/// is to be recorded), and the result is padded with end-of-list bytes to a
/// multiple of four. Returns `EINVAL` when an option asks for an address slot
/// that does not fit, and 0 otherwise.
pub fn __ip_options_echo(dopt: &mut ip_options, hdr: &Vec<u8>, sopt: &ip_options) -> (ret: i32)
    requires
        option_in_bounds(hdr@, sopt.rr),
        option_in_bounds(hdr@, sopt.ts),
        option_len(hdr@, sopt.rr) + option_len(hdr@, sopt.ts) <= IP_OPTIONS_MAX,
    ensures
        sopt.optlen == 0 ==> ret == 0 && final(dopt).optlen == 0
            && final(dopt).__data@ == Seq::new(IP_OPTIONS_MAX as nat, |k: int| 0u8)
            && final(dopt).faddr == 0 && final(dopt).srr == 0 && final(dopt).rr == 0 && final(dopt).ts == 0
            && final(dopt).cipso == 0 && final(dopt).is_strictroute == 0 && final(dopt).rr_needaddr == 0
            && final(dopt).ts_needaddr == 0 && final(dopt).ts_needtime == 0,
        sopt.optlen != 0 ==> (ret == EINVAL <==> (echo_rr_fails(hdr@, *sopt) || echo_ts_fails(hdr@, *sopt))),
        sopt.optlen != 0 ==> (ret == 0 <==> !(echo_rr_fails(hdr@, *sopt) || echo_ts_fails(hdr@, *sopt))),
        ret == 0 && sopt.optlen != 0 ==> ({
            let body = echo_rr_piece(hdr@, *sopt) + echo_ts_piece(hdr@, *sopt);
            &&& final(dopt).optlen as int == round4(body.len() as int)
            &&& final(dopt).__data@ == body + Seq::new((IP_OPTIONS_MAX - body.len()) as nat, |k: int| 0u8)
            &&& final(dopt).rr == (if sopt.rr != 0 { IPHDR_LEN } else { 0 })
            &&& final(dopt).ts == (if sopt.ts != 0 { (IPHDR_LEN + echo_rr_piece(hdr@, *sopt).len()) as u8 } else { 0 })
            &&& final(dopt).rr_needaddr == (if sopt.rr != 0 && sopt.rr_needaddr != 0
                && option_ptr(hdr@, sopt.rr) <= option_len(hdr@, sopt.rr) { 1u8 } else { 0u8 })
            &&& final(dopt).ts_needaddr == (if sopt.ts != 0 && sopt.ts_needaddr != 0
                && option_ptr(hdr@, sopt.ts) <= option_len(hdr@, sopt.ts) { 1u8 } else { 0u8 })
            &&& final(dopt).srr == 0 && final(dopt).cipso == 0 && final(dopt).ts_needtime == 0
            &&& final(dopt).is_strictroute == 0 && final(dopt).faddr == 0
        }),
{
    let mut data: Vec<u8> = Vec::new();
    dopt.optlen = 0;
    dopt.faddr = 0;
    dopt.srr = 0;
    dopt.rr = 0;
    dopt.ts = 0;
    dopt.cipso = 0;
    dopt.is_strictroute = 0;
    dopt.rr_needaddr = 0;
    dopt.ts_needaddr = 0;
    dopt.ts_needtime = 0;
    if sopt.optlen == 0 {
        fill_zeros(&mut data);
        dopt.__data = data;
        return 0;
    }
    if sopt.rr != 0 {
        let start = sopt.rr as usize;
        let optlen = hdr[start + 1] as usize;
        let soffset = hdr[start + 2] as usize;
        dopt.rr = dopt.optlen + IPHDR_LEN;
        copy_bytes(&mut data, hdr, start, optlen);
        if sopt.rr_needaddr != 0 && soffset <= optlen {
            if soffset + 3 > optlen {
                fill_zeros(&mut data);
                dopt.__data = data;
                return EINVAL;
            }
            data.set(2, (soffset + 4) as u8);
            dopt.rr_needaddr = 1;
        }
        dopt.optlen = dopt.optlen + optlen as u8;
    }
    let ghost rr_piece = data@;
    assert(rr_piece == echo_rr_piece(hdr@, *sopt));
    if sopt.ts != 0 {
        let start = sopt.ts as usize;
        let optlen = hdr[start + 1] as usize;
        let soffset = hdr[start + 2] as usize;
        dopt.ts = dopt.optlen + IPHDR_LEN;
        copy_bytes(&mut data, hdr, start, optlen);
        if soffset <= optlen && sopt.ts_needaddr != 0 {
            if soffset + 3 > optlen {
                fill_zeros(&mut data);
                dopt.__data = data;
                return EINVAL;
            }
            dopt.ts_needaddr = 1;
        }
        dopt.optlen = dopt.optlen + optlen as u8;
    }
    assert(data@ == echo_rr_piece(hdr@, *sopt) + echo_ts_piece(hdr@, *sopt));
    let mut ol: u8 = dopt.optlen;
    assert(ol as int == data@.len());
    while ol & 3 != 0
        invariant
            ol as int <= IP_OPTIONS_MAX,
            ol as int >= data@.len() as int,
            ol as int <= round4(data@.len() as int),
            data@.len() <= IP_OPTIONS_MAX,
            (ol as int - data@.len() as int) < 4,
            (ol as int) % 4 == 0 ==> ol as int == round4(data@.len() as int),
        decreases IP_OPTIONS_MAX - ol,
    {
        assert(ol & 3 != 0 ==> ol % 4 != 0) by (bit_vector);
        ol = ol + 1;
    }
    assert(ol & 3 == 0 ==> ol % 4 == 0) by (bit_vector);
    dopt.optlen = ol;
    fill_zeros(&mut data);
    dopt.__data = data;
    0
}

/// Append `hdr[start .. start + len]` to `data`.
fn copy_bytes(data: &mut Vec<u8>, hdr: &Vec<u8>, start: usize, len: usize)
    requires
        start + len <= hdr@.len(),
        old(data)@.len() + len <= IP_OPTIONS_MAX,
    ensures
        final(data)@ == old(data)@ + hdr@.subrange(start as int, start + len),
{
    let mut k: usize = 0;
    while k < len
        invariant
            k <= len,
            start + len <= hdr.len(),
            data@ == old(data)@ + hdr@.subrange(start as int, start + k),
        decreases len - k,
    {
        data.push(hdr[start + k]);
        assert(hdr@.subrange(start as int, start + k + 1) =~= hdr@.subrange(start as int, start + k).push(hdr@[start + k]));
        k = k + 1;
    }
}

/// Pad `data` with zero bytes up to the size of the option area.
fn fill_zeros(data: &mut Vec<u8>)
    requires
        old(data)@.len() <= IP_OPTIONS_MAX,
    ensures
        final(data)@ == old(data)@ + Seq::new((IP_OPTIONS_MAX - old(data)@.len()) as nat, |k: int| 0u8),
{
    let ghost d0 = data@;
    while data.len() < IP_OPTIONS_MAX
        invariant
            d0.len() <= data@.len() <= IP_OPTIONS_MAX,
            data@ == d0 + Seq::new((data@.len() - d0.len()) as nat, |k: int| 0u8),
        decreases IP_OPTIONS_MAX - data@.len(),
    {
        data.push(0);
        assert(d0 + Seq::new((data@.len() - d0.len()) as nat, |k: int| 0u8) =~= data@);
    }
}


// ---------------------------------------------------------------------------
// Writing options into an outgoing header
// ---------------------------------------------------------------------------

/// The four bytes of `v` in network (big-endian) order.
pub open spec fn be32_bytes(v: u32) -> Seq<u8> {
    seq![(v / 0x100_0000) as u8, ((v / 0x1_0000) % 0x100) as u8, ((v / 0x100) % 0x100) as u8, (v % 0x100) as u8]
}

/// `s` with the four bytes at `at` replaced by `v` in network order, or
/// `None` when they do not fit.
pub open spec fn put_be32(s: Seq<u8>, at: int, v: u32) -> Option<Seq<u8>> {
    if 0 <= at && at + 4 <= s.len() {
        Some(Seq::new(s.len(), |k: int| if at <= k < at + 4 { be32_bytes(v)[k - at] } else { s[k] }))
    } else {
        None
    }
}

/// `s` with the option bytes of `opt` copied after the fixed header.
pub open spec fn put_options(s: Seq<u8>, opt: ip_options) -> Option<Seq<u8>> {
    if IPHDR_LEN as int + opt.optlen as int <= s.len() && opt.optlen as int <= opt.__data@.len() {
        Some(Seq::new(s.len(), |k: int| if IPHDR_LEN as int <= k < IPHDR_LEN as int + opt.optlen as int {
            opt.__data@[k - IPHDR_LEN as int]
        } else {
            s[k]
        }))
    } else {
        None
    }
}

/// Byte `i` of `s`, or 0 outside of it.
pub open spec fn byte_at(s: Seq<u8>, i: int) -> int {
    if 0 <= i < s.len() { s[i] as int } else { 0 }
}

pub open spec fn opt_then(s: Option<Seq<u8>>, f: spec_fn(Seq<u8>) -> Option<Seq<u8>>) -> Option<Seq<u8>> {
    match s {
        Some(x) => f(x),
        None => None,
    }
}

/// The header produced by writing `opt` into `hdr`: the option bytes are
/// copied after the fixed header, the final destination `daddr` is stored in
/// the last slot of a source route, and, unless the packet is a fragment, the
/// outgoing source address `src` and the timestamp `midtime` are stored in
/// the slots that the record-route and timestamp options point to. `None`
/// when a slot falls outside the header.
pub open spec fn options_built(hdr: Seq<u8>, opt: ip_options, daddr: u32, src: u32, midtime: u32, is_frag: bool) -> Option<Seq<u8>> {
    let s1 = put_options(hdr, opt);
    let s2 = opt_then(s1, |s: Seq<u8>| if opt.srr != 0 {
        put_be32(s, opt.srr as int + byte_at(s, opt.srr as int + 1) - 4, daddr)
    } else {
        Some(s)
    });
    if is_frag {
        s2
    } else {
        let s3 = opt_then(s2, |s: Seq<u8>| if opt.rr_needaddr != 0 {
            put_be32(s, opt.rr as int + byte_at(s, opt.rr as int + 2) - 5, src)
        } else {
            Some(s)
        });
        let s4 = opt_then(s3, |s: Seq<u8>| if opt.ts_needaddr != 0 {
            put_be32(s, opt.ts as int + byte_at(s, opt.ts as int + 2) - 9, src)
        } else {
            Some(s)
        });
        opt_then(s4, |s: Seq<u8>| if opt.ts_needtime != 0 {
            put_be32(s, opt.ts as int + byte_at(s, opt.ts as int + 2) - 5, midtime)
        } else {
            Some(s)
        })
    }
}

/// Writing the options keeps the header's length.
pub proof fn lemma_options_built_len(hdr: Seq<u8>, opt: ip_options, daddr: u32, src: u32, midtime: u32, is_frag: bool)
    ensures
        options_built(hdr, opt, daddr, src, midtime, is_frag) matches Some(s) ==> s.len() == hdr.len(),
{
}

/// Store `v` in network order at `hdr[at .. at + 4]`.
fn write_be32(hdr: &mut Vec<u8>, at: usize, v: u32)
    requires
        at + 4 <= old(hdr).len(),
    ensures
        Some(final(hdr)@) == put_be32(old(hdr)@, at as int, v),
{
    hdr.set(at, (v / 0x100_0000) as u8);
    hdr.set(at + 1, ((v / 0x1_0000) % 0x100) as u8);
    hdr.set(at + 2, ((v / 0x100) % 0x100) as u8);
    hdr.set(at + 3, (v % 0x100) as u8);
    assert(hdr@ =~= put_be32(old(hdr)@, at as int, v).unwrap());
}

/// Slot position `base + hdr[ptr_at] - back` inside `hdr`, if any.
fn slot_at(hdr: &Vec<u8>, base: u8, ptr_at: usize, back: usize) -> (r: Option<usize>)
    ensures
        r matches Some(p) ==> p as int == base as int + byte_at(hdr@, ptr_at as int) - back as int
            && p + 4 <= hdr@.len(),
        r is None ==> !(0 <= base as int + byte_at(hdr@, ptr_at as int) - back as int
            && base as int + byte_at(hdr@, ptr_at as int) - back as int + 4 <= hdr@.len()),
{
    let b: usize = if ptr_at < hdr.len() { hdr[ptr_at] as usize } else { 0 };
    let p: usize = base as usize + b;
    if p < back {
        return None;
    }
    let q = p - back;
    if q > hdr.len() || hdr.len() - q < 4 {
        return None;
    }
    Some(q)
}

/// A copy of `opt`.
fn copy_options(opt: &ip_options) -> (r: ip_options)
    ensures
        r.__data@ == opt.__data@,
        r.optlen == opt.optlen && r.faddr == opt.faddr && r.srr == opt.srr && r.rr == opt.rr && r.ts == opt.ts
            && r.cipso == opt.cipso && r.is_strictroute == opt.is_strictroute && r.rr_needaddr == opt.rr_needaddr
            && r.ts_needaddr == opt.ts_needaddr && r.ts_needtime == opt.ts_needtime,
{
    let mut data: Vec<u8> = Vec::new();
    let mut k: usize = 0;
    while k < opt.__data.len()
        invariant
            k <= opt.__data.len(),
            data@ == opt.__data@.subrange(0, k as int),
        decreases opt.__data.len() - k,
    {
        data.push(opt.__data[k]);
        k = k + 1;
        assert(data@ =~= opt.__data@.subrange(0, k as int));
    }
    assert(data@ =~= opt.__data@);
    ip_options {
        optlen: opt.optlen,
        __data: data,
        faddr: opt.faddr,
        srr: opt.srr,
        rr: opt.rr,
        ts: opt.ts,
        cipso: opt.cipso,
        is_strictroute: opt.is_strictroute,
        rr_needaddr: opt.rr_needaddr,
        ts_needaddr: opt.ts_needaddr,
        ts_needtime: opt.ts_needtime,
    }
}

/// Write the options `opt` into the outgoing header `hdr` (see
/// `options_built`), after copying them into the packet's control block
/// `cb_opt`, which happens whatever follows. `src` is the source address chosen for the route and
/// `midtime` the current time in milliseconds since midnight, both supplied
/// by the caller. Returns `false`, leaving `hdr` unspecified, when a slot
/// falls outside the header.
pub fn ip_options_build(hdr: &mut Vec<u8>, cb_opt: &mut ip_options, opt: &ip_options, daddr: u32, src: u32, midtime: u32, is_frag: bool) -> (ok: bool)
    ensures
        ok <==> options_built(old(hdr)@, *opt, daddr, src, midtime, is_frag) is Some,
        ok ==> Some(final(hdr)@) == options_built(old(hdr)@, *opt, daddr, src, midtime, is_frag),
        final(cb_opt).__data@ == opt.__data@,
        final(cb_opt).optlen == opt.optlen && final(cb_opt).faddr == opt.faddr && final(cb_opt).srr == opt.srr
            && final(cb_opt).rr == opt.rr && final(cb_opt).ts == opt.ts && final(cb_opt).cipso == opt.cipso
            && final(cb_opt).is_strictroute == opt.is_strictroute && final(cb_opt).rr_needaddr == opt.rr_needaddr
            && final(cb_opt).ts_needaddr == opt.ts_needaddr && final(cb_opt).ts_needtime == opt.ts_needtime,
{
    *cb_opt = copy_options(opt);
    let ghost h0 = hdr@;
    let n = opt.optlen as usize;
    if n > opt.__data.len() || hdr.len() < 20 || hdr.len() - 20 < n {
        return false;
    }
    let mut k: usize = 0;
    while k < n
        invariant
            k <= n,
            n <= opt.__data@.len(),
            20 + n <= hdr@.len(),
            n == opt.optlen as usize,
            hdr@.len() == h0.len(),
            forall|j: int| 0 <= j < hdr@.len() ==> #[trigger] hdr@[j] == (if 20 <= j < 20 + k {
                opt.__data@[j - 20]
            } else {
                h0[j]
            }),
        decreases n - k,
    {
        hdr.set(20 + k, opt.__data[k]);
        k = k + 1;
    }
    assert(Some(hdr@) == put_options(h0, *opt)) by {
        assert(hdr@ =~= put_options(h0, *opt).unwrap());
    }
    let ghost s1 = hdr@;
    if opt.srr != 0 {
        match slot_at(hdr, opt.srr, opt.srr as usize + 1, 4) {
            Some(p) => write_be32(hdr, p, daddr),
            None => return false,
        }
    }
    let ghost s2 = hdr@;
    assert(Some(s2) == opt_then(Some(s1), |s: Seq<u8>| if opt.srr != 0 {
        put_be32(s, opt.srr as int + byte_at(s, opt.srr as int + 1) - 4, daddr)
    } else {
        Some(s)
    }));
    if is_frag {
        return true;
    }
    if opt.rr_needaddr != 0 {
        match slot_at(hdr, opt.rr, opt.rr as usize + 2, 5) {
            Some(p) => write_be32(hdr, p, src),
            None => return false,
        }
    }
    let ghost s3 = hdr@;
    assert(Some(s3) == opt_then(Some(s2), |s: Seq<u8>| if opt.rr_needaddr != 0 {
        put_be32(s, opt.rr as int + byte_at(s, opt.rr as int + 2) - 5, src)
    } else {
        Some(s)
    }));
    if opt.ts_needaddr != 0 {
        match slot_at(hdr, opt.ts, opt.ts as usize + 2, 9) {
            Some(p) => write_be32(hdr, p, src),
            None => return false,
        }
    }
    let ghost s4 = hdr@;
    assert(Some(s4) == opt_then(Some(s3), |s: Seq<u8>| if opt.ts_needaddr != 0 {
        put_be32(s, opt.ts as int + byte_at(s, opt.ts as int + 2) - 9, src)
    } else {
        Some(s)
    }));
    if opt.ts_needtime != 0 {
        match slot_at(hdr, opt.ts, opt.ts as usize + 2, 5) {
            Some(p) => write_be32(hdr, p, midtime),
            None => return false,
        }
    }
    true
}

} // verus!
