//! GRE demultiplexing: parsing the GRE header and dispatching packets to the
//! handler registered for the GRE version.
use vstd::prelude::*;

verus! {

pub const EINVAL: i32 = -22;
pub const EBUSY: i32 = -16;
pub const ENOSYS: i32 = -38;
/// Number of GRE versions that can have a handler.
pub const GREPROTO_MAX: u8 = 16;
pub const NET_RX_DROP: i32 = 1;

/// GRE header flag bits, as the flags word reads.
pub const GRE_CSUM: u16 = 0x0001;
pub const GRE_KEY: u16 = 0x0002;
pub const GRE_SEQ: u16 = 0x0004;
/// Flag bits a header must not have.
pub const GRE_BAD_FLAGS: u16 = 0x8080;

/// Tunnel flags reported to the handlers.
pub const TUNNEL_CSUM: u16 = 0x01;
pub const TUNNEL_KEY: u16 = 0x04;
pub const TUNNEL_SEQ: u16 = 0x08;

/// Protocol words the parser treats specially: WCCP, and the two ERSPAN
/// forms.
pub const GRE_PROTO_WCCP: u16 = 0x204C;
pub const GRE_PROTO_ERSPAN: u16 = 0x22F3;
pub const GRE_PROTO_ERSPAN2: u16 = 0x22F4;

/// Link protocols of ERSPAN traffic.
pub const ETH_P_ERSPAN: u16 = 0x88BE;
pub const ETH_P_ERSPAN2: u16 = 0x22EB;

/// The fixed part of a GRE header (host order).
pub struct gre_base_hdr {
    pub flags: u16,
    pub protocol: u16,
}

/// What the parser reports about a tunnelled packet.
pub struct tnl_ptk_info {
    pub flags: u16,
    pub key: u32,
    pub seq: u32,
    pub proto: u16,
    pub hdr_len: u16,
}

/// A registered GRE handler, named by the identifiers of its receive and
/// error routines.
#[derive(PartialEq, Eq, Structural, Clone, Copy)]
pub struct gre_protocol {
    pub handler: u64,
    pub err_handler: u64,
}

// ---------------------------------------------------------------------------
// Header parsing
// ---------------------------------------------------------------------------

/// The big-endian 16-bit value at `at`.
pub open spec fn be16_at(p: Seq<u8>, at: int) -> u16 {
    (p[at] as int * 256 + p[at + 1] as int) as u16
}

/// The big-endian 32-bit value at `at`.
pub open spec fn be32_at(p: Seq<u8>, at: int) -> u32 {
    (p[at] as int * 0x100_0000 + p[at + 1] as int * 0x1_0000 + p[at + 2] as int * 0x100 + p[at + 3] as int) as u32
}

/// Length of a GRE header with the given flags: four bytes, plus four for
/// each of checksum, key and sequence number.
pub open spec fn gre_hlen(flags: u16) -> int {
    4 + (if flags & GRE_CSUM != 0 { 4int } else { 0 }) + (if flags & GRE_KEY != 0 { 4int } else { 0 })
        + (if flags & GRE_SEQ != 0 { 4int } else { 0 })
}

/// The tunnel flags for GRE header flags.
pub open spec fn gre_tnl_flags(flags: u16) -> u16 {
    ((if flags & GRE_CSUM != 0 { TUNNEL_CSUM } else { 0 }) | (if flags & GRE_KEY != 0 { TUNNEL_KEY } else { 0 })
        | (if flags & GRE_SEQ != 0 { TUNNEL_SEQ } else { 0 }))
}

/// Offset of the key field.
pub open spec fn key_off(flags: u16) -> int {
    4 + (if flags & GRE_CSUM != 0 { 4int } else { 0 })
}

/// Offset of the sequence-number field.
pub open spec fn seq_off(flags: u16) -> int {
    key_off(flags) + (if flags & GRE_KEY != 0 { 4int } else { 0 })
}

/// The outcome of parsing the GRE header at offset `nhs` of `p`: `Err(c)`
/// when the header is malformed (`c` tells whether it was the checksum and
/// the caller asked to hear of it), else the information and header length.
pub open spec fn gre_parsed(p: Seq<u8>, nhs: int, proto: u16, csum_ok: bool, report_csum: bool) -> Result<tnl_ptk_info, bool> {
    if p.len() < nhs + 4 {
        Err(false)
    } else {
        let flags = be16_at(p, nhs);
        let protocol = be16_at(p, nhs + 2);
        let hlen = gre_hlen(flags);
        if flags & GRE_BAD_FLAGS != 0 || p.len() < nhs + hlen {
            Err(false)
        } else if flags & GRE_CSUM != 0 && !csum_ok && report_csum {
            Err(true)
        } else {
            let key = if flags & GRE_KEY != 0 { be32_at(p, nhs + key_off(flags)) } else { 0 };
            let seq = if flags & GRE_SEQ != 0 { be32_at(p, nhs + seq_off(flags)) } else { 0 };
            let wccp = flags == 0 && protocol == GRE_PROTO_WCCP;
            if wccp && p.len() < nhs + hlen + 1 {
                Err(false)
            } else {
                let hlen2 = if wccp && p[nhs + hlen] & 0xF0 != 0x40 { hlen + 4 } else { hlen };
                let proto2 = if wccp { proto } else { protocol };
                let erspan = (protocol == GRE_PROTO_ERSPAN && hlen2 != 4) || protocol == GRE_PROTO_ERSPAN2;
                if erspan && p.len() < nhs + hlen2 + 4 {
                    Err(false)
                } else {
                    let key2 = if erspan { (be16_at(p, nhs + hlen2 + 2) & 0x3ff) as u32 } else { key };
                    Ok(tnl_ptk_info { flags: gre_tnl_flags(flags), key: key2, seq, proto: proto2, hdr_len: hlen2 as u16 })
                }
            }
        }
    }
}

fn read_be16(p: &Vec<u8>, at: usize) -> (r: u16)
    requires
        at + 2 <= p.len(),
    ensures
        r == be16_at(p@, at as int),
{
    (p[at] as u16) * 256 + p[at + 1] as u16
}

pub(crate) fn read_be32(p: &Vec<u8>, at: usize) -> (r: u32)
    requires
        at + 4 <= p.len(),
    ensures
        r == be32_at(p@, at as int),
{
    (p[at] as u32) * 0x100_0000 + (p[at + 1] as u32) * 0x1_0000 + (p[at + 2] as u32) * 0x100 + p[at + 3] as u32
}

/// Parse the GRE header at offset `nhs` of the packet `pkt` into `tpi`,
/// returning the header length, or `EINVAL` for a malformed header: one cut
/// short, or whose flags word (its first two bytes, read big-endian) has a
/// bit of `GRE_BAD_FLAGS`. The checksum, when present, is judged by the caller (`csum_ok`); a bad one is
/// an error, with `csum_err` set, only when `report_csum` is given.
pub fn gre_parse_header(pkt: &Vec<u8>, tpi: &mut tnl_ptk_info, csum_err: &mut bool, report_csum: bool, proto: u16, nhs: usize, csum_ok: bool) -> (ret: i32)
    requires
        nhs + 64 <= usize::MAX,
    ensures
        match gre_parsed(pkt@, nhs as int, proto, csum_ok, report_csum) {
            Ok(info) => ret == info.hdr_len && *final(tpi) == info && *final(csum_err) == *old(csum_err),
            Err(c) => ret == EINVAL && *final(csum_err) == (c || *old(csum_err)),
        },
{
    if pkt.len() < nhs + 4 {
        return EINVAL;
    }
    let flags = read_be16(pkt, nhs);
    let protocol = read_be16(pkt, nhs + 2);
    if flags & GRE_BAD_FLAGS != 0 {
        return EINVAL;
    }
    let mut hdr_len: usize = 4;
    if flags & GRE_CSUM != 0 { hdr_len = hdr_len + 4; }
    if flags & GRE_KEY != 0 { hdr_len = hdr_len + 4; }
    if flags & GRE_SEQ != 0 { hdr_len = hdr_len + 4; }
    if pkt.len() < nhs + hdr_len {
        return EINVAL;
    }
    let tflags: u16 = (if flags & GRE_CSUM != 0 { TUNNEL_CSUM } else { 0 }) | (if flags & GRE_KEY != 0 { TUNNEL_KEY } else { 0 })
        | (if flags & GRE_SEQ != 0 { TUNNEL_SEQ } else { 0 });
    let mut opt: usize = nhs + 4;
    if flags & GRE_CSUM != 0 {
        if !csum_ok && report_csum {
            *csum_err = true;
            return EINVAL;
        }
        opt = opt + 4;
    }
    let key: u32 = if flags & GRE_KEY != 0 {
        let k = read_be32(pkt, opt);
        opt = opt + 4;
        k
    } else {
        0
    };
    let seq: u32 = if flags & GRE_SEQ != 0 { read_be32(pkt, opt) } else { 0 };
    let mut out_proto = protocol;
    if flags == 0 && protocol == GRE_PROTO_WCCP {
        if pkt.len() < nhs + hdr_len + 1 {
            return EINVAL;
        }
        let val = pkt[nhs + hdr_len];
        out_proto = proto;
        if val & 0xF0 != 0x40 {
            hdr_len = hdr_len + 4;
        }
    }
    let mut out_key = key;
    if (protocol == GRE_PROTO_ERSPAN && hdr_len != 4) || protocol == GRE_PROTO_ERSPAN2 {
        if pkt.len() < nhs + hdr_len + 4 {
            return EINVAL;
        }
        let session = read_be16(pkt, nhs + hdr_len + 2) & 0x3ff;
        out_key = session as u32;
    }
    *tpi = tnl_ptk_info { flags: tflags, key: out_key, seq, proto: out_proto, hdr_len: hdr_len as u16 };
    hdr_len as i32
}

// ---------------------------------------------------------------------------
// Handler registry
// ---------------------------------------------------------------------------

/// The handler registered for each GRE version.
pub struct gre_registry {
    pub slots: Vec<Option<gre_protocol>>,
}

impl gre_registry {
    /// One slot per GRE version.
    pub open spec fn wf(&self) -> bool {
        self.slots.len() == GREPROTO_MAX
    }

    /// A registry with no handler.
    pub fn new() -> (r: gre_registry)
        ensures
            r.wf(),
            forall|v: int| 0 <= v < GREPROTO_MAX ==> r.slots@[v] is None,
    {
        let mut slots: Vec<Option<gre_protocol>> = Vec::new();
        while slots.len() < 16
            invariant
                slots.len() <= 16,
                forall|v: int| 0 <= v < slots.len() ==> slots@[v] is None,
            decreases 16 - slots.len(),
        {
            slots.push(None);
        }
        gre_registry { slots }
    }
}

/// Register `proto` for GRE version `version`: `EINVAL` for a version out of
/// range, `EBUSY` when the version already has a handler, else 0.
pub fn gre_add_protocol(reg: &mut gre_registry, proto: gre_protocol, version: u8) -> (ret: i32)
    requires
        old(reg).wf(),
    ensures
        final(reg).wf(),
        version >= GREPROTO_MAX ==> ret == EINVAL && final(reg).slots@ == old(reg).slots@,
        version < GREPROTO_MAX && old(reg).slots@[version as int] is Some ==> ret == EBUSY
            && final(reg).slots@ == old(reg).slots@,
        version < GREPROTO_MAX && old(reg).slots@[version as int] is None ==> ret == 0
            && final(reg).slots@ == old(reg).slots@.update(version as int, Some(proto)),
{
    if version >= GREPROTO_MAX {
        return EINVAL;
    }
    let v = version as usize;
    if reg.slots[v].is_some() {
        return EBUSY;
    }
    reg.slots.set(v, Some(proto));
    0
}

/// Remove `proto` from GRE version `version`: `EINVAL` for a version out of
/// range, `EBUSY` when `proto` is not the handler registered there, else 0.
pub fn gre_del_protocol(reg: &mut gre_registry, proto: gre_protocol, version: u8) -> (ret: i32)
    requires
        old(reg).wf(),
    ensures
        final(reg).wf(),
        version >= GREPROTO_MAX ==> ret == EINVAL && final(reg).slots@ == old(reg).slots@,
        version < GREPROTO_MAX && old(reg).slots@[version as int] != Some(proto) ==> ret == EBUSY
            && final(reg).slots@ == old(reg).slots@,
        version < GREPROTO_MAX && old(reg).slots@[version as int] == Some(proto) ==> ret == 0
            && final(reg).slots@ == old(reg).slots@.update(version as int, None),
{
    if version >= GREPROTO_MAX {
        return EINVAL;
    }
    let v = version as usize;
    let registered = match reg.slots[v] {
        Some(p) => p == proto,
        None => false,
    };
    if !registered {
        return EBUSY;
    }
    reg.slots.set(v, None);
    0
}

/// Registering a handler on a free version and removing it again leaves the
/// registry as it was; a second registration on the same version is refused.
pub proof fn gre_add_del_roundtrip(before: Seq<Option<gre_protocol>>, proto: gre_protocol, version: u8)
    requires
        before.len() == GREPROTO_MAX,
        version < GREPROTO_MAX,
        before[version as int] is None,
    ensures
        before.update(version as int, Some(proto)).update(version as int, None) == before,
        before.update(version as int, Some(proto))[version as int] is Some,
{
    assert(before.update(version as int, Some(proto)).update(version as int, None) =~= before);
}

/// Where a received GRE packet goes.
pub enum GreVerdict {
    /// Dropped (`NET_RX_DROP`).
    Drop,
    /// Handed to the receive routine of the registered handler.
    Deliver(u64),
}

/// Dispatch a received GRE packet (`pkt` starts at the GRE header) on its
/// version, the low seven bits of its second byte.
pub fn gre_rcv(reg: &gre_registry, pkt: &Vec<u8>) -> (r: GreVerdict)
    requires
        reg.wf(),
    ensures
        pkt.len() < 12 ==> r is Drop,
        pkt.len() >= 12 ==> {
            let ver = pkt@[1] & 0x7f;
            if ver >= GREPROTO_MAX {
                r is Drop
            } else {
                match reg.slots@[ver as int] {
                    Some(p) => r == GreVerdict::Deliver(p.handler),
                    None => r is Drop,
                }
            }
        },
{
    if pkt.len() < 12 {
        return GreVerdict::Drop;
    }
    let ver = pkt[1] & 0x7f;
    if ver >= GREPROTO_MAX {
        return GreVerdict::Drop;
    }
    match reg.slots[ver as usize] {
        Some(p) => GreVerdict::Deliver(p.handler),
        None => GreVerdict::Drop,
    }
}

/// Dispatch an ICMP error about a GRE packet. `pkt` starts at the quoted IP
/// header; the GRE version sits in the second byte after the IP header,
/// whose length in words is the low four bits of the first byte. Returns
/// `EINVAL` for an unknown version, `ENOSYS` when no handler is registered,
/// else 0 together with the error routine to call.
pub fn gre_err(reg: &gre_registry, pkt: &Vec<u8>) -> (r: (i32, Option<u64>))
    requires
        reg.wf(),
    ensures
        ({
            let at = (if pkt@.len() > 0 { (pkt@[0] & 0x0f) as int * 4 } else { 0 }) + 1;
            if pkt@.len() == 0 || at >= pkt@.len() {
                r == (EINVAL, None::<u64>)
            } else {
                let ver = pkt@[at] & 0x7f;
                if ver >= GREPROTO_MAX {
                    r == (EINVAL, None::<u64>)
                } else {
                    match reg.slots@[ver as int] {
                        Some(p) => r == (0i32, Some(p.err_handler)),
                        None => r == (ENOSYS, None::<u64>),
                    }
                }
            }
        }),
{
    if pkt.len() == 0 {
        return (EINVAL, None);
    }
    let at: usize = ((pkt[0] & 0x0f) as usize) * 4 + 1;
    if at >= pkt.len() {
        return (EINVAL, None);
    }
    let ver = pkt[at] & 0x7f;
    if ver >= GREPROTO_MAX {
        return (EINVAL, None);
    }
    match reg.slots[ver as usize] {
        Some(p) => (0, Some(p.err_handler)),
        None => (ENOSYS, None),
    }
}

} // verus!
