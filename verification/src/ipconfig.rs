//! Automatic IP configuration at boot: choosing the network devices to
//! configure, comparing device names, and bringing unused devices down.
use vstd::prelude::*;

verus! {

pub const NONE: u32 = 0;
pub const ANY: u32 = 0;
pub const IFF_UP: i32 = 0x1;
pub const IFF_BROADCAST: i32 = 0x2;
pub const IFF_LOOPBACK: i32 = 0x10;
pub const IFF_NOARP: i32 = 0x800;
pub const IFF_POINTOPOINT: i32 = 0x2000;
pub const EINVAL: i32 = -22;
pub const ENOMEM: i32 = -12;
pub const ENODEV: i32 = -19;
pub const IC_BOOTP: i32 = 1;
pub const IC_RARP: i32 = 2;
pub const IC_USE_DHCP: i32 = 4;
/// Smallest MTU with which BOOTP/DHCP can run.
pub const BOOTP_MIN_MTU: i32 = 364;
/// Seed of the generator that produces transaction identifiers.
pub const XID_SEED: u32 = 123456789;
pub const AF_INET: i32 = 2;

pub struct in_addr {
    pub s_addr: u32,
}

pub struct sockaddr_in {
    pub sin_family: i32,
    pub sin_port: u16,
    pub sin_addr: in_addr,
    pub sin_zero: [u8; 8],
}

/// A network device as seen by the configuration code. `name` holds the
/// device name as a NUL-terminated byte string.
pub struct net_device {
    pub flags: i32,
    pub name: Vec<u8>,
    pub mtu: i32,
}

/// A device chosen for configuration: `dev` is its position in the device
/// list, `flags` the flags it had before it was opened, `able` the protocols
/// that may run on it and `xid` the BOOTP transaction identifier.
pub struct ic_device {
    pub dev: usize,
    pub flags: i32,
    pub able: i32,
    pub xid: u32,
}

// ---------------------------------------------------------------------------
// Byte-string comparison
// ---------------------------------------------------------------------------

/// Byte `i` of a NUL-terminated string held in `s`; positions past the end
/// of `s` read as the terminating NUL.
pub open spec fn str_byte(s: Seq<u8>, i: int) -> u8 {
    if 0 <= i < s.len() { s[i] } else { 0 }
}

/// The difference of two bytes as unsigned 8-bit arithmetic.
pub open spec fn byte_diff(c1: u8, c2: u8) -> i32 {
    (if c1 >= c2 { c1 - c2 } else { c1 + 256 - c2 }) as i32
}

/// Compare the strings from position `i` on, at most `n - i` bytes.
pub open spec fn str_compare_from(s1: Seq<u8>, s2: Seq<u8>, i: int, n: int) -> i32
    decreases n - i,
{
    if i >= n {
        0
    } else if str_byte(s1, i) != str_byte(s2, i) {
        byte_diff(str_byte(s1, i), str_byte(s2, i))
    } else if str_byte(s1, i) == 0 {
        0
    } else {
        str_compare_from(s1, s2, i + 1, n)
    }
}

/// Compare two NUL-terminated strings: 0 when equal, otherwise the unsigned
/// 8-bit difference of the first bytes that differ.
pub open spec fn spec_str_compare(s1: Seq<u8>, s2: Seq<u8>) -> i32 {
    str_compare_from(s1, s2, 0, total_len(s1, s2))
}

/// One past the combined lengths of two strings: comparing that many bytes
/// always reaches a terminating NUL.
pub open spec fn total_len(s1: Seq<u8>, s2: Seq<u8>) -> int {
    (s1.len() + s2.len() + 1) as int
}

/// Compare two NUL-terminated strings (see `spec_str_compare`).
pub fn strcmp(s1: &Vec<u8>, s2: &Vec<u8>) -> (r: i32)
    requires
        s1@.len() + s2@.len() + 1 <= usize::MAX,
    ensures
        r == spec_str_compare(s1@, s2@),
        r == 0 <==> (forall|i: int| 0 <= i < total_len(s1@, s2@) ==> #[trigger] str_byte(s1@, i) == str_byte(s2@, i)
            || (exists|j: int| 0 <= j < i && str_byte(s1@, j) == 0 && str_byte(s1@, j) == str_byte(s2@, j))),
{
    let n = s1.len() + s2.len() + 1;
    let r = compare_bytes(s1, s2, n);
    proof { lemma_compare_zero(s1@, s2@, 0, total_len(s1@, s2@)); }
    r
}

proof fn lemma_compare_zero(s1: Seq<u8>, s2: Seq<u8>, i: int, n: int)
    requires
        0 <= i,
    ensures
        str_compare_from(s1, s2, i, n) == 0 <==> (forall|k: int| i <= k < n ==> #[trigger] str_byte(s1, k) == str_byte(s2, k)
            || (exists|j: int| i <= j < k && str_byte(s1, j) == 0 && str_byte(s1, j) == str_byte(s2, j))),
    decreases n - i,
{
    if i >= n {
    } else if str_byte(s1, i) != str_byte(s2, i) {
        let c1 = str_byte(s1, i);
        let c2 = str_byte(s2, i);
        assert(byte_diff(c1, c2) != 0);
        assert(!(str_byte(s1, i) == str_byte(s2, i) || (exists|j: int| i <= j < i && str_byte(s1, j) == 0 && str_byte(s1, j) == str_byte(s2, j))));
    } else if str_byte(s1, i) == 0 {
        assert forall|k: int| i <= k < n implies #[trigger] str_byte(s1, k) == str_byte(s2, k)
            || (exists|j: int| i <= j < k && str_byte(s1, j) == 0 && str_byte(s1, j) == str_byte(s2, j)) by {
            if k > i {
                assert(i <= i < k && str_byte(s1, i) == 0 && str_byte(s1, i) == str_byte(s2, i));
            }
        }
    } else {
        lemma_compare_zero(s1, s2, i + 1, n);
        if str_compare_from(s1, s2, i + 1, n) == 0 {
            assert forall|k: int| i <= k < n implies #[trigger] str_byte(s1, k) == str_byte(s2, k)
                || (exists|j: int| i <= j < k && str_byte(s1, j) == 0 && str_byte(s1, j) == str_byte(s2, j)) by {
                if k > i {
                    if !(str_byte(s1, k) == str_byte(s2, k)) {
                        let j = choose|j: int| i + 1 <= j < k && str_byte(s1, j) == 0 && str_byte(s1, j) == str_byte(s2, j);
                        assert(i <= j < k);
                    }
                }
            }
        } else {
            let k = choose|k: int| i + 1 <= k < n && !(#[trigger] str_byte(s1, k) == str_byte(s2, k)
                || (exists|j: int| i + 1 <= j < k && str_byte(s1, j) == 0 && str_byte(s1, j) == str_byte(s2, j)));
            assert(!(str_byte(s1, k) == str_byte(s2, k)
                || (exists|j: int| i <= j < k && str_byte(s1, j) == 0 && str_byte(s1, j) == str_byte(s2, j))));
        }
    }
}

fn compare_bytes(s1: &Vec<u8>, s2: &Vec<u8>, n: usize) -> (r: i32)
    ensures
        r == str_compare_from(s1@, s2@, 0, n as int),
{
    let mut i: usize = 0;
    while i < n
        invariant
            i <= n,
            str_compare_from(s1@, s2@, 0, n as int) == str_compare_from(s1@, s2@, i as int, n as int),
        decreases n - i,
    {
        let c1: u8 = if i < s1.len() { s1[i] } else { 0 };
        let c2: u8 = if i < s2.len() { s2[i] } else { 0 };
        if c1 != c2 {
            return c1.wrapping_sub(c2) as i32;
        }
        if c1 == 0 {
            return 0;
        }
        i = i + 1;
    }
    0
}

/// Compare at most `n` bytes of two strings.
pub open spec fn str_compare_n(s1: Seq<u8>, s2: Seq<u8>, n: i32) -> i32 {
    str_compare_from(s1, s2, 0, n as int)
}

fn compare_n_bytes(s1: &Vec<u8>, s2: &Vec<u8>, n: i32) -> (r: i32)
    ensures
        r == str_compare_n(s1@, s2@, n),
{
    if n <= 0 {
        return 0;
    }
    compare_bytes(s1, s2, n as usize)
}

/// Compare at most `n` bytes of two NUL-terminated strings.
pub fn strncmp(s1: &Vec<u8>, s2: &Vec<u8>, n: i32) -> (r: i32)
    ensures
        r == str_compare_n(s1@, s2@, n),
{
    compare_n_bytes(s1, s2, n)
}

// ---------------------------------------------------------------------------
// Device selection
// ---------------------------------------------------------------------------

/// The byte string "dummy".
pub open spec fn dummy_name() -> Seq<u8> {
    seq![100u8, 117u8, 109u8, 109u8, 121u8]
}

/// The device should be configured: not a loopback; when the user named a
/// device, exactly that one; otherwise any point-to-point or broadcast device
/// whose name does not start with "dummy".
pub open spec fn spec_ic_is_init_dev(dev: net_device, user_dev_name: Seq<u8>) -> bool {
    if dev.flags & IFF_LOOPBACK != 0 {
        false
    } else if str_byte(user_dev_name, 0) != 0 {
        spec_str_compare(dev.name@, user_dev_name) == 0
    } else {
        dev.flags & (IFF_POINTOPOINT | IFF_BROADCAST) != 0 && str_compare_n(dev.name@, dummy_name(), 5) != 0
    }
}

/// Whether `dev` is a device to configure (see `spec_ic_is_init_dev`).
pub fn ic_is_init_dev(dev: &net_device, user_dev_name: &Vec<u8>) -> (r: bool)
    requires
        dev.name@.len() + user_dev_name@.len() + 1 <= usize::MAX,
    ensures
        r == spec_ic_is_init_dev(*dev, user_dev_name@),
{
    let flags = dev.flags;
    if flags & IFF_LOOPBACK != 0 {
        return false;
    }
    let u0: u8 = if user_dev_name.len() > 0 { user_dev_name[0] } else { 0 };
    if u0 != 0 {
        return strcmp(&dev.name, user_dev_name) == 0;
    }
    let dummy: Vec<u8> = vec![100u8, 117u8, 109u8, 109u8, 121u8];
    assert(dummy@ =~= dummy_name());
    flags & (IFF_POINTOPOINT | IFF_BROADCAST) != 0 && strncmp(&dev.name, &dummy, 5) != 0
}

/// One step of the xorshift generator used for transaction identifiers.
pub open spec fn xorshift32(s: u32) -> u32 {
    let a = s ^ (s << 13u32);
    let b = a ^ (a >> 17u32);
    b ^ (b << 5u32)
}

/// The sequence of `len` words produced from the fixed seed.
pub open spec fn random_words(len: nat) -> Seq<u32>
    decreases len,
{
    if len == 0 {
        Seq::empty()
    } else {
        let prev = random_words((len - 1) as nat);
        let last = if len == 1 { XID_SEED } else { prev[len - 2] };
        prev.push(xorshift32(last))
    }
}

/// The four bytes of `w`, least significant first.
pub open spec fn le_bytes(w: u32) -> Seq<u8> {
    seq![w as u8, (w >> 8u32) as u8, (w >> 16u32) as u8, (w >> 24u32) as u8]
}

/// The bytes of the words `s`, one word after the other.
pub open spec fn words_bytes(s: Seq<u32>) -> Seq<u8>
    decreases s.len(),
{
    if s.len() == 0 { Seq::empty() } else { words_bytes(s.drop_last()) + le_bytes(s.last()) }
}

proof fn lemma_words_bytes_len(s: Seq<u32>)
    ensures
        words_bytes(s).len() == 4 * s.len(),
    decreases s.len(),
{
    if s.len() > 0 {
        lemma_words_bytes_len(s.drop_last());
    }
}

/// The first `len` bytes the fixed-seed xorshift generator gives: its
/// words, least significant byte first, as many as cover `len` bytes.
pub open spec fn random_bytes(len: nat) -> Seq<u8> {
    words_bytes(random_words((len / 4 + if len % 4 != 0 { 1nat } else { 0nat }) as nat)).take(len as int)
}

/// Fill `len` bytes from the fixed-seed xorshift generator (see
/// `random_bytes`).
pub fn get_random_bytes(len: usize) -> (r: Vec<u8>)
    ensures
        r@ == random_bytes(len as nat),
{
    let nwords: usize = len / 4 + if len % 4 != 0 { 1 } else { 0 };
    let mut seed: u32 = XID_SEED;
    let mut out: Vec<u8> = Vec::new();
    let ghost mut words: Seq<u32> = Seq::empty();
    let mut i: usize = 0;
    while i < nwords
        invariant
            nwords == len / 4 + (if len % 4 != 0 { 1nat } else { 0nat }),
            i <= nwords,
            words == random_words(i as nat),
            words.len() == i,
            out@ == words_bytes(words),
            seed == (if i == 0 { XID_SEED } else { words[i - 1] }),
        decreases nwords - i,
    {
        proof { lemma_words_bytes_len(words); }
        seed = seed ^ (seed << 13u32);
        seed = seed ^ (seed >> 17u32);
        seed = seed ^ (seed << 5u32);
        out.push(seed as u8);
        out.push((seed >> 8u32) as u8);
        out.push((seed >> 16u32) as u8);
        out.push((seed >> 24u32) as u8);
        proof {
            let w2 = words.push(seed);
            assert(w2 =~= random_words((i + 1) as nat));
            assert(w2.drop_last() =~= words);
            assert(out@ =~= words_bytes(w2));
            words = w2;
        }
        i = i + 1;
    }
    proof { lemma_words_bytes_len(words); }
    out.truncate(len);
    assert(out@ =~= words_bytes(words).take(len as int));
    out
}

/// The protocols that may run on a device: BOOTP when its MTU is large
/// enough, RARP when it does ARP, restricted to the enabled protocols.
pub open spec fn spec_ic_able(dev: net_device, proto_enabled: i32) -> i32 {
    let bootp: i32 = if dev.mtu >= BOOTP_MIN_MTU { IC_BOOTP } else { 0 };
    let rarp: i32 = if dev.flags & IFF_NOARP == 0 { IC_RARP } else { 0 };
    (bootp | rarp) & proto_enabled
}

/// The devices chosen among the first `n` of `devs`.
pub open spec fn chosen_devs(devs: Seq<net_device>, user_dev_name: Seq<u8>, proto_enabled: i32, n: int) -> Seq<ic_device>
    decreases n,
{
    if n <= 0 {
        Seq::empty()
    } else {
        let prev = chosen_devs(devs, user_dev_name, proto_enabled, n - 1);
        let dev = devs[n - 1];
        let able = spec_ic_able(dev, proto_enabled);
        if spec_ic_is_init_dev(dev, user_dev_name) && able != 0 {
            prev.push(ic_device {
                dev: (n - 1) as usize,
                flags: dev.flags,
                able: able,
                xid: if able & IC_BOOTP != 0 { xorshift32(XID_SEED) } else { 0 },
            })
        } else {
            prev
        }
    }
}

/// Union of the protocols of the chosen devices.
pub open spec fn chosen_have_if(ds: Seq<ic_device>) -> i32
    decreases ds.len(),
{
    if ds.len() == 0 { 0 } else { chosen_have_if(ds.drop_last()) | ds.last().able }
}

/// Choose the devices to configure among `devs` (after the loopback devices
/// have been brought up): every device that `ic_is_init_dev` accepts and on
/// which some enabled protocol can run. Returns the status (0, or `ENODEV`
/// when no device was chosen), the chosen devices in list order and the
/// union of their protocols.
pub fn ic_open_devs(devs: &Vec<net_device>, user_dev_name: &Vec<u8>, proto_enabled: i32) -> (r: (i32, Vec<ic_device>, i32))
    requires
        forall|i: int| 0 <= i < devs@.len() ==> #[trigger] devs@[i].name@.len() + user_dev_name@.len() + 1 <= usize::MAX,
    ensures
        r.1@ == chosen_devs(devs@, user_dev_name@, proto_enabled, devs@.len() as int),
        r.2 == chosen_have_if(r.1@),
        r.0 == (if r.1@.len() == 0 { ENODEV } else { 0 }),
{
    let mut out: Vec<ic_device> = Vec::new();
    let mut have_if: i32 = 0;
    let mut i: usize = 0;
    while i < devs.len()
        invariant
            i <= devs@.len(),
            forall|k: int| 0 <= k < devs@.len() ==> #[trigger] devs@[k].name@.len() + user_dev_name@.len() + 1 <= usize::MAX,
            out@ == chosen_devs(devs@, user_dev_name@, proto_enabled, i as int),
            have_if == chosen_have_if(out@),
        decreases devs@.len() - i,
    {
        let dev = &devs[i];
        if ic_is_init_dev(dev, user_dev_name) {
            let bootp: i32 = if dev.mtu >= BOOTP_MIN_MTU { IC_BOOTP } else { 0 };
            let rarp: i32 = if dev.flags & IFF_NOARP == 0 { IC_RARP } else { 0 };
            let able = (bootp | rarp) & proto_enabled;
            assert(able == spec_ic_able(*dev, proto_enabled));
            if able != 0 {
                let xid: u32 = if able & IC_BOOTP != 0 {
                    let b = get_random_bytes(4);
                    proof {
                        reveal_with_fuel(random_words, 2);
                        reveal_with_fuel(words_bytes, 2);
                        let w = xorshift32(XID_SEED);
                        assert(random_words(1) =~= seq![w]);
                        assert(seq![w].drop_last() =~= Seq::<u32>::empty());
                        assert(b@ =~= le_bytes(w));
                        assert((w as u8) as u32 | (((w >> 8u32) as u8) as u32) << 8u32
                            | (((w >> 16u32) as u8) as u32) << 16u32 | (((w >> 24u32) as u8) as u32) << 24u32 == w)
                            by (bit_vector);
                    }
                    (b[0] as u32) | ((b[1] as u32) << 8u32) | ((b[2] as u32) << 16u32) | ((b[3] as u32) << 24u32)
                } else {
                    0
                };
                let d = ic_device { dev: i, flags: dev.flags, able: able, xid: xid };
                let ghost prev = out@;
                out.push(d);
                have_if = have_if | able;
                assert(out@.drop_last() == prev);
                assert(out@ == chosen_devs(devs@, user_dev_name@, proto_enabled, i as int + 1));
            } else {
                assert(out@ == chosen_devs(devs@, user_dev_name@, proto_enabled, i as int + 1));
            }
        } else {
            assert(out@ == chosen_devs(devs@, user_dev_name@, proto_enabled, i as int + 1));
        }
        i = i + 1;
    }
    let status = if out.len() == 0 { ENODEV } else { 0 };
    (status, out, have_if)
}

/// The devices to bring down after configuration: every opened device but
/// the one that was chosen (`selected`, a position in `opened`), each with
/// the flags to restore.
pub open spec fn devs_to_close(opened: Seq<ic_device>, selected: Option<usize>) -> Seq<(usize, i32)>
    decreases opened.len(),
{
    if opened.len() == 0 {
        Seq::empty()
    } else {
        let prev = devs_to_close(opened.drop_last(), selected);
        let k = (opened.len() - 1) as usize;
        if selected == Some(k) { prev } else { prev.push((opened.last().dev, opened.last().flags)) }
    }
}

/// List, in order, the opened devices to bring down (see `devs_to_close`).
pub fn ic_close_devs(opened: &Vec<ic_device>, selected: Option<usize>) -> (r: Vec<(usize, i32)>)
    ensures
        r@ == devs_to_close(opened@, selected),
{
    let mut out: Vec<(usize, i32)> = Vec::new();
    let mut i: usize = 0;
    while i < opened.len()
        invariant
            i <= opened@.len(),
            out@ == devs_to_close(opened@.subrange(0, i as int), selected),
        decreases opened@.len() - i,
    {
        let bring_down = match selected {
            Some(s) => s != i,
            None => true,
        };
        assert(opened@.subrange(0, i as int + 1).drop_last() =~= opened@.subrange(0, i as int));
        if bring_down {
            out.push((opened[i].dev, opened[i].flags));
        }
        i = i + 1;
    }
    assert(opened@.subrange(0, opened@.len() as int) =~= opened@);
    out
}

/// An address record for `addr` and `port`, as used to set the interface
/// address. The port is stored as given.
pub fn set_sockaddr(addr: u32, port: u16) -> (r: sockaddr_in)
    ensures
        r.sin_family == AF_INET,
        r.sin_addr.s_addr == addr,
        r.sin_port == port,
        r.sin_zero@ == Seq::new(8, |i: int| 0u8),
{
    let r = sockaddr_in { sin_family: AF_INET, sin_port: port, sin_addr: in_addr { s_addr: addr }, sin_zero: [0u8; 8] };
    assert(r.sin_zero@ =~= Seq::new(8, |i: int| 0u8));
    r
}

/// Outcome of setting the interface address: the error of the address
/// request when it failed, 0 otherwise.
pub fn ic_setup_if(ioctl_err: i32) -> (r: i32)
    ensures
        r == (if ioctl_err < 0 { ioctl_err } else { 0 }),
{
    if ioctl_err < 0 { ioctl_err } else { 0 }
}

/// How often, in milliseconds, the wait for a carrier reports progress.
pub const CARRIER_MSG_INTERVAL_MS: u64 = 20000;

/// `a` comes before `b` on the clock.
pub fn time_before(a: u64, b: u64) -> (r: bool)
    ensures
        r == (a < b),
{
    a < b
}

/// The wait for a chosen device to get a carrier, on a millisecond clock:
/// when it began, how long it may last, and when the next progress message
/// is due.
pub struct carrier_wait {
    pub start: u64,
    pub timeout_ms: u64,
    pub next_msg: u64,
}

/// Begin waiting at time `now`, for at most `carrier_timeout` seconds.
pub fn ic_carrier_wait_start(now: u64, carrier_timeout: u32) -> (w: carrier_wait)
    requires
        now + CARRIER_MSG_INTERVAL_MS <= u64::MAX,
    ensures
        w == (carrier_wait { start: now, timeout_ms: (carrier_timeout * 1000) as u64, next_msg: (now + CARRIER_MSG_INTERVAL_MS) as u64 }),
{
    carrier_wait { start: now, timeout_ms: carrier_timeout as u64 * 1000, next_msg: now + CARRIER_MSG_INTERVAL_MS }
}

/// One round of the wait at time `now`: it ends when the time is up, or
/// else when some chosen device has a carrier (`any_carrier`, what the scan
/// of the devices found); otherwise the caller sleeps a millisecond.
pub fn ic_carrier_check(w: &carrier_wait, now: u64, any_carrier: bool) -> (done: bool)
    requires
        w.start + w.timeout_ms <= u64::MAX,
    ensures
        done == (!(now < w.start + w.timeout_ms) || any_carrier),
{
    if !time_before(now, w.start + w.timeout_ms) {
        return true;
    }
    any_carrier
}

/// `n / 1000` rounded towards zero.
pub open spec fn div1000_trunc(n: int) -> int {
    if n >= 0 { n / 1000 } else { -((-n) / 1000) }
}

/// After the sleep, at time `now`: when the next progress message is due,
/// the whole seconds left to wait (rounded to nearest, towards zero) are to
/// be reported and the message after comes `CARRIER_MSG_INTERVAL_MS` later;
/// otherwise nothing.
pub fn ic_carrier_after_sleep(w: &mut carrier_wait, now: u64) -> (report: Option<i64>)
    requires
        old(w).start <= now,
        now - old(w).start <= 0x1000_0000_0000_0000,
        old(w).timeout_ms <= 0x1000_0000_0000_0000,
        now + CARRIER_MSG_INTERVAL_MS <= u64::MAX,
    ensures
        now < old(w).next_msg ==> report is None && *final(w) == *old(w),
        !(now < old(w).next_msg) ==> report == Some(div1000_trunc(old(w).timeout_ms - (now - old(w).start) + 500) as i64)
            && *final(w) == (carrier_wait { next_msg: (now + CARRIER_MSG_INTERVAL_MS) as u64, ..*old(w) }),
{
    if time_before(now, w.next_msg) {
        return None;
    }
    let elapsed: i64 = (now - w.start) as i64;
    let num: i64 = w.timeout_ms as i64 - elapsed + 500;
    let secs: i64 = if num >= 0 { num / 1000 } else { -((-num) / 1000) };
    w.next_msg = now + CARRIER_MSG_INTERVAL_MS;
    Some(secs)
}

/// What bringing the loopback devices up asks for: each loopback device
/// among the first `n` of `devs`, with its flags and `IFF_UP`, in list
/// order.
pub open spec fn loopback_requests(devs: Seq<net_device>, n: int) -> Seq<(usize, i32)>
    decreases n,
{
    if n <= 0 {
        Seq::empty()
    } else if devs[n - 1].flags & IFF_LOOPBACK != 0 {
        loopback_requests(devs, n - 1).push(((n - 1) as usize, devs[n - 1].flags | IFF_UP))
    } else {
        loopback_requests(devs, n - 1)
    }
}

/// The loopback devices to bring up before the others are looked at, with
/// the flags to set on each (see `loopback_requests`).
pub fn ic_loopback_requests(devs: &Vec<net_device>) -> (r: Vec<(usize, i32)>)
    ensures
        r@ == loopback_requests(devs@, devs@.len() as int),
{
    let mut out: Vec<(usize, i32)> = Vec::new();
    let mut i: usize = 0;
    while i < devs.len()
        invariant
            i <= devs.len(),
            out@ == loopback_requests(devs@, i as int),
        decreases devs.len() - i,
    {
        if devs[i].flags & IFF_LOOPBACK != 0 {
            out.push((i, devs[i].flags | IFF_UP));
        }
        i = i + 1;
    }
    out
}

} // verus!
