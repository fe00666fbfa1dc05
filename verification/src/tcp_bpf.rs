//! BPF socket-map redirection for TCP: moving a message's data into a
//! socket's ingress queue within its memory allowance, and the bookkeeping
//! of pushing it out.
use vstd::prelude::*;

verus! {

pub const ENOMEM: i32 = -12;
pub const EACCES: i32 = -13;
pub const EINVAL: i32 = -22;

/// The BPF state of a socket: whether it has one.
pub struct sk_psock {
    pub refcnt: u32,
}

/// How much of an element moves in one step: all of it, or what is left of
/// the byte budget when that is smaller.
pub open spec fn ingress_size(len: u32, apply: bool, budget: u32) -> u32 {
    if apply && budget < len { budget } else { len }
}

/// Moving the elements `lens[k..]` into the ingress queue with `room` bytes
/// of memory left and `budget` bytes to apply (when `apply`): the amounts
/// moved, and whether it stopped for want of memory.
pub open spec fn ingress_run(lens: Seq<u32>, k: int, apply: bool, budget: u32, room: int) -> (Seq<u32>, bool)
    decreases lens.len() - k,
{
    if k >= lens.len() {
        (Seq::empty(), false)
    } else {
        let size = ingress_size(lens[k], apply, budget);
        if size > room {
            (Seq::empty(), true)
        } else if (apply && budget - size == 0) || k + 1 == lens.len() {
            (seq![size], false)
        } else {
            let rest = ingress_run(lens, k + 1, apply, if apply { (budget - size) as u32 } else { budget }, room - size);
            (seq![size] + rest.0, rest.1)
        }
    }
}

/// Sum of a sequence of amounts.
pub open spec fn total(s: Seq<u32>) -> int
    decreases s.len(),
{
    if s.len() == 0 { 0 } else { total(s.drop_last()) + s.last() }
}

proof fn lemma_total_push(s: Seq<u32>, x: u32)
    ensures
        total(s.push(x)) == total(s) + x,
{
    assert(s.push(x).drop_last() =~= s);
}

proof fn lemma_total_nonneg(s: Seq<u32>)
    ensures
        total(s) >= 0,
    decreases s.len(),
{
    if s.len() > 0 {
        lemma_total_nonneg(s.drop_last());
    }
}

proof fn lemma_run_len(lens: Seq<u32>, k: int, apply: bool, budget: u32, room: int)
    requires
        0 <= k,
    ensures
        ingress_run(lens, k, apply, budget, room).0.len() <= lens.len() - k || k >= lens.len(),
        forall|j: int| 0 <= j < ingress_run(lens, k, apply, budget, room).0.len() ==>
            #[trigger] ingress_run(lens, k, apply, budget, room).0[j] <= lens[k + j],
    decreases lens.len() - k,
{
    if k < lens.len() {
        let size = ingress_size(lens[k], apply, budget);
        if size <= room && !((apply && budget - size == 0) || k + 1 == lens.len()) {
            let b2 = if apply { (budget - size) as u32 } else { budget };
            lemma_run_len(lens, k + 1, apply, b2, room - size);
            let rest = ingress_run(lens, k + 1, apply, b2, room - size);
            assert forall|j: int| 0 <= j < ingress_run(lens, k, apply, budget, room).0.len() implies
                #[trigger] ingress_run(lens, k, apply, budget, room).0[j] <= lens[k + j] by {
                if j > 0 {
                    assert(ingress_run(lens, k, apply, budget, room).0[j] == rest.0[j - 1]);
                }
            }
        }
    }
}

/// Move a message into the socket's ingress queue: element by element from
/// the first, each wholly or up to the byte budget `apply_bytes` (when not
/// 0), while the socket's memory allowance (`room`) lasts; it stops after the
/// budget is spent or the last element. Returns the error (`ENOMEM` when
/// nothing could be moved for want of memory, else 0), the amounts moved
/// (queued as a new message when there was no error), and the message's
/// elements with those amounts taken off.
pub fn bpf_tcp_ingress(lens: &mut Vec<u32>, apply_bytes: u32, room: u64) -> (r: (i32, Vec<u32>))
    requires
        old(lens).len() >= 1,
    ensures
        ({
            let run = ingress_run(old(lens)@, 0, apply_bytes != 0, apply_bytes, room as int);
            let err = run.1 && total(run.0) == 0;
            &&& r.0 == (if err { ENOMEM } else { 0i32 })
            &&& r.1@ == run.0
            &&& final(lens).len() == old(lens).len()
            &&& !err ==> forall|j: int| 0 <= j < old(lens).len() ==> #[trigger] final(lens)@[j]
                == (if j < run.0.len() { (old(lens)@[j] - run.0[j]) as u32 } else { old(lens)@[j] })
            &&& err ==> final(lens)@ == old(lens)@
        }),
{
    let apply = apply_bytes != 0;
    let ghost l0 = lens@;
    let ghost run = ingress_run(l0, 0, apply, apply_bytes, room as int);
    proof { lemma_run_len(l0, 0, apply, apply_bytes, room as int); }
    let mut budget: u32 = apply_bytes;
    let mut left: u64 = room;
    let mut taken: Vec<u32> = Vec::new();
    let mut copied: u64 = 0;
    let mut failed = false;
    let mut i: usize = 0;
    let mut moved: Vec<u32> = Vec::new();
    while i < lens.len()
        invariant_except_break
            ingress_run(l0, i as int, apply, budget, left as int).0 =~= run.0.subrange(i as int, run.0.len() as int),
            ingress_run(l0, i as int, apply, budget, left as int).1 == run.1,
            !failed,
            taken@ == run.0.take(i as int),
        invariant
            apply == (apply_bytes != 0),
            i <= l0.len(),
            lens@ == l0,
            i <= run.0.len(),
            copied as int == total(taken@),
            copied <= room - left,
            left <= room,
            forall|j: int| 0 <= j < run.0.len() ==> #[trigger] run.0[j] <= l0[j],
            run.0.len() <= l0.len(),
        ensures
            taken@ == run.0,
            failed == run.1,
            copied as int == total(taken@),
        decreases lens.len() - i,
    {
        let len = lens[i];
        let size: u32 = if apply && budget < len { budget } else { len };
        let ghost cur = ingress_run(l0, i as int, apply, budget, left as int);
        if size as u64 > left {
            failed = true;
            proof {
                assert(run.0.subrange(i as int, run.0.len() as int).len() == 0);
                assert(taken@ =~= run.0);
            }
            break;
        }
        let ghost b2: u32 = if apply { (budget - size) as u32 } else { budget };
        let ghost next = ingress_run(l0, i as int + 1, apply, b2, left as int - size);
        proof {
            assert(cur.0.len() > 0 && cur.0[0] == size);
            assert(run.0.subrange(i as int, run.0.len() as int)[0] == run.0[i as int]);
        }
        left = left - size as u64;
        proof {
            lemma_total_push(taken@, size);
            assert(run.0[i as int] == size);
            assert(run.0.take(i as int + 1) =~= taken@.push(size));
        }
        taken.push(size);
        copied = copied + size as u64;
        if apply {
            budget = budget - size;
            if budget == 0 {
                proof { assert(taken@ =~= run.0); }
                break;
            }
        }
        i = i + 1;
        if i == lens.len() {
            proof { assert(taken@ =~= run.0); }
            break;
        }
        proof {
            assert(cur.0 =~= seq![size] + next.0);
            assert(cur.0.subrange(1, cur.0.len() as int) =~= next.0);
            assert(run.0.subrange(i as int - 1, run.0.len() as int).subrange(1, run.0.len() - (i as int - 1))
                =~= run.0.subrange(i as int, run.0.len() as int));
            assert(next.0 =~= run.0.subrange(i as int, run.0.len() as int));
        }
    }
    let err = failed && copied == 0;
    if err {
        return (ENOMEM, taken);
    }
    let mut k: usize = 0;
    while k < taken.len()
        invariant
            k <= taken.len(),
            taken@ == run.0,
            run.0.len() <= l0.len(),
            forall|j: int| 0 <= j < run.0.len() ==> #[trigger] run.0[j] <= l0[j],
            lens@.len() == l0.len(),
            forall|j: int| 0 <= j < l0.len() ==> #[trigger] lens@[j]
                == (if j < k { (l0[j] - run.0[j]) as u32 } else { l0[j] }),
        decreases taken.len() - k,
    {
        let v = lens[k] - taken[k];
        lens.set(k, v);
        k = k + 1;
    }
    (0, taken)
}

/// Redirect a message sent on a socket: without BPF state it is dropped
/// (0); to an ingress queue it goes through `bpf_tcp_ingress`; otherwise the
/// result of pushing it out (`push_ret`) is returned.
pub fn tcp_bpf_sendmsg_redir(has_psock: bool, ingress: bool, lens: &mut Vec<u32>, bytes: u32, room: u64, push_ret: i32) -> (r: i32)
    requires
        old(lens).len() >= 1,
    ensures
        !has_psock ==> r == 0 && final(lens)@ == old(lens)@,
        has_psock && !ingress ==> r == push_ret && final(lens)@ == old(lens)@,
        has_psock && ingress ==> r == (if ingress_run(old(lens)@, 0, bytes != 0, bytes, room as int).1
            && total(ingress_run(old(lens)@, 0, bytes != 0, bytes, room as int).0) == 0 { ENOMEM } else { 0i32 }),
{
    if !has_psock {
        return 0;
    }
    if ingress {
        let (ret, _) = bpf_tcp_ingress(lens, bytes, room);
        ret
    } else {
        push_ret
    }
}

/// The flag that lets a socket with a TLS transmit context send the pages
/// without applying its policy again.
pub const MSG_SENDPAGE_NOPOLICY: i32 = 0x10000;

/// One element of a message: the page holding its data, where in the page
/// the data starts, and how many bytes are left.
#[derive(Clone, Copy, PartialEq, Eq, Structural)]
pub struct sg_element {
    pub page: u64,
    pub offset: u32,
    pub length: u32,
}

/// A message being pushed out: its elements in order, the position of the
/// first one not yet sent, and the bytes left in all of them.
pub struct sk_msg {
    pub elems: Vec<sg_element>,
    pub start: usize,
    pub size: u32,
}

/// The bytes left in the elements from position `k` on.
pub open spec fn bytes_left(e: Seq<sg_element>, k: int) -> int
    decreases e.len() - k,
{
    if k < 0 || k >= e.len() { 0 } else { e[k].length + bytes_left(e, k + 1) }
}

impl sk_msg {
    /// The first unsent position lies within the elements and the byte count
    /// is that of the unsent elements.
    pub open spec fn wf(&self) -> bool {
        &&& self.start <= self.elems.len()
        &&& self.size == bytes_left(self.elems@, self.start as int)
    }
}

proof fn lemma_bytes_left_nonneg(e: Seq<sg_element>, k: int)
    ensures
        bytes_left(e, k) >= 0,
    decreases e.len() - k,
{
    if 0 <= k < e.len() {
        lemma_bytes_left_nonneg(e, k + 1);
    }
}

proof fn lemma_bytes_left_update(e: Seq<sg_element>, i: int, x: sg_element, k: int)
    requires
        0 <= i < e.len(),
        0 <= k,
    ensures
        bytes_left(e.update(i, x), k) == bytes_left(e, k) + (if k <= i { x.length - e[i].length } else { 0 }),
    decreases e.len() - k,
{
    if k < e.len() {
        lemma_bytes_left_update(e, i, x, k + 1);
    }
}

/// A message whose elements have all been sent holds no bytes.
pub proof fn push_finished_is_empty(msg: sk_msg)
    requires
        msg.wf(),
        msg.start == msg.elems.len(),
    ensures
        msg.size == 0,
{
}

/// What to hand to the socket next: `size` bytes of `page` from `off`, with
/// `flags`, through the TLS transmit path (`via_ulp`) or directly.
pub struct push_req {
    pub page: u64,
    pub off: u32,
    pub size: u32,
    pub flags: i32,
    pub via_ulp: bool,
}

/// The bytes to send from the first unsent element: all it has, or what is
/// left of the byte budget when one applies and is smaller.
pub open spec fn push_size(len: u32, apply: bool, apply_bytes: u32) -> u32 {
    if apply && apply_bytes < len { apply_bytes } else { len }
}

/// The next send while pushing `msg` out: the first unsent element's page
/// and offset, its bytes up to the budget `apply_bytes` (when `apply`), and
/// `flags`, to which a socket with a TLS transmit context
/// (`has_tx_ulp`) adds `MSG_SENDPAGE_NOPOLICY`; the caller sends with
/// these flags from then on.
pub fn tcp_bpf_push_req(msg: &sk_msg, apply: bool, apply_bytes: u32, flags: i32, has_tx_ulp: bool) -> (r: push_req)
    requires
        msg.start < msg.elems.len(),
    ensures
        ({
            let e = msg.elems@[msg.start as int];
            &&& r.page == e.page
            &&& r.off == e.offset
            &&& r.size == push_size(e.length, apply, apply_bytes)
            &&& r.flags == (if has_tx_ulp { flags | MSG_SENDPAGE_NOPOLICY } else { flags })
            &&& r.via_ulp == has_tx_ulp
        }),
{
    let e = msg.elems[msg.start];
    let size = if apply && apply_bytes < e.length { apply_bytes } else { e.length };
    let f = if has_tx_ulp { flags | MSG_SENDPAGE_NOPOLICY } else { flags };
    push_req { page: e.page, off: e.offset, size, flags: f, via_ulp: has_tx_ulp }
}

/// What follows a send.
pub enum PushStep {
    /// Pushing ends and returns this.
    Stop(i32),
    /// Another send follows, from `tcp_bpf_push_req`.
    More,
}

/// The bookkeeping after a send: what comes next, the budget left, the
/// bytes to give back to the socket's memory allowance, and the page to
/// release when its element was used up.
pub struct push_after {
    pub step: PushStep,
    pub apply_bytes: u32,
    pub uncharged: u32,
    pub put_page: Option<u64>,
}

/// Account for a send of `size` bytes that the socket answered with `ret`.
/// An answer of 0 or less ends the push with it and changes nothing.
/// Otherwise `ret` bytes come off the budget (when `apply`), the message's
/// byte count and the first unsent element, whose offset moves on; they are
/// given back to the memory allowance when `uncharge`. An element used up
/// releases its page, is cleared and the next one becomes first; the push
/// ends (with `ret`) when that was the last element or when the budget is
/// spent.
pub fn tcp_bpf_push_sent(msg: &mut sk_msg, apply: bool, apply_bytes: u32, size: u32, uncharge: bool, ret: i32) -> (r: push_after)
    requires
        old(msg).wf(),
        old(msg).start < old(msg).elems.len(),
        size == push_size(old(msg).elems@[old(msg).start as int].length, apply, apply_bytes),
        ret <= size,
        old(msg).elems@[old(msg).start as int].offset + old(msg).elems@[old(msg).start as int].length <= u32::MAX,
    ensures
        final(msg).wf(),
        ret <= 0 ==> r.step == PushStep::Stop(ret) && *final(msg) == *old(msg) && r.apply_bytes == apply_bytes
            && r.uncharged == 0 && r.put_page is None,
        ret > 0 ==> {
            let e = old(msg).elems@[old(msg).start as int];
            let left = (e.length - ret) as u32;
            let used_up = left == 0;
            let budget = if apply { (apply_bytes - ret) as u32 } else { apply_bytes };
            let next = if used_up { old(msg).start + 1 } else { old(msg).start as int };
            &&& final(msg).size == old(msg).size - ret
            &&& final(msg).start == next
            &&& final(msg).elems@ == old(msg).elems@.update(old(msg).start as int,
                    if used_up { sg_element { page: 0, offset: 0, length: 0 } }
                    else { sg_element { page: e.page, offset: (e.offset + ret) as u32, length: left } })
            &&& r.apply_bytes == budget
            &&& r.uncharged == (if uncharge { ret as u32 } else { 0 })
            &&& r.put_page == (if used_up { Some(e.page) } else { None::<u64> })
            &&& r.step == (if (used_up && next == old(msg).elems.len()) || (apply && budget == 0) {
                    PushStep::Stop(ret) } else { PushStep::More })
        },
{
    if ret <= 0 {
        return push_after { step: PushStep::Stop(ret), apply_bytes, uncharged: 0, put_page: None };
    }
    let sent = ret as u32;
    let i = msg.start;
    let e = msg.elems[i];
    let ghost e0 = msg.elems@;
    let budget = if apply { apply_bytes - sent } else { apply_bytes };
    proof {
        assert(bytes_left(e0, i as int) == e.length + bytes_left(e0, i as int + 1));
        lemma_bytes_left_nonneg(e0, i as int + 1);
    }
    msg.size = msg.size - sent;
    let left = e.length - sent;
    let cleared = if left == 0 {
        sg_element { page: 0, offset: 0, length: 0 }
    } else {
        sg_element { page: e.page, offset: e.offset + sent, length: left }
    };
    msg.elems.set(i, cleared);
    proof {
        lemma_bytes_left_update(e0, i as int, cleared, i as int);
    }
    let uncharged = if uncharge { sent } else { 0 };
    let mut put_page: Option<u64> = None;
    let mut stop = false;
    if left == 0 {
        put_page = Some(e.page);
        msg.start = i + 1;
        proof {
            let e1 = msg.elems@;
            assert(bytes_left(e1, i as int) == 0 + bytes_left(e1, i as int + 1));
        }
        if msg.start == msg.elems.len() {
            stop = true;
        }
    }
    if apply && budget == 0 {
        stop = true;
    }
    let step = if stop { PushStep::Stop(ret) } else { PushStep::More };
    push_after { step, apply_bytes: budget, uncharged, put_page }
}

} // verus!
