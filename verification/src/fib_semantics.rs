//! FIB route information: how many paths it has, releasing it from the
//! route tree, and freeing it with the device references its next hops
//! hold.
use vstd::prelude::*;

verus! {

pub const EINVAL: i32 = -22;
pub const ENOMEM: i32 = -12;
pub const ENOSYS: i32 = -38;

/// What a next hop holds: its device (by position, holding a reference)
/// and caches and state that go with it.
pub struct fib_nh_common {
    pub nhc_dev: Option<usize>,
    pub nhc_lwtstate: Option<u64>,
    pub nhc_pcpu_rth_output: Option<u64>,
    pub nhc_rth_input: Option<u64>,
    pub nhc_exceptions: Option<u64>,
}

/// A next hop of a route, and whether it is in the device hash.
pub struct fib_nh {
    pub nh_common: fib_nh_common,
    pub nh_tclassid: u32,
    pub fib_nh_oif: u32,
    pub fib_nh_gw_family: u8,
    pub fib_nh_scope: u8,
    pub fib_nh_weight: u8,
    pub fib_nh_flags: u8,
    pub fib_nh_gw4: u32,
    pub nh_hashed: bool,
}

/// The information routes share: its own next hops (or a shared next-hop
/// object), whether it is in the info and local-address hashes, how many
/// tree entries use it, and whether it is dead.
pub struct fib_info {
    pub fib_nhs: u32,
    pub fib_nh: Vec<fib_nh>,
    pub nh: Option<fib_nh>,
    pub fib_protocol: u8,
    pub fib_scope: u8,
    pub fib_type: u8,
    pub fib_flags: u32,
    pub fib_priority: u32,
    pub fib_tb_id: u32,
    pub fib_prefsrc: u32,
    pub fib_metrics: Option<u64>,
    pub fib_dead: u8,
    pub fib_treeref: u32,
    pub hashed: bool,
    pub lhashed: bool,
}

impl fib_info {
    /// Its own next hops are as many as it says.
    pub open spec fn wf(self) -> bool {
        self.nh is None ==> self.fib_nh@.len() == self.fib_nhs
    }
}

/// The number of paths: one through a shared next hop, else its own.
pub fn fib_info_num_path(fi: &fib_info) -> (r: u32)
    ensures
        r == (if fi.nh is Some { 1 } else { fi.fib_nhs }),
{
    if fi.nh.is_some() {
        1
    } else {
        fi.fib_nhs
    }
}

/// The next hop `nhsel`: the shared one, or its own at that position.
pub fn fib_info_nh(fi: &fib_info, nhsel: usize) -> (r: &fib_nh)
    requires
        fi.nh is None ==> nhsel < fi.fib_nh@.len(),
    ensures
        *r == match fi.nh {
            Some(n) => n,
            None => fi.fib_nh@[nhsel as int],
        },
{
    match &fi.nh {
        Some(n) => n,
        None => &fi.fib_nh[nhsel],
    }
}

/// A next hop with its references dropped.
pub open spec fn released(c: fib_nh_common) -> fib_nh_common {
    fib_nh_common { nhc_dev: None, nhc_lwtstate: None, nhc_pcpu_rth_output: None, nhc_rth_input: None, nhc_exceptions: None }
}

/// The device references after `k` next hops from `s` drop theirs.
pub open spec fn dropped(refs: Seq<u32>, nhs: Seq<fib_nh>, k: int) -> Seq<u32>
    decreases k,
{
    if k <= 0 {
        refs
    } else {
        let r = dropped(refs, nhs, k - 1);
        match nhs[k - 1].nh_common.nhc_dev {
            Some(d) => r.update(d as int, r[d as int].wrapping_sub(1)),
            None => r,
        }
    }
}

/// Every next hop's device is one of `n`.
pub open spec fn devs_within(nhs: Seq<fib_nh>, n: int) -> bool {
    forall|i: int| 0 <= i < nhs.len() ==> ((#[trigger] nhs[i]).nh_common.nhc_dev matches Some(d) ==> d < n)
}

/// Drop what a next hop holds: the reference on its device, its
/// light-weight tunnel state, its cached routes and exceptions.
pub fn fib_nh_common_release(nhc: &mut fib_nh_common, dev_refs: &mut Vec<u32>)
    requires
        old(nhc).nhc_dev matches Some(d) ==> d < old(dev_refs)@.len(),
    ensures
        *final(nhc) == released(*old(nhc)),
        final(dev_refs)@ == match old(nhc).nhc_dev {
            Some(d) => old(dev_refs)@.update(d as int, old(dev_refs)@[d as int].wrapping_sub(1)),
            None => old(dev_refs)@,
        },
{
    match nhc.nhc_dev {
        Some(d) => {
            let v = dev_refs[d].wrapping_sub(1);
            dev_refs.set(d, v);
        },
        None => {},
    }
    nhc.nhc_dev = None;
    nhc.nhc_lwtstate = None;
    nhc.nhc_pcpu_rth_output = None;
    nhc.nhc_rth_input = None;
    nhc.nhc_exceptions = None;
}

/// Free a dead route information: the count of live ones drops, and
/// unless it uses a shared next hop each of its next hops drops its
/// device reference. One still alive is not freed (false).
pub fn free_fib_info(fi: fib_info, fib_info_cnt: &mut u32, dev_refs: &mut Vec<u32>) -> (r: bool)
    requires
        fi.wf(),
        fi.fib_dead != 0 ==> *old(fib_info_cnt) > 0,
        devs_within(fi.fib_nh@, old(dev_refs)@.len() as int),
    ensures
        r == (fi.fib_dead != 0),
        *final(fib_info_cnt) == if r { (*old(fib_info_cnt) - 1) as u32 } else { *old(fib_info_cnt) },
        final(dev_refs)@ == if r && fi.nh is None { dropped(old(dev_refs)@, fi.fib_nh@, fi.fib_nh@.len() as int) } else { old(dev_refs)@ },
{
    if fi.fib_dead == 0 {
        return false;
    }
    *fib_info_cnt = *fib_info_cnt - 1;
    free_fib_info_rcu(fi, dev_refs);
    true
}

/// The deferred part of freeing: the next hops' references.
fn free_fib_info_rcu(fi: fib_info, dev_refs: &mut Vec<u32>)
    requires
        fi.wf(),
        devs_within(fi.fib_nh@, old(dev_refs)@.len() as int),
    ensures
        final(dev_refs)@ == if fi.nh is None { dropped(old(dev_refs)@, fi.fib_nh@, fi.fib_nh@.len() as int) } else { old(dev_refs)@ },
{
    if fi.nh.is_some() {
        return;
    }
    let mut nhs = fi.fib_nh;
    let ghost orig = nhs@;
    let mut nhsel: usize = 0;
    while nhsel < nhs.len()
        invariant
            nhs@.len() == orig.len(),
            nhsel <= nhs@.len(),
            devs_within(orig, old(dev_refs)@.len() as int),
            dev_refs@.len() == old(dev_refs)@.len(),
            dev_refs@ == dropped(old(dev_refs)@, orig, nhsel as int),
            forall|i: int| nhsel <= i < nhs@.len() ==> nhs@[i] == orig[i],
        decreases nhs@.len() - nhsel,
    {
        assert(orig[nhsel as int] == nhs@[nhsel as int]);
        let mut n = nhs.remove(nhsel);
        fib_nh_common_release(&mut n.nh_common, dev_refs);
        nhs.insert(nhsel, n);
        nhsel = nhsel + 1;
    }
}

/// A route tree entry lets go of the information: when it was the last,
/// the information leaves the hashes (with its own next hops) and is
/// dead. Nothing happens when no entry held it.
pub fn fib_release_info(fi: &mut fib_info)
    requires
        old(fi).wf(),
    ensures
        final(fi).wf(),
        old(fi).fib_treeref == 0 ==> *final(fi) == *old(fi),
        old(fi).fib_treeref == 1 ==> {
            &&& final(fi).fib_treeref == 0
            &&& final(fi).fib_dead == 1
            &&& !final(fi).hashed && !final(fi).lhashed
            &&& final(fi).fib_nh@.len() == old(fi).fib_nh@.len()
            &&& forall|i: int| 0 <= i < old(fi).fib_nh@.len() ==> #[trigger] final(fi).fib_nh@[i] == if old(fi).nh is None && old(fi).fib_nh@[i].nh_common.nhc_dev is Some {
                fib_nh { nh_hashed: false, ..old(fi).fib_nh@[i] }
            } else {
                old(fi).fib_nh@[i]
            }
            &&& *final(fi) == (fib_info { fib_treeref: 0, fib_dead: 1, hashed: false, lhashed: false, fib_nh: final(fi).fib_nh, ..*old(fi) })
        },
        old(fi).fib_treeref > 1 ==> *final(fi) == (fib_info { fib_treeref: (old(fi).fib_treeref - 1) as u32, fib_nh: old(fi).fib_nh, ..*old(fi) }),
{
    if fi.fib_treeref == 0 {
        return;
    }
    fi.fib_treeref = fi.fib_treeref - 1;
    if fi.fib_treeref != 0 {
        return;
    }
    fi.hashed = false;
    fi.lhashed = false;
    if fi.nh.is_none() {
        let ghost orig = fi.fib_nh@;
        let ghost before = *fi;
        let mut nhsel: usize = 0;
        while nhsel < fi.fib_nh.len()
            invariant
                *fi == (fib_info { fib_nh: fi.fib_nh, ..before }),
                fi.fib_nh@.len() == orig.len(),
                nhsel <= orig.len(),
                forall|i: int| 0 <= i < nhsel ==> #[trigger] fi.fib_nh@[i] == if orig[i].nh_common.nhc_dev is Some {
                    fib_nh { nh_hashed: false, ..orig[i] }
                } else {
                    orig[i]
                },
                forall|i: int| nhsel <= i < orig.len() ==> #[trigger] fi.fib_nh@[i] == orig[i],
            decreases orig.len() - nhsel,
        {
            let mut n = fi.fib_nh.remove(nhsel);
            if n.nh_common.nhc_dev.is_some() {
                n.nh_hashed = false;
            }
            fi.fib_nh.insert(nhsel, n);
            nhsel = nhsel + 1;
        }
    }
    fi.fib_dead = 1;
}

} // verus!
