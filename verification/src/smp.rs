//! Symmetric multi-processing: which cores the boot processor wakes and how
//! many it waits for.
use vstd::prelude::*;

verus! {

/// How the boot processor brings up the application processors.
pub struct SmpPlan {
    /// Indices (in the bootloader's core list) of the cores sent to the AP
    /// entry point: every core whose local APIC identifier is not the boot
    /// processor's.
    pub wake: Vec<usize>,
    /// Number of cores that must report ready: all cores but the boot
    /// processor.
    pub expected_aps: u64,
}

/// The indices of the cores from `from` on whose APIC identifier differs from
/// the boot processor's.
pub open spec fn wake_targets(lapic_ids: Seq<u32>, bsp_lapic_id: u32, from: nat) -> Seq<usize>
    decreases lapic_ids.len() - from,
{
    if from >= lapic_ids.len() {
        seq![]
    } else if lapic_ids[from as int] != bsp_lapic_id {
        seq![from as usize] + wake_targets(lapic_ids, bsp_lapic_id, from + 1)
    } else {
        wake_targets(lapic_ids, bsp_lapic_id, from + 1)
    }
}

/// Plans the start of the application processors from the bootloader's list
/// of local APIC identifiers.
pub fn init(lapic_ids: &[u32], bsp_lapic_id: u32) -> (r: SmpPlan)
    requires
        lapic_ids@.len() >= 1,
    ensures
        r.wake@ == wake_targets(lapic_ids@, bsp_lapic_id, 0),
        r.expected_aps == lapic_ids@.len() - 1,
{
    let mut wake: Vec<usize> = Vec::new();
    let mut i: usize = 0;
    while i < lapic_ids.len()
        invariant
            0 <= i <= lapic_ids@.len(),
            wake@ + wake_targets(lapic_ids@, bsp_lapic_id, i as nat) == wake_targets(lapic_ids@, bsp_lapic_id, 0),
        decreases lapic_ids.len() - i,
    {
        let ghost before = wake@;
        if lapic_ids[i] != bsp_lapic_id {
            wake.push(i);
            assert(wake@ + wake_targets(lapic_ids@, bsp_lapic_id, (i + 1) as nat) =~= before + wake_targets(
                lapic_ids@,
                bsp_lapic_id,
                i as nat,
            ));
        }
        i += 1;
    }
    assert(wake@ + wake_targets(lapic_ids@, bsp_lapic_id, i as nat) =~= wake@);
    SmpPlan { wake, expected_aps: (lapic_ids.len() - 1) as u64 }
}

/// The boot processor is never woken: every woken core is a listed core
/// whose APIC identifier differs from the boot processor's.
pub proof fn lemma_wake_skips_bsp(lapic_ids: Seq<u32>, bsp_lapic_id: u32, from: nat)
    requires
        lapic_ids.len() <= usize::MAX,
    ensures
        forall|k: int|
            0 <= k < wake_targets(lapic_ids, bsp_lapic_id, from).len() ==> {
                let i = #[trigger] wake_targets(lapic_ids, bsp_lapic_id, from)[k];
                from <= i < lapic_ids.len() && lapic_ids[i as int] != bsp_lapic_id
            },
    decreases lapic_ids.len() - from,
{
    if from < lapic_ids.len() {
        lemma_wake_skips_bsp(lapic_ids, bsp_lapic_id, from + 1);
        let rest = wake_targets(lapic_ids, bsp_lapic_id, from + 1);
        let all = wake_targets(lapic_ids, bsp_lapic_id, from);
        assert forall|k: int| 0 <= k < all.len() implies {
            let i = #[trigger] all[k];
            from <= i < lapic_ids.len() && lapic_ids[i as int] != bsp_lapic_id
        } by {
            if lapic_ids[from as int] != bsp_lapic_id {
                if k > 0 {
                    assert(all[k] == rest[k - 1]);
                }
            } else {
                assert(all[k] == rest[k]);
            }
        }
    }
}

/// Every listed core whose APIC identifier differs from the boot
/// processor's is woken, exactly once and in list order: the woken indices
/// are strictly increasing, and each core from `from` on that is not the boot
/// processor is among them. With the boot processor listed once, as many
/// cores are woken as are waited for.
pub proof fn lemma_wake_every_other_core(lapic_ids: Seq<u32>, bsp_lapic_id: u32, from: nat)
    requires
        lapic_ids.len() <= usize::MAX,
    ensures
        forall|i: int|
            from <= i < lapic_ids.len() && lapic_ids[i] != bsp_lapic_id ==> wake_targets(
                lapic_ids,
                bsp_lapic_id,
                from,
            ).contains(i as usize),
        forall|a: int, b: int|
            0 <= a < b < wake_targets(lapic_ids, bsp_lapic_id, from).len() ==> (#[trigger] wake_targets(
                lapic_ids,
                bsp_lapic_id,
                from,
            )[a]) < (#[trigger] wake_targets(lapic_ids, bsp_lapic_id, from)[b]),
        from == 0 && (exists|k: int| 0 <= k < lapic_ids.len() && lapic_ids[k] == bsp_lapic_id && (forall|m: int|
            0 <= m < lapic_ids.len() && m != k ==> lapic_ids[m] != bsp_lapic_id)) ==> wake_targets(
            lapic_ids,
            bsp_lapic_id,
            0,
        ).len() == lapic_ids.len() - 1,
    decreases lapic_ids.len() - from,
{
    lemma_wake_skips_bsp(lapic_ids, bsp_lapic_id, from);
    if from < lapic_ids.len() {
        lemma_wake_every_other_core(lapic_ids, bsp_lapic_id, from + 1);
        lemma_wake_skips_bsp(lapic_ids, bsp_lapic_id, from + 1);
        let rest = wake_targets(lapic_ids, bsp_lapic_id, from + 1);
        let all = wake_targets(lapic_ids, bsp_lapic_id, from);
        if lapic_ids[from as int] != bsp_lapic_id {
            assert(all == seq![from as usize] + rest);
            assert forall|i: int| from <= i < lapic_ids.len() && lapic_ids[i] != bsp_lapic_id implies all.contains(
                i as usize,
            ) by {
                if i == from {
                    assert(all[0] == from as usize);
                } else {
                    let k = choose|k: int| 0 <= k < rest.len() && rest[k] == i as usize;
                    assert(all[k + 1] == rest[k]);
                }
            }
            assert forall|a: int, b: int| 0 <= a < b < all.len() implies (#[trigger] all[a]) < (#[trigger] all[b]) by {
                assert(all[b] == rest[b - 1]);
                if a > 0 {
                    assert(all[a] == rest[a - 1]);
                } else {
                    assert(from + 1 <= rest[b - 1]);
                }
            }
        } else {
            assert(all == rest);
        }
        if from == 0 && (exists|k: int| 0 <= k < lapic_ids.len() && lapic_ids[k] == bsp_lapic_id && (forall|m: int|
            0 <= m < lapic_ids.len() && m != k ==> lapic_ids[m] != bsp_lapic_id)) {
            lemma_wake_count(lapic_ids, bsp_lapic_id, 0);
        }
    }
}

/// The number of cores from `from` on that are not the boot processor.
spec fn others_from(lapic_ids: Seq<u32>, bsp_lapic_id: u32, from: nat) -> nat
    decreases lapic_ids.len() - from,
{
    if from >= lapic_ids.len() {
        0
    } else {
        others_from(lapic_ids, bsp_lapic_id, from + 1) + if lapic_ids[from as int] != bsp_lapic_id {
            1nat
        } else {
            0nat
        }
    }
}

proof fn lemma_wake_count(lapic_ids: Seq<u32>, bsp_lapic_id: u32, from: nat)
    requires
        from <= lapic_ids.len(),
        exists|k: int| 0 <= k < lapic_ids.len() && lapic_ids[k] == bsp_lapic_id && (forall|m: int|
            0 <= m < lapic_ids.len() && m != k ==> lapic_ids[m] != bsp_lapic_id),
    ensures
        wake_targets(lapic_ids, bsp_lapic_id, from).len() == others_from(lapic_ids, bsp_lapic_id, from),
        from == 0 ==> others_from(lapic_ids, bsp_lapic_id, 0) == lapic_ids.len() - 1,
    decreases lapic_ids.len() - from,
{
    let k = choose|k: int| 0 <= k < lapic_ids.len() && lapic_ids[k] == bsp_lapic_id && (forall|m: int|
        0 <= m < lapic_ids.len() && m != k ==> lapic_ids[m] != bsp_lapic_id);
    lemma_others_count(lapic_ids, bsp_lapic_id, from, k);
    if from < lapic_ids.len() {
        lemma_wake_count(lapic_ids, bsp_lapic_id, from + 1);
    }
}

proof fn lemma_others_count(lapic_ids: Seq<u32>, bsp_lapic_id: u32, from: nat, k: int)
    requires
        from <= lapic_ids.len(),
        0 <= k < lapic_ids.len(),
        lapic_ids[k] == bsp_lapic_id,
        forall|m: int| 0 <= m < lapic_ids.len() && m != k ==> lapic_ids[m] != bsp_lapic_id,
    ensures
        others_from(lapic_ids, bsp_lapic_id, from) == if from <= k {
            lapic_ids.len() - from - 1
        } else {
            lapic_ids.len() - from
        },
    decreases lapic_ids.len() - from,
{
    if from < lapic_ids.len() {
        lemma_others_count(lapic_ids, bsp_lapic_id, from + 1, k);
    }
}

} // verus!
