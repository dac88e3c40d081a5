//! Local APIC and I/O APIC programming: register addresses and values, and
//! the inter-processor interrupts of a TLB shootdown.
use vstd::prelude::*;

verus! {

/// Model-specific register holding the Local APIC base address.
pub const IA32_APIC_BASE: u32 = 0x1B;

/// Mask of the physical base address bits of IA32_APIC_BASE.
pub const APIC_BASE_MASK: u64 = 0xFFFF_FFFF_FFFF_F000;

/// Physical address of the I/O APIC registers.
pub const IOAPIC_PHYS: u64 = 0xFEC0_0000;

/// Vector of TLB shootdown inter-processor interrupts.
pub const TLB_SHOOTDOWN_VECTOR: u8 = 251;

/// Local APIC register: end of interrupt.
pub const APIC_EOI: u64 = 0xB0;

/// Local APIC register: interrupt command, low half.
pub const APIC_ICR_LOW: u64 = 0x300;

/// Local APIC register: interrupt command, high half.
pub const APIC_ICR_HIGH: u64 = 0x310;

/// Virtual address of the Local APIC registers: the physical base held in
/// IA32_APIC_BASE, moved into the higher half direct map.
pub fn get_apic_base(apic_base_msr: u64, hhdm: u64) -> (r: u64)
    requires
        (apic_base_msr & APIC_BASE_MASK) + hhdm <= u64::MAX,
    ensures
        r == (apic_base_msr & APIC_BASE_MASK) + hhdm,
{
    let phys_base = apic_base_msr & APIC_BASE_MASK;
    phys_base + hhdm
}

/// The Local APIC register writes that enable the APIC and its timer, in
/// order: spurious vector 0xFF with the enable bit, timer divide 16, timer on
/// vector 32 in periodic mode, initial count 10 000 000.
pub fn setup_apic_registers() -> (r: Vec<(u64, u32)>)
    ensures
        r@ == seq![(0xF0u64, 0x1FFu32), (0x3E0u64, 3u32), (0x320u64, 0x20020u32), (0x380u64, 10_000_000u32)],
{
    let mut v = Vec::new();
    v.push((0xF0u64, 0x100u32 | 0xFFu32));
    v.push((0x3E0u64, 0x03u32));
    v.push((0x320u64, 32u32 | 0x20000u32));
    v.push((0x380u64, 10_000_000u32));
    assert(0x100u32 | 0xFFu32 == 0x1FFu32) by (bit_vector);
    assert(32u32 | 0x20000u32 == 0x20020u32) by (bit_vector);
    v
}

/// The I/O APIC (register, value) writes that route hardware IRQ `irq` to
/// `vector` on the boot processor: the low and high halves of its
/// redirection entry.
pub fn ioapic_route(irq: u32, vector: u32) -> (r: [(u32, u32); 2])
    requires
        irq < 24,
    ensures
        r@ == seq![((0x10 + 2 * irq) as u32, vector), ((0x10 + 2 * irq + 1) as u32, 0u32)],
{
    [(0x10 + irq * 2, vector), (0x10 + irq * 2 + 1, 0)]
}

/// One inter-processor interrupt of a TLB shootdown: the values written to
/// the high and low halves of the interrupt command register.
#[derive(Debug, Clone, Copy, PartialEq, Eq, Structural)]
pub struct ShootdownIpi {
    pub icr_high: u32,
    pub icr_low: u32,
}

/// The interrupts of a shootdown to the cores 1 to 3 selected by `cpu_mask`,
/// from core `first` on, in core order.
pub open spec fn shootdown_ipis(cpu_mask: u32, first: nat) -> Seq<ShootdownIpi>
    decreases 4 - first,
{
    if first >= 4 {
        seq![]
    } else if cpu_mask & (1u32 << (first as u32)) != 0 {
        seq![ShootdownIpi { icr_high: (first * 0x100_0000) as u32, icr_low: 251 }] + shootdown_ipis(
            cpu_mask,
            first + 1,
        )
    } else {
        shootdown_ipis(cpu_mask, first + 1)
    }
}

/// The core that an interrupt command addresses (bits 24 to 31 of its high
/// half).
pub open spec fn ipi_core(ipi: ShootdownIpi) -> int {
    ipi.icr_high as int / 0x100_0000
}

/// A shootdown interrupts only the cores it names: each of its interrupts
/// carries vector 251 and goes to a core from `first` to 3 whose bit is set
/// in `cpu_mask`, and the cores come in increasing order, so none gets two.
pub proof fn lemma_shootdown_targets_masked_cores(cpu_mask: u32, first: nat)
    ensures
        forall|k: int|
            0 <= k < shootdown_ipis(cpu_mask, first).len() ==> {
                let ipi = #[trigger] shootdown_ipis(cpu_mask, first)[k];
                &&& ipi.icr_low == TLB_SHOOTDOWN_VECTOR
                &&& ipi.icr_high == ipi_core(ipi) * 0x100_0000
                &&& first <= ipi_core(ipi) < 4
                &&& cpu_mask & (1u32 << (ipi_core(ipi) as u32)) != 0
            },
        forall|k1: int, k2: int|
            0 <= k1 < k2 < shootdown_ipis(cpu_mask, first).len() ==> ipi_core(
                #[trigger] shootdown_ipis(cpu_mask, first)[k1],
            ) < ipi_core(#[trigger] shootdown_ipis(cpu_mask, first)[k2]),
    decreases 4 - first,
{
    if first < 4 {
        lemma_shootdown_targets_masked_cores(cpu_mask, first + 1);
        let rest = shootdown_ipis(cpu_mask, first + 1);
        let all = shootdown_ipis(cpu_mask, first);
        if cpu_mask & (1u32 << (first as u32)) != 0 {
            let head = ShootdownIpi { icr_high: (first * 0x100_0000) as u32, icr_low: 251 };
            assert(all == seq![head] + rest);
            assert(ipi_core(head) == first);
            assert forall|k: int| 0 <= k < all.len() implies {
                let ipi = #[trigger] all[k];
                &&& ipi.icr_low == TLB_SHOOTDOWN_VECTOR
                &&& ipi.icr_high == ipi_core(ipi) * 0x100_0000
                &&& first <= ipi_core(ipi) < 4
                &&& cpu_mask & (1u32 << (ipi_core(ipi) as u32)) != 0
            } by {
                if k > 0 {
                    assert(all[k] == rest[k - 1]);
                }
            }
            assert forall|k1: int, k2: int| 0 <= k1 < k2 < all.len() implies ipi_core(#[trigger] all[k1])
                < ipi_core(#[trigger] all[k2]) by {
                assert(all[k2] == rest[k2 - 1]);
                if k1 > 0 {
                    assert(all[k1] == rest[k1 - 1]);
                }
            }
        } else {
            assert(all == rest);
        }
    }
}

/// The IPIs that a TLB shootdown sends: one fixed interrupt on vector 251 to
/// each of the cores 1, 2 and 3 whose bit is set in `cpu_mask`, addressed by
/// its APIC identifier in bits 24..31 of the high command register. The
/// number of acknowledgements to wait for is the number of IPIs.
pub fn broadcast_tlb_shootdown(cpu_mask: u32) -> (r: Vec<ShootdownIpi>)
    ensures
        r@ == shootdown_ipis(cpu_mask, 1),
{
    let mut out: Vec<ShootdownIpi> = Vec::new();
    let mut core_id: u32 = 1;
    while core_id < 4
        invariant
            1 <= core_id <= 4,
            out@ + shootdown_ipis(cpu_mask, core_id as nat) == shootdown_ipis(cpu_mask, 1),
        decreases 4 - core_id,
    {
        let bit = cpu_mask & (1u32 << core_id);
        let ghost before = out@;
        if bit != 0 {
            let icr_high = core_id << 24u32;
            assert(icr_high == core_id * 0x100_0000) by (bit_vector)
                requires
                    icr_high == core_id << 24u32,
                    core_id < 4,
            ;
            out.push(ShootdownIpi { icr_high, icr_low: TLB_SHOOTDOWN_VECTOR as u32 });
            assert(out@ + shootdown_ipis(cpu_mask, (core_id + 1) as nat) =~= before + shootdown_ipis(
                cpu_mask,
                core_id as nat,
            ));
        }
        core_id += 1;
    }
    assert(out@ + shootdown_ipis(cpu_mask, 4) =~= out@);
    out
}

} // verus!
