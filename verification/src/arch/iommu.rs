//! I/O memory management unit: DMA lock-down of devices.
use vstd::prelude::*;
use vstd::string::StringSliceAdditionalSpecFns;
use crate::arch::syscall::IOMMU_WINDOW;
use crate::oracle::{hex_digits, push_str_bytes, speak_hex};

verus! {

/// One DMA lock-down: the device and the base of the window it may reach.
#[derive(Debug, Clone, Copy, PartialEq, Eq, Structural)]
pub struct DmaWindow {
    pub device_id: u16,
    pub base: u64,
}

/// The windows of a log of lock-downs: each device keeps the window of its
/// latest lock-down.
pub open spec fn windows_of(log: Seq<DmaWindow>) -> Map<u16, u64>
    decreases log.len(),
{
    if log.len() == 0 {
        Map::empty()
    } else {
        windows_of(log.drop_last()).insert(log.last().device_id, log.last().base)
    }
}

/// The IOMMU's translation state: the DMA window of every locked-down
/// device.
pub struct IommuTable {
    log: Vec<DmaWindow>,
}

impl View for IommuTable {
    type V = Map<u16, u64>;

    closed spec fn view(&self) -> Map<u16, u64> {
        windows_of(self.log@)
    }
}

proof fn lemma_windows_of_prefix(log: Seq<DmaWindow>, i: int, d: u16)
    requires
        0 <= i <= log.len(),
        forall|j: int| i <= j < log.len() ==> (#[trigger] log[j]).device_id != d,
    ensures
        windows_of(log).dom().contains(d) == windows_of(log.subrange(0, i)).dom().contains(d),
        windows_of(log)[d] == windows_of(log.subrange(0, i))[d],
    decreases log.len() - i,
{
    if i < log.len() {
        lemma_windows_of_prefix(log, i + 1, d);
        assert(log.subrange(0, i + 1).drop_last() =~= log.subrange(0, i));
    } else {
        assert(log.subrange(0, i) =~= log);
    }
}

impl IommuTable {
    /// A table in which no device is locked down.
    pub fn new() -> (t: Self)
        ensures
            t@ == Map::<u16, u64>::empty(),
    {
        IommuTable { log: Vec::new() }
    }

    /// Whether device `device_id` may reach address `addr` by DMA: it was
    /// locked down to a window of `IOMMU_WINDOW` bytes that holds `addr`.
    pub fn dma_allowed(&self, device_id: u16, addr: u64) -> (r: bool)
        ensures
            r == (self@.dom().contains(device_id) && self@[device_id] <= addr && addr - self@[device_id]
                < IOMMU_WINDOW),
    {
        let mut i: usize = self.log.len();
        while i > 0
            invariant
                i <= self.log@.len(),
                forall|j: int| i <= j < self.log@.len() ==> (#[trigger] self.log@[j]).device_id != device_id,
            decreases i,
        {
            let w = self.log[i - 1];
            if w.device_id == device_id {
                proof {
                    let log = self.log@;
                    lemma_windows_of_prefix(log, i as int, device_id);
                    assert(log.subrange(0, i as int).drop_last() =~= log.subrange(0, i - 1));
                    assert(log.subrange(0, i as int).last() == w);
                }
                return w.base <= addr && addr - w.base < IOMMU_WINDOW;
            }
            i -= 1;
        }
        proof {
            lemma_windows_of_prefix(self.log@, 0, device_id);
            assert(self.log@.subrange(0, 0) =~= Seq::<DmaWindow>::empty());
        }
        false
    }
}

/// Locks PCIe device `device_id` down to the DMA window at `virt_addr`: from
/// then on the table lets the device reach that window and nothing else. The
/// lock-down is announced on the serial debugger (`lockdown_report`) and
/// always succeeds.
pub fn map_device_dma(table: &mut IommuTable, device_id: u16, virt_addr: u64) -> (r: bool)
    ensures
        r,
        final(table)@ == old(table)@.insert(device_id, virt_addr),
{
    table.log.push(DmaWindow { device_id, base: virt_addr });
    proof {
        assert(table.log@.drop_last() =~= old(table).log@);
    }
    true
}

/// A locked-down device may reach exactly the bytes of its window, and the
/// lock-down of one device leaves every other device's access as it was.
pub proof fn lemma_lockdown_confines_dma(before: IommuTable, after: IommuTable, device_id: u16, base: u64, other: u16)
    requires
        after@ == before@.insert(device_id, base),
        other != device_id,
    ensures
        after@.dom().contains(device_id),
        after@[device_id] == base,
        after@.dom().contains(other) == before@.dom().contains(other),
        before@.dom().contains(other) ==> after@[other] == before@[other],
{
}

/// The lines that announce the lock-down of `device_id` to the region at
/// `virt_addr`, both in hexadecimal.
pub open spec fn lockdown_report_bytes(device_id: u16, virt_addr: u64) -> Seq<u8> {
    "\n[*] IOMMU: Locking down PCIe Device ID 0x".spec_bytes() + hex_digits(device_id as nat)
        + "\n    -> Restricting DMA access to safe virtual region: 0x".spec_bytes() + hex_digits(
        virt_addr as nat,
    ) + "\n[+] Hardware Sandboxing Applied. Device is secured.\n".spec_bytes()
}

/// The announcement of a DMA lock-down.
pub fn lockdown_report(device_id: u16, virt_addr: u64) -> (r: Vec<u8>)
    ensures
        r@ == lockdown_report_bytes(device_id, virt_addr),
{
    let mut out: Vec<u8> = Vec::new();
    push_str_bytes(&mut out, "\n[*] IOMMU: Locking down PCIe Device ID 0x");
    let mut d = speak_hex(device_id as u64);
    out.append(&mut d);
    push_str_bytes(&mut out, "\n    -> Restricting DMA access to safe virtual region: 0x");
    let mut v = speak_hex(virt_addr);
    out.append(&mut v);
    push_str_bytes(&mut out, "\n[+] Hardware Sandboxing Applied. Device is secured.\n");
    out
}

} // verus!
