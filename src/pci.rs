//! PCI configuration-space logic: device addresses, search patterns and
//! base address registers (BARs), over values read from the bus.
use vstd::prelude::*;

verus! {

/// Where a function sits on the PCI bus.
#[derive(Debug, Clone, Copy, PartialEq, Eq, Structural)]
pub struct PCIDeviceAddress {
    pub bus: u8,
    pub slot: u8,
    pub func: u8,
}

/// The configuration-space address of a function, with the enable bit set.
pub open spec fn config_address_of(bus: u8, slot: u8, func: u8) -> u32 {
    ((func as u32) << 8u32) | ((slot as u32) << 11u32) | ((bus as u32) << 16u32) | (1u32 << 31u32)
}

impl PCIDeviceAddress {
    /// Whether the slot fits in five bits and the function in three.
    pub open spec fn wf(&self) -> bool {
        self.slot < 32 && self.func < 8
    }

    /// The value written to the configuration address port to select this
    /// function.
    pub fn config_address(&self) -> (r: u32)
        requires
            self.wf(),
        ensures
            r == config_address_of(self.bus, self.slot, self.func),
    {
        ((self.func as u32) << 8u32) | ((self.slot as u32) << 11u32) | ((self.bus as u32) << 16u32)
            | (1u32 << 31u32)
    }
}

/// A function's vendor and device ids.
#[derive(Debug, Clone, Copy, PartialEq, Eq, Structural)]
pub struct PCIDeviceID {
    pub vendor_id: u16,
    pub device_id: u16,
}

/// Whether an id names a present function: an absent one reads as all ones.
pub open spec fn id_present(id: PCIDeviceID) -> bool {
    !(id.vendor_id == 0xFFFF && id.device_id == 0xFFFF)
}

impl PCIDeviceID {
    pub fn is_valid(&self) -> (r: bool)
        ensures
            r == id_present(*self),
    {
        if self.vendor_id == 0xFFFF && self.device_id == 0xFFFF {
            return false;
        }
        true
    }
}

/// A function's class, subclass, programming interface and revision.
#[derive(Debug, Clone, Copy, PartialEq, Eq, Structural)]
pub struct PCIDeviceType {
    pub class_id: u8,
    pub subclass_id: u8,
    pub prog_if: u8,
    pub rev_id: u8,
}

/// What to look for on the bus; a field of all ones matches any value.
#[derive(Debug, Clone, Copy, PartialEq, Eq, Structural)]
pub struct PCIFind {
    pub vendor_id: u16,
    pub device_id: u16,
    pub class_id: u8,
    pub subclass_id: u8,
    pub prog_if: u8,
    pub rev_id: u8,
}

pub open spec fn wide_field_matches(want: u16, got: u16) -> bool {
    want == 0xFFFF || got == want
}

pub open spec fn narrow_field_matches(want: u8, got: u8) -> bool {
    want == 0xFF || got == want
}

/// Whether a present function with `id` and `t` fits the pattern `f`.
pub open spec fn pattern_matches(f: PCIFind, id: PCIDeviceID, t: PCIDeviceType) -> bool {
    &&& id_present(id)
    &&& wide_field_matches(f.vendor_id, id.vendor_id)
    &&& wide_field_matches(f.device_id, id.device_id)
    &&& narrow_field_matches(f.class_id, t.class_id)
    &&& narrow_field_matches(f.subclass_id, t.subclass_id)
    &&& narrow_field_matches(f.prog_if, t.prog_if)
    &&& narrow_field_matches(f.rev_id, t.rev_id)
}

impl PCIFind {
    /// A pattern for a vendor and device id, any class.
    pub fn new(vendor_id: u16, device_id: u16) -> (r: PCIFind)
        ensures
            r == (PCIFind {
                vendor_id,
                device_id,
                class_id: 0xFF,
                subclass_id: 0xFF,
                prog_if: 0xFF,
                rev_id: 0xFF,
            }),
    {
        PCIFind {
            vendor_id,
            device_id,
            class_id: 0xFFu8,
            subclass_id: 0xFFu8,
            prog_if: 0xFFu8,
            rev_id: 0xFFu8,
        }
    }

    pub fn matches(&self, id: &PCIDeviceID, dev_type: &PCIDeviceType) -> (r: bool)
        ensures
            r == pattern_matches(*self, *id, *dev_type),
    {
        if id.vendor_id == 0xFFFF && id.device_id == 0xFFFF {
            return false;
        }
        if self.vendor_id != 0xFFFF && id.vendor_id != self.vendor_id {
            return false;
        }
        if self.device_id != 0xFFFF && id.device_id != self.device_id {
            return false;
        }
        if self.class_id != 0xFF && dev_type.class_id != self.class_id {
            return false;
        }
        if self.subclass_id != 0xFF && dev_type.subclass_id != self.subclass_id {
            return false;
        }
        if self.prog_if != 0xFF && dev_type.prog_if != self.prog_if {
            return false;
        }
        if self.rev_id != 0xFF && dev_type.rev_id != self.rev_id {
            return false;
        }
        true
    }
}

/// A function found on the bus.
#[derive(Debug, Clone, Copy, PartialEq, Eq, Structural)]
pub struct PCIDevice {
    pub address: PCIDeviceAddress,
    pub id: PCIDeviceID,
    pub dev_type: PCIDeviceType,
}

/// Whether `d` is a device that a search for `f` after `last` may return.
pub open spec fn search_candidate(f: PCIFind, last: Option<u32>, d: PCIDevice) -> bool {
    &&& d.address.wf()
    &&& pattern_matches(f, d.id, d.dev_type)
    &&& (match last {
        Some(l) => l,
        None => 0u32,
    }) < config_address_of(d.address.bus, d.address.slot, d.address.func)
}

pub open spec fn device_key(d: PCIDevice) -> u32 {
    config_address_of(d.address.bus, d.address.slot, d.address.func)
}

/// BAR type bits of a memory BAR below 1 MiB, a 32-bit one, a 64-bit one,
/// and of an I/O space BAR.
pub const PCIBAR_TYPE_16BIT: u8 = 2;

pub const PCIBAR_TYPE_32BIT: u8 = 0;

pub const PCIBAR_TYPE_64BIT: u8 = 4;

pub const PCIBAR_TYPE_IOSPACE: u8 = 1;

/// Header-type bit that marks a device with several functions.
pub const PCI_HEADER_MULTIFUNCTION: u8 = 0x80;

/// Header layout of a PCI-to-PCI bridge.
pub const PCI_HEADER_BRIDGE: u8 = 0x1;

impl PCIDevice {
    /// How many functions a scan visits on a slot whose function 0 has
    /// `header_type`: eight on a multi-function device, else one.
    pub fn function_count(header_type: u8) -> (r: u8)
        ensures
            r == (if header_type & PCI_HEADER_MULTIFUNCTION == PCI_HEADER_MULTIFUNCTION {
                8u8
            } else {
                1u8
            }),
    {
        if header_type & PCI_HEADER_MULTIFUNCTION == PCI_HEADER_MULTIFUNCTION {
            8
        } else {
            1
        }
    }

    /// Whether a function with `header_type` is a bridge, behind which a
    /// scan goes on with the secondary bus.
    pub fn is_bridge(header_type: u8) -> (r: bool)
        ensures
            r == (header_type & 0x7Fu8 == PCI_HEADER_BRIDGE),
    {
        header_type & 0x7Fu8 == PCI_HEADER_BRIDGE
    }

    /// The configuration-space offset of BAR number `bar`.
    pub fn bar_offset(bar: u8) -> (r: u8)
        requires
            bar <= 59,
        ensures
            r == 0x10 + 4 * bar,
    {
        0x10 + 4 * bar
    }

    /// The device at `address` with the id and type read from it, when it is
    /// present and fits `pattern`.
    pub fn matches_pattern(
        address: &PCIDeviceAddress,
        id: PCIDeviceID,
        dev_type: PCIDeviceType,
        pattern: &PCIFind,
    ) -> (r: Option<PCIDevice>)
        ensures
            r == (if pattern_matches(*pattern, id, dev_type) {
                Some(PCIDevice { address: *address, id, dev_type })
            } else {
                None::<PCIDevice>
            }),
    {
        if !id.is_valid() {
            return None;
        }
        if pattern.matches(&id, &dev_type) {
            return Some(PCIDevice { address: *address, id, dev_type });
        }
        None
    }

    /// Among the functions found on the bus, the one with the lowest
    /// configuration address above `last` that fits `find`.
    pub fn search(find: &PCIFind, last: Option<u32>, devices: &Vec<PCIDevice>) -> (r: Option<
        PCIDevice,
    >)
        ensures
            r is None <==> forall|i: int|
                0 <= i < devices@.len() ==> !#[trigger] search_candidate(*find, last, devices@[i]),
            r is Some ==> {
                &&& devices@.contains(r->0)
                &&& search_candidate(*find, last, r->0)
                &&& forall|i: int|
                    0 <= i < devices@.len() && #[trigger] search_candidate(*find, last, devices@[i])
                        ==> device_key(r->0) <= device_key(devices@[i])
            },
    {
        let floor = match last {
            Some(l) => l,
            None => 0u32,
        };
        let mut found: Option<PCIDevice> = None;
        let mut i: usize = 0;
        while i < devices.len()
            invariant
                i <= devices@.len(),
                floor == (match last {
                    Some(l) => l,
                    None => 0u32,
                }),
                found is None <==> forall|j: int|
                    0 <= j < i ==> !#[trigger] search_candidate(*find, last, devices@[j]),
                found is Some ==> {
                    &&& devices@.subrange(0, i as int).contains(found->0)
                    &&& search_candidate(*find, last, found->0)
                    &&& forall|j: int|
                        0 <= j < i && #[trigger] search_candidate(*find, last, devices@[j])
                            ==> device_key(found->0) <= device_key(devices@[j])
                },
            decreases devices@.len() - i,
        {
            let d = devices[i];
            if d.address.slot < 32 && d.address.func < 8 {
                let key = d.address.config_address();
                if floor < key && find.matches(&d.id, &d.dev_type) {
                    let better = match found {
                        None => true,
                        Some(f) => key < f.address.config_address(),
                    };
                    if better {
                        found = Some(d);
                    }
                }
            }
            proof {
                let s = devices@.subrange(0, i as int + 1);
                assert(s[i as int] == d);
                assert(devices@[i as int] == d);
                if found is None {
                    assert(!search_candidate(*find, last, devices@[i as int]));
                } else if found->0 == d {
                    assert(search_candidate(*find, last, devices@[i as int]));
                } else {
                    let p = devices@.subrange(0, i as int);
                    assert(p.contains(found->0));
                    let k = choose|k: int| 0 <= k < p.len() && p[k] == found->0;
                    assert(s[k] == found->0);
                    assert(devices@[k] == found->0);
                    assert(search_candidate(*find, last, devices@[k]));
                }
            }
            i = i + 1;
        }
        proof {
            assert(devices@.subrange(0, devices@.len() as int) =~= devices@);
        }
        found
    }

    /// The BAR described by what a probe of it read: the register's value
    /// `lo` (and `hi`, the next register, for a 64-bit BAR), and what the
    /// register (and the next) read back after all ones were written to them.
    pub fn get_bar(lo: u32, hi: u32, size_lo: u32, size_hi: u32) -> (r: PCIBAR)
        ensures
            r == bar_from_probe(lo, hi, size_lo, size_hi),
    {
        let mut res = PCIBAR { addr_raw: lo as u64, size_raw: 0 };
        if res.is_64bit() {
            res.addr_raw = res.addr_raw | ((hi as u64) << 32u64);
            let size = ((size_hi as u64) << 32u64) | (size_lo as u64);
            res.size_raw = (!(size & 0xFFFF_FFFF_FFFF_FFF0u64)).wrapping_add(1);
        } else if res.is_32bit() {
            res.size_raw = (!((size_lo as u64) & 0xFFFF_FFF0u64)).wrapping_add(1) & 0xFFFF_FFFFu64;
        } else if res.is_iospace() {
            res.size_raw = (!((size_lo as u64) & 0xFFFF_FFFCu64)).wrapping_add(1) & 0xFFFF_FFFFu64;
        }
        res
    }
}

/// The type bits of a BAR value: two for I/O space, three for memory.
pub open spec fn bar_type_of(addr_raw: u64) -> u8 {
    let raw = addr_raw as u8;
    if raw & 3u8 == PCIBAR_TYPE_IOSPACE {
        raw & 3u8
    } else {
        raw & 7u8
    }
}

/// The BAR that a probe describes.
pub open spec fn bar_from_probe(lo: u32, hi: u32, size_lo: u32, size_hi: u32) -> PCIBAR {
    let t = bar_type_of(lo as u64);
    if t == PCIBAR_TYPE_64BIT {
        PCIBAR {
            addr_raw: (lo as u64) | ((hi as u64) << 32u64),
            size_raw: (!((((size_hi as u64) << 32u64) | (size_lo as u64)) & 0xFFFF_FFFF_FFFF_FFF0u64)).wrapping_add(1),
        }
    } else if t == PCIBAR_TYPE_32BIT {
        PCIBAR {
            addr_raw: lo as u64,
            size_raw: (!((size_lo as u64) & 0xFFFF_FFF0u64)).wrapping_add(1) & 0xFFFF_FFFFu64,
        }
    } else if t == PCIBAR_TYPE_IOSPACE {
        PCIBAR {
            addr_raw: lo as u64,
            size_raw: (!((size_lo as u64) & 0xFFFF_FFFCu64)).wrapping_add(1) & 0xFFFF_FFFFu64,
        }
    } else {
        PCIBAR { addr_raw: lo as u64, size_raw: 0 }
    }
}

/// A base address register: where a device's memory or I/O window is, and
/// how large.
#[derive(Debug, Clone, Copy, PartialEq, Eq, Structural)]
pub struct PCIBAR {
    pub addr_raw: u64,
    pub size_raw: u64,
}

impl PCIBAR {
    pub open spec fn is_iospace_spec(&self) -> bool {
        bar_type_of(self.addr_raw) == PCIBAR_TYPE_IOSPACE
    }

    /// The window's base address, without the type bits.
    pub fn addr(&self) -> (r: u64)
        ensures
            r == (if bar_type_of(self.addr_raw) == PCIBAR_TYPE_IOSPACE {
                self.addr_raw & 0xFFFF_FFFF_FFFF_FFFCu64
            } else {
                self.addr_raw & 0xFFFF_FFFF_FFFF_FFF0u64
            }),
    {
        if self.is_iospace() {
            self.addr_raw & 0xFFFF_FFFF_FFFF_FFFCu64
        } else {
            self.addr_raw & 0xFFFF_FFFF_FFFF_FFF0u64
        }
    }

    /// The window's size in bytes.
    pub fn size(&self) -> (r: u64)
        ensures
            r == self.size_raw,
    {
        self.size_raw
    }

    pub fn get_type(&self) -> (r: u8)
        ensures
            r == bar_type_of(self.addr_raw),
    {
        let raw = self.addr_raw as u8;
        if raw & 3u8 == PCIBAR_TYPE_IOSPACE {
            raw & 3u8
        } else {
            raw & 7u8
        }
    }

    pub fn is_iospace(&self) -> (r: bool)
        ensures
            r == (bar_type_of(self.addr_raw) == PCIBAR_TYPE_IOSPACE),
    {
        self.get_type() == PCIBAR_TYPE_IOSPACE
    }

    pub fn is_16bit(&self) -> (r: bool)
        ensures
            r == (bar_type_of(self.addr_raw) == PCIBAR_TYPE_16BIT),
    {
        self.get_type() == PCIBAR_TYPE_16BIT
    }

    pub fn is_32bit(&self) -> (r: bool)
        ensures
            r == (bar_type_of(self.addr_raw) == PCIBAR_TYPE_32BIT),
    {
        self.get_type() == PCIBAR_TYPE_32BIT
    }

    pub fn is_64bit(&self) -> (r: bool)
        ensures
            r == (bar_type_of(self.addr_raw) == PCIBAR_TYPE_64BIT),
    {
        self.get_type() == PCIBAR_TYPE_64BIT
    }

    /// Whether the window is memory-mapped, of any width.
    pub fn is_mmio(&self) -> (r: bool)
        ensures
            r == (bar_type_of(self.addr_raw) == PCIBAR_TYPE_16BIT || bar_type_of(self.addr_raw)
                == PCIBAR_TYPE_32BIT || bar_type_of(self.addr_raw) == PCIBAR_TYPE_64BIT),
    {
        self.is_16bit() || self.is_32bit() || self.is_64bit()
    }
}

} // verus!
