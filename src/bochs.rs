//! The Bochs graphics adapter (BGA): its detection, capabilities and mode
//! programming, over values read from and written to its registers.
use vstd::prelude::*;

use crate::pci::{config_address_of, search_candidate, PCIDevice, PCIFind, PCIBAR};
use crate::video::VideoMode;

verus! {

/// Register indices and values of the adapter's display interface.
pub const VBE_DISPI_GETCAPS: u16 = 2;

pub const VBE_DISPI_NUM_REGISTERS: u16 = 10;

pub const VBE_DISPI_INDEX_ID: u16 = 0;

pub const VBE_DISPI_INDEX_XRES: u16 = 1;

pub const VBE_DISPI_INDEX_YRES: u16 = 2;

pub const VBE_DISPI_INDEX_BPP: u16 = 3;

pub const VBE_DISPI_INDEX_ENABLE: u16 = 4;

pub const VBE_DISPI_DISABLED: u16 = 0;

pub const VBE_DISPI_ENABLED: u16 = 1;

pub const VBE_DISPI_LFB_ENABLED: u16 = 64;

pub const VBE_DISPI_NOCLEAR: u16 = 128;

/// Offset of the register block inside the MMIO window.
pub const BGA_REGISTER_OFFSET: u64 = 0x500;

/// The PCI vendor and device id of the adapter.
pub const BGA_VENDOR_ID: u16 = 0x1234;

pub const BGA_DEVICE_ID: u16 = 0x1111;

pub open spec fn default_mode() -> VideoMode {
    VideoMode { width: 800, height: 600, bpp: 32 }
}

pub open spec fn bga_signature() -> PCIFind {
    PCIFind {
        vendor_id: BGA_VENDOR_ID,
        device_id: BGA_DEVICE_ID,
        class_id: 0xFF,
        subclass_id: 0xFF,
        prog_if: 0xFF,
        rev_id: 0xFF,
    }
}

/// The adapter: its PCI function, its framebuffer and MMIO windows, and the
/// largest depth and resolution it reported.
pub struct BochsGraphicsAdapter {
    pub pci_device: PCIDevice,
    pub max_bpp: u16,
    pub max_width: usize,
    pub max_height: usize,
    pub framebuffer_bar: PCIBAR,
    pub mmio_bar: PCIBAR,
}

/// Whether an adapter with the given limits can show `mode`.
pub open spec fn mode_supported(a: BochsGraphicsAdapter, mode: VideoMode) -> bool {
    mode.width <= a.max_width && mode.height <= a.max_height && mode.bpp <= a.max_bpp
}

/// The register writes that switch to `mode`: disable, resolution and depth,
/// then enable with the linear framebuffer (keeping the screen unless
/// `clear`).
pub open spec fn mode_writes(mode: VideoMode, clear: bool) -> Seq<(u16, u16)> {
    let enable = if clear {
        VBE_DISPI_ENABLED | VBE_DISPI_LFB_ENABLED
    } else {
        VBE_DISPI_ENABLED | VBE_DISPI_LFB_ENABLED | VBE_DISPI_NOCLEAR
    };
    seq![
        (VBE_DISPI_INDEX_ENABLE, VBE_DISPI_DISABLED),
        (VBE_DISPI_INDEX_XRES, mode.width as u16),
        (VBE_DISPI_INDEX_YRES, mode.height as u16),
        (VBE_DISPI_INDEX_BPP, mode.bpp),
        (VBE_DISPI_INDEX_ENABLE, enable),
    ]
}

impl BochsGraphicsAdapter {
    /// The adapter on `dev`, with its framebuffer (BAR 0) and MMIO (BAR 2)
    /// windows; no capability is known yet.
    pub fn new(dev: &PCIDevice, framebuffer_bar: PCIBAR, mmio_bar: PCIBAR) -> (r: Self)
        ensures
            r.pci_device == *dev,
            r.framebuffer_bar == framebuffer_bar,
            r.mmio_bar == mmio_bar,
            r.max_bpp == 0,
            r.max_width == 0,
            r.max_height == 0,
    {
        BochsGraphicsAdapter {
            pci_device: *dev,
            max_bpp: 0,
            max_width: 0,
            max_height: 0,
            framebuffer_bar,
            mmio_bar,
        }
    }

    /// The configuration address of the adapter's PCI function.
    pub fn addr(&self) -> (r: u32)
        requires
            self.pci_device.address.wf(),
        ensures
            r == config_address_of(
                self.pci_device.address.bus,
                self.pci_device.address.slot,
                self.pci_device.address.func,
            ),
    {
        self.pci_device.address.config_address()
    }

    /// Where the register block sits in memory.
    pub fn registers_addr(&self) -> (r: u64)
        requires
            self.mmio_bar.addr_raw & 0xFFFF_FFFF_FFFF_FFF0u64 <= u64::MAX - BGA_REGISTER_OFFSET,
            !self.mmio_bar.is_iospace_spec(),
        ensures
            r == (self.mmio_bar.addr_raw & 0xFFFF_FFFF_FFFF_FFF0u64) + BGA_REGISTER_OFFSET,
    {
        self.mmio_bar.addr() + BGA_REGISTER_OFFSET
    }

    /// The adapter with the capabilities it reported: largest depth, width
    /// and height.
    pub fn init(self, max_bpp: u16, max_width: u16, max_height: u16) -> (r: Self)
        ensures
            r.pci_device == self.pci_device,
            r.framebuffer_bar == self.framebuffer_bar,
            r.mmio_bar == self.mmio_bar,
            r.max_bpp == max_bpp,
            r.max_width == max_width as usize,
            r.max_height == max_height as usize,
    {
        let mut a = self;
        a.max_bpp = max_bpp;
        a.max_width = max_width as usize;
        a.max_height = max_height as usize;
        a
    }

    /// The value of the enable register while capabilities are read.
    pub fn capability_enable(was_enabled: u16) -> (r: u16)
        ensures
            r == was_enabled | VBE_DISPI_GETCAPS,
    {
        was_enabled | VBE_DISPI_GETCAPS
    }

    /// The register writes, as (index, value) pairs, that switch to `mode`.
    pub fn video_mode_writes(mode: &VideoMode, clear: bool) -> (r: Vec<(u16, u16)>)
        ensures
            r@ == mode_writes(*mode, clear),
    {
        let mut enable = VBE_DISPI_ENABLED | VBE_DISPI_LFB_ENABLED;
        if !clear {
            enable = enable | VBE_DISPI_NOCLEAR;
        }
        let r = vec![
            (VBE_DISPI_INDEX_ENABLE, VBE_DISPI_DISABLED),
            (VBE_DISPI_INDEX_XRES, mode.width as u16),
            (VBE_DISPI_INDEX_YRES, mode.height as u16),
            (VBE_DISPI_INDEX_BPP, mode.bpp),
            (VBE_DISPI_INDEX_ENABLE, enable),
        ];
        assert(r@ =~= mode_writes(*mode, clear));
        r
    }

    /// 800x600 at 32 bits per pixel, when the adapter can show it.
    pub fn get_default_mode(&self) -> (r: Option<VideoMode>)
        ensures
            r == (if mode_supported(*self, default_mode()) {
                Some(default_mode())
            } else {
                None::<VideoMode>
            }),
    {
        let mode = VideoMode { width: 800, height: 600, bpp: 32 };
        if self.supports_resolution(mode) {
            return Some(mode);
        }
        None
    }

    pub fn supports_resolution(&self, mode: VideoMode) -> (r: bool)
        ensures
            r == mode_supported(*self, mode),
    {
        if mode.width > self.max_width || mode.height > self.max_height || mode.bpp > self.max_bpp {
            return false;
        }
        true
    }

    /// The first adapter among the functions found on the bus.
    pub fn detect(devices: &Vec<PCIDevice>) -> (r: Result<PCIDevice, &'static str>)
        ensures
            r is Err <==> forall|i: int|
                0 <= i < devices@.len() ==> !#[trigger] search_candidate(
                    bga_signature(),
                    None,
                    devices@[i],
                ),
            r is Ok ==> devices@.contains(r->Ok_0) && search_candidate(
                bga_signature(),
                None,
                r->Ok_0,
            ),
    {
        let signature = PCIFind::new(BGA_VENDOR_ID, BGA_DEVICE_ID);
        assert(signature == bga_signature());
        match PCIDevice::search(&signature, None, devices) {
            Some(d) => Ok(d),
            None => Err("Could not find Bochs Graphics Adapter"),
        }
    }
}

} // verus!
