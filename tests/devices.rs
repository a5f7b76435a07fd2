use lib_kern::ansi::{AnsiAdapter, AnsiEscape};
use lib_kern::bochs::BochsGraphicsAdapter;
use lib_kern::pci::{PCIDevice, PCIDeviceAddress, PCIDeviceID, PCIDeviceType, PCIFind, PCIBAR};
use lib_kern::video::VideoMode;

fn device(bus: u8, slot: u8, func: u8, vendor_id: u16, device_id: u16) -> PCIDevice {
    PCIDevice {
        address: PCIDeviceAddress { bus, slot, func },
        id: PCIDeviceID { vendor_id, device_id },
        dev_type: PCIDeviceType { class_id: 3, subclass_id: 0, prog_if: 0, rev_id: 2 },
    }
}

#[test]
fn config_address_packs_fields() {
    let a = PCIDeviceAddress { bus: 1, slot: 2, func: 3 };
    assert_eq!(a.config_address(), 0x8001_1300);
    let z = PCIDeviceAddress { bus: 0, slot: 0, func: 0 };
    assert_eq!(z.config_address(), 0x8000_0000);
}

#[test]
fn absent_function_is_not_valid() {
    assert!(!PCIDeviceID { vendor_id: 0xFFFF, device_id: 0xFFFF }.is_valid());
    assert!(PCIDeviceID { vendor_id: 0xFFFF, device_id: 0x1111 }.is_valid());
}

#[test]
fn pattern_wildcards() {
    let t = PCIDeviceType { class_id: 3, subclass_id: 0, prog_if: 0, rev_id: 2 };
    let f = PCIFind::new(0x1234, 0x1111);
    assert!(f.matches(&PCIDeviceID { vendor_id: 0x1234, device_id: 0x1111 }, &t));
    assert!(!f.matches(&PCIDeviceID { vendor_id: 0x1234, device_id: 0x1112 }, &t));
    let any = PCIFind::new(0xFFFF, 0xFFFF);
    assert!(any.matches(&PCIDeviceID { vendor_id: 1, device_id: 2 }, &t));
    assert!(!any.matches(&PCIDeviceID { vendor_id: 0xFFFF, device_id: 0xFFFF }, &t));
    let mut by_class = PCIFind::new(0xFFFF, 0xFFFF);
    by_class.class_id = 2;
    assert!(!by_class.matches(&PCIDeviceID { vendor_id: 1, device_id: 2 }, &t));
}

#[test]
fn matches_pattern_builds_device() {
    let addr = PCIDeviceAddress { bus: 0, slot: 2, func: 0 };
    let id = PCIDeviceID { vendor_id: 0x1234, device_id: 0x1111 };
    let t = PCIDeviceType { class_id: 3, subclass_id: 0, prog_if: 0, rev_id: 2 };
    let found = PCIDevice::matches_pattern(&addr, id, t, &PCIFind::new(0x1234, 0x1111));
    assert_eq!(found, Some(PCIDevice { address: addr, id, dev_type: t }));
    assert_eq!(PCIDevice::matches_pattern(&addr, id, t, &PCIFind::new(0x8086, 0x1111)), None);
}

#[test]
fn search_picks_lowest_address_after_last() {
    let devices = vec![
        device(0, 5, 0, 0x1234, 0x1111),
        device(0, 2, 0, 0x1234, 0x1111),
        device(0, 1, 0, 0x8086, 0x1237),
        device(1, 0, 0, 0x1234, 0x1111),
    ];
    let f = PCIFind::new(0x1234, 0x1111);
    let first = PCIDevice::search(&f, None, &devices).unwrap();
    assert_eq!(first.address.slot, 2);
    let key = first.address.config_address();
    let second = PCIDevice::search(&f, Some(key), &devices).unwrap();
    assert_eq!(second.address.slot, 5);
    let third = PCIDevice::search(&f, Some(second.address.config_address()), &devices).unwrap();
    assert_eq!(third.address.bus, 1);
    assert_eq!(PCIDevice::search(&f, Some(third.address.config_address()), &devices), None);
    assert_eq!(PCIDevice::search(&PCIFind::new(1, 1), None, &devices), None);
}

#[test]
fn memory_bar_32() {
    let bar = PCIDevice::get_bar(0xFEBC_0008, 0, 0xFFFF_0008, 0);
    assert!(bar.is_32bit() && bar.is_mmio() && !bar.is_iospace());
    assert_eq!(bar.get_type(), 0);
    assert_eq!(bar.addr(), 0xFEBC_0000);
    assert_eq!(bar.size(), 0x1_0000);
}

#[test]
fn memory_bar_64() {
    let bar = PCIDevice::get_bar(0xE000_000C, 0x1, 0xF000_000C, 0xFFFF_FFFF);
    assert!(bar.is_64bit() && bar.is_mmio());
    assert_eq!(bar.get_type(), 4);
    assert_eq!(bar.addr(), 0x1_E000_0000);
    assert_eq!(bar.size(), 0x1000_0000);
}

#[test]
fn io_bar() {
    let bar = PCIDevice::get_bar(0xC001, 0, 0xFFFF_FFE1, 0);
    assert!(bar.is_iospace() && !bar.is_mmio());
    assert_eq!(bar.get_type(), 1);
    assert_eq!(bar.addr(), 0xC000);
    assert_eq!(bar.size(), 0x20);
}

#[test]
fn low_memory_bar_has_no_size() {
    let bar = PCIDevice::get_bar(0x0000_0002, 0, 0xFFFF_FFF2, 0);
    assert!(bar.is_16bit() && bar.is_mmio());
    assert_eq!(bar.size(), 0);
    assert_eq!(PCIBAR { addr_raw: 0x2, size_raw: 0 }, bar);
}

fn adapter(w: u16, h: u16, bpp: u16) -> BochsGraphicsAdapter {
    let dev = device(0, 2, 0, 0x1234, 0x1111);
    let fb = PCIBAR { addr_raw: 0xFD00_0008, size_raw: 0x100_0000 };
    let mmio = PCIBAR { addr_raw: 0xFEBF_0000, size_raw: 0x1000 };
    BochsGraphicsAdapter::new(&dev, fb, mmio).init(bpp, w, h)
}

#[test]
fn bochs_default_mode() {
    let a = adapter(1024, 768, 32);
    assert_eq!(a.max_width, 1024);
    assert_eq!(a.get_default_mode(), Some(VideoMode { width: 800, height: 600, bpp: 32 }));
    assert_eq!(adapter(640, 480, 32).get_default_mode(), None);
    assert_eq!(adapter(1024, 768, 24).get_default_mode(), None);
}

#[test]
fn bochs_supports_resolution_edges() {
    let a = adapter(800, 600, 32);
    assert!(a.supports_resolution(VideoMode { width: 800, height: 600, bpp: 32 }));
    assert!(!a.supports_resolution(VideoMode { width: 801, height: 600, bpp: 32 }));
    assert!(!a.supports_resolution(VideoMode { width: 800, height: 601, bpp: 32 }));
    assert!(!a.supports_resolution(VideoMode { width: 800, height: 600, bpp: 33 }));
}

#[test]
fn bochs_addresses() {
    let a = adapter(800, 600, 32);
    assert_eq!(a.addr(), 0x8000_1000);
    assert_eq!(a.registers_addr(), 0xFEBF_0500);
    assert_eq!(BochsGraphicsAdapter::capability_enable(0x41), 0x43);
}

#[test]
fn bochs_mode_writes() {
    let mode = VideoMode { width: 800, height: 600, bpp: 32 };
    assert_eq!(
        BochsGraphicsAdapter::video_mode_writes(&mode, true),
        vec![(4, 0), (1, 800), (2, 600), (3, 32), (4, 65)]
    );
    assert_eq!(
        BochsGraphicsAdapter::video_mode_writes(&mode, false),
        vec![(4, 0), (1, 800), (2, 600), (3, 32), (4, 193)]
    );
}

#[test]
fn bochs_detect() {
    let devices = vec![device(0, 1, 0, 0x8086, 0x1237), device(0, 2, 0, 0x1234, 0x1111)];
    assert_eq!(BochsGraphicsAdapter::detect(&devices), Ok(devices[1]));
    assert_eq!(
        BochsGraphicsAdapter::detect(&devices[..1].to_vec()),
        Err("Could not find Bochs Graphics Adapter")
    );
}

#[test]
fn ansi_reset() {
    assert_eq!(AnsiAdapter::parse(b"0m"), (vec![Some(AnsiEscape::Reset)], 1));
}

#[test]
fn ansi_colours() {
    assert_eq!(
        AnsiAdapter::parse(b"32;44m"),
        (vec![Some(AnsiEscape::Foreground(2)), Some(AnsiEscape::Background(4))], 5)
    );
}

#[test]
fn ansi_bold_makes_colours_light() {
    assert_eq!(
        AnsiAdapter::parse(b"31;1;31;41m"),
        (
            vec![
                Some(AnsiEscape::Foreground(1)),
                None,
                Some(AnsiEscape::Foreground(9)),
                Some(AnsiEscape::Background(9)),
            ],
            10
        )
    );
}

#[test]
fn ansi_other_codes_and_trailing_bytes() {
    assert_eq!(AnsiAdapter::parse(b"4;255;+40;007mOK"), (vec![None, None, Some(AnsiEscape::Background(0)), None], 13));
}

#[test]
fn bus_scan_decisions() {
    assert_eq!(PCIDevice::function_count(0x80), 8);
    assert_eq!(PCIDevice::function_count(0x81), 8);
    assert_eq!(PCIDevice::function_count(0x00), 1);
    assert!(PCIDevice::is_bridge(0x81));
    assert!(PCIDevice::is_bridge(0x01));
    assert!(!PCIDevice::is_bridge(0x02));
    assert_eq!(PCIDevice::bar_offset(0), 0x10);
    assert_eq!(PCIDevice::bar_offset(2), 0x18);
}
