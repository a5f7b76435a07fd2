use lib_kern::io::{CharDevice, DeviceMap, ReadWrite};

struct Sink {
    out: Vec<u8>,
    rw: ReadWrite,
}

impl CharDevice for Sink {
    fn write_u8(&mut self, val: u8) {
        self.out.push(val);
    }

    fn write_str(&mut self, val: &str) {
        self.out.extend_from_slice(val.as_bytes());
    }

    fn get_rw(&self) -> ReadWrite {
        self.rw
    }
}

fn sink(rw: ReadWrite) -> Sink {
    Sink { out: Vec::new(), rw }
}

#[test]
fn device_names_are_unique() {
    let mut m = DeviceMap::new();
    assert_eq!(m.insert("tty0".to_string(), sink(ReadWrite::WriteOnly)), Ok(()));
    assert_eq!(m.insert("sty0".to_string(), sink(ReadWrite::ReadOnly)), Ok(()));
    assert_eq!(m.insert("tty0".to_string(), sink(ReadWrite::ReadWrite)), Err(()));
    assert_eq!(m.dump_names(), vec!["tty0".to_string(), "sty0".to_string()]);
    assert_eq!(m.get("tty0").unwrap().get_rw(), ReadWrite::WriteOnly);
}

#[test]
fn device_get_writes_through() {
    let mut m = DeviceMap::new();
    assert_eq!(m.insert("tty0".to_string(), sink(ReadWrite::WriteOnly)), Ok(()));
    m.get("tty0").unwrap().write_str("hi");
    m.get("tty0").unwrap().write_u8(b'!');
    assert_eq!(m.get("tty0").unwrap().out, b"hi!".to_vec());
    assert!(m.get("tty1").is_none());
    assert!(m.has_room());
}
