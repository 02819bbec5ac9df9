use qubes_gui_connection::header::{UntrustedHeader, WindowID};
use qubes_gui_connection::kinds::Msg;
use qubes_gui_connection::payload::{
    Button, Configure, Coordinates, Create, Crossing, Cursor, Destroy, Dock, DumpAck, Focus,
    KeymapNotify, Keypress, MapInfo, Message, Motion, Rectangle, ShmCmd, ShmImage, Unmap, WMClass,
    WMName, WindowDumpHeader, WindowFlags, WindowHints, WindowSize, XConf, XConfVersion,
};
use qubes_gui_connection::wire::{as_bytes, from_bytes, Wire};

fn rectangle() -> Rectangle {
    Rectangle {
        top_left: Coordinates { x: -2, y: 0x0102_0304 },
        size: WindowSize { width: 640, height: 480 },
    }
}

#[test]
fn integers_are_little_endian() {
    assert_eq!(as_bytes(&0x0001_0007u32), vec![7, 0, 1, 0]);
    assert_eq!(as_bytes(&0xdead_beefu32), vec![0xef, 0xbe, 0xad, 0xde]);
    assert_eq!(as_bytes(&-1i32), vec![0xff, 0xff, 0xff, 0xff]);
    assert_eq!(as_bytes(&i32::MIN), vec![0, 0, 0, 0x80]);
    assert_eq!(as_bytes(&i32::MAX), vec![0xff, 0xff, 0xff, 0x7f]);
    assert_eq!(from_bytes::<u32>(&[0x05, 0x01, 0, 0]), Some(0x105));
    assert_eq!(from_bytes::<i32>(&[0xfe, 0xff, 0xff, 0xff]), Some(-2));
    assert_eq!(from_bytes::<i32>(&[0, 0, 0, 0x80]), Some(i32::MIN));
    assert_eq!(from_bytes::<u32>(&[1, 2, 3]), None);
    assert_eq!(from_bytes::<u32>(&[1, 2, 3, 4, 5]), None);
}

#[test]
fn header_is_twelve_bytes() {
    let header = UntrustedHeader { ty: 148, window: WindowID::from(5), untrusted_len: 4 };
    let bytes = as_bytes(&header);
    assert_eq!(bytes, vec![0x94, 0, 0, 0, 5, 0, 0, 0, 4, 0, 0, 0]);
    assert_eq!(from_bytes::<UntrustedHeader>(&bytes), Some(header));
    assert_eq!(UntrustedHeader::size(), 12);
}

#[test]
fn keypress_image_is_field_after_field() {
    let key = Keypress {
        ty: 2,
        coordinates: Coordinates { x: 10, y: -1 },
        state: 0x100,
        keycode: 38,
    };
    let bytes = as_bytes(&key);
    assert_eq!(
        bytes,
        vec![2, 0, 0, 0, 10, 0, 0, 0, 0xff, 0xff, 0xff, 0xff, 0, 1, 0, 0, 38, 0, 0, 0]
    );
    assert_eq!(from_bytes::<Keypress>(&bytes), Some(key));
}

#[test]
fn xconf_version_image() {
    let xconf = XConfVersion {
        version: 0x0001_0007,
        xconf: XConf { size: WindowSize { width: 1024, height: 768 }, depth: 32, mem: 3145728 },
    };
    assert_eq!(
        as_bytes(&xconf),
        vec![7, 0, 1, 0, 0, 4, 0, 0, 0, 3, 0, 0, 32, 0, 0, 0, 0, 0, 0x30, 0]
    );
    assert_eq!(as_bytes(&xconf.xconf), as_bytes(&xconf)[4..].to_vec());
}

#[test]
fn sizes_of_the_payloads() {
    assert_eq!(Coordinates::size(), 8);
    assert_eq!(WindowSize::size(), 8);
    assert_eq!(Rectangle::size(), 16);
    assert_eq!(XConf::size(), 16);
    assert_eq!(XConfVersion::size(), 20);
    assert_eq!(MapInfo::size(), 8);
    assert_eq!(Create::size(), 24);
    assert_eq!(Keypress::size(), 20);
    assert_eq!(Button::size(), 20);
    assert_eq!(Motion::size(), 16);
    assert_eq!(Crossing::size(), 28);
    assert_eq!(Configure::size(), 20);
    assert_eq!(ShmImage::size(), 16);
    assert_eq!(Focus::size(), 12);
    assert_eq!(WMName::size(), 128);
    assert_eq!(Unmap::size(), 0);
    assert_eq!(Dock::size(), 0);
    assert_eq!(Destroy::size(), 0);
    assert_eq!(DumpAck::size(), 0);
    assert_eq!(KeymapNotify::size(), 32);
    assert_eq!(WindowHints::size(), 36);
    assert_eq!(WindowFlags::size(), 8);
    assert_eq!(ShmCmd::size(), 28);
    assert_eq!(WMClass::size(), 128);
    assert_eq!(WindowDumpHeader::size(), 16);
    assert_eq!(Cursor::size(), 4);
}

fn round_trip<W: Wire + PartialEq + std::fmt::Debug>(value: W) {
    let bytes = as_bytes(&value);
    assert_eq!(bytes.len(), W::size());
    assert_eq!(from_bytes::<W>(&bytes), Some(value));
    let mut longer = bytes.clone();
    longer.push(0);
    assert_eq!(from_bytes::<W>(&longer), None);
}

#[test]
fn every_payload_survives_the_wire() {
    round_trip(Coordinates { x: i32::MIN, y: i32::MAX });
    round_trip(WindowSize { width: 0, height: u32::MAX });
    round_trip(rectangle());
    round_trip(XConf { size: WindowSize { width: 1, height: 2 }, depth: 24, mem: 9 });
    round_trip(XConfVersion {
        version: 0x0001_0004,
        xconf: XConf { size: WindowSize { width: 1, height: 2 }, depth: 24, mem: 9 },
    });
    round_trip(MapInfo { transient_for: 7, override_redirect: 1 });
    round_trip(Create { rectangle: rectangle(), parent: 0, override_redirect: 0 });
    round_trip(Keypress { ty: 3, coordinates: Coordinates { x: 1, y: 2 }, state: 4, keycode: 5 });
    round_trip(Button { ty: 4, coordinates: Coordinates { x: -1, y: -2 }, state: 0, button: 1 });
    round_trip(Motion { coordinates: Coordinates { x: 5, y: 6 }, state: 7, is_hint: 1 });
    round_trip(Crossing {
        ty: 7,
        coordinates: Coordinates { x: 5, y: 6 },
        state: 1,
        mode: 2,
        detail: 3,
        focus: 4,
    });
    round_trip(Configure { rectangle: rectangle(), override_redirect: 1 });
    round_trip(ShmImage { rectangle: rectangle() });
    round_trip(Focus { ty: 9, mode: 0, detail: 7 });
    let mut name = WMName::default();
    name.data[0] = b'x';
    name.data[127] = 0xff;
    round_trip(name);
    round_trip(Unmap {});
    round_trip(Dock {});
    round_trip(Destroy {});
    round_trip(DumpAck {});
    let mut keys = [0u8; 32];
    keys[31] = 0x80;
    round_trip(KeymapNotify { keys });
    round_trip(WindowHints {
        flags: 16 | 32,
        min_size: WindowSize { width: 1, height: 2 },
        max_size: WindowSize { width: 3, height: 4 },
        size_increment: WindowSize { width: 5, height: 6 },
        size_base: WindowSize { width: 7, height: 8 },
    });
    round_trip(WindowFlags { set: 1, unset: 6 });
    round_trip(ShmCmd { shmid: 0, width: 1, height: 2, bpp: 24, off: 3, num_mfn: 4, domid: 0 });
    let mut class = WMClass::default();
    class.res_class[0] = 1;
    class.res_name[63] = 2;
    round_trip(class);
    round_trip(WindowDumpHeader { ty: 0, width: 640, height: 480, bpp: 24 });
    round_trip(Cursor { cursor: 0x105 });
    round_trip(UntrustedHeader { ty: u32::MAX, window: WindowID::from(0), untrusted_len: 7 });
}

#[test]
fn names_default_to_zeros() {
    assert_eq!(as_bytes(&WMName::default()), vec![0u8; 128]);
    assert_eq!(as_bytes(&WMClass::default()), vec![0u8; 128]);
    assert_eq!(Keypress::default().keycode, 0);
}

#[test]
fn class_image_is_class_then_name() {
    let mut class = WMClass::default();
    class.res_class[0] = b'c';
    class.res_name[0] = b'n';
    let bytes = as_bytes(&class);
    assert_eq!(bytes[0], b'c');
    assert_eq!(bytes[64], b'n');
}

#[test]
fn payloads_know_their_kinds() {
    assert_eq!(MapInfo::kind(), Msg::MapWindow);
    assert_eq!(Create::kind(), Msg::Create);
    assert_eq!(Keypress::kind(), Msg::Keypress);
    assert_eq!(Button::kind(), Msg::Button);
    assert_eq!(Motion::kind(), Msg::Motion);
    assert_eq!(Crossing::kind(), Msg::Crossing);
    assert_eq!(Configure::kind(), Msg::Configure);
    assert_eq!(ShmImage::kind(), Msg::ShmImage);
    assert_eq!(Focus::kind(), Msg::Focus);
    assert_eq!(WMName::kind(), Msg::SetTitle);
    assert_eq!(KeymapNotify::kind(), Msg::KeymapNotify);
    assert_eq!(WindowHints::kind(), Msg::WindowHints);
    assert_eq!(WindowFlags::kind(), Msg::WindowFlags);
    assert_eq!(ShmCmd::kind(), Msg::ShmImage);
    assert_eq!(WMClass::kind(), Msg::WindowClass);
    assert_eq!(WindowDumpHeader::kind(), Msg::WindowDump);
    assert_eq!(Cursor::kind(), Msg::Cursor);
    assert_eq!(Destroy::kind(), Msg::Destroy);
    assert_eq!(Dock::kind(), Msg::Dock);
    assert_eq!(Unmap::kind(), Msg::Unmap);
}
