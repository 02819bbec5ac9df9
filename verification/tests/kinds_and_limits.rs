use qubes_gui_connection::kinds::{
    ButtonEvent, FocusEvent, KeyEvent, Msg, WindowFlag, WindowHintsFlags, MSG_CURSOR,
    MSG_KEYPRESS, MSG_WINDOW_DUMP_ACK,
};
use qubes_gui_connection::limits::{
    LISTENING_PORT, MAX_CLIPBOARD_SIZE, MAX_GRANT_REFS_COUNT, MAX_MFN_COUNT, MAX_WINDOW_HEIGHT,
    MAX_WINDOW_MEM, MAX_WINDOW_WIDTH, PROTOCOL_VERSION, PROTOCOL_VERSION_MAJOR,
    PROTOCOL_VERSION_MINOR, XC_PAGE_SIZE, DUMMY_DRV_FB_BPP,
};

#[test]
fn message_kinds_have_their_numbers() {
    assert_eq!(Msg::Keypress.value(), 124);
    assert_eq!(Msg::Resize.value(), 129);
    assert_eq!(Msg::MapWindow.value(), 132);
    assert_eq!(Msg::Unmap.value(), 133);
    assert_eq!(Msg::Dock.value(), 143);
    assert_eq!(Msg::DumpAck.value(), 149);
    assert_eq!(MSG_KEYPRESS, 124);
    assert_eq!(MSG_CURSOR, 148);
    assert_eq!(MSG_WINDOW_DUMP_ACK, 149);
}

#[test]
fn every_number_from_124_to_149_is_a_kind() {
    for value in 124..=149u32 {
        let kind = Msg::try_from(value).unwrap();
        assert_eq!(kind.value(), value);
    }
    assert_eq!(Msg::try_from(123), Err(123));
    assert_eq!(Msg::try_from(150), Err(150));
    assert_eq!(Msg::try_from(0), Err(0));
}

#[test]
fn events_have_their_numbers() {
    assert_eq!(KeyEvent::try_from(2), Ok(KeyEvent::Press));
    assert_eq!(KeyEvent::try_from(3), Ok(KeyEvent::Release));
    assert_eq!(KeyEvent::try_from(4), Err(4));
    assert_eq!(ButtonEvent::try_from(4), Ok(ButtonEvent::Press));
    assert_eq!(ButtonEvent::try_from(5), Ok(ButtonEvent::Release));
    assert_eq!(ButtonEvent::try_from(6), Err(6));
    assert_eq!(FocusEvent::try_from(9), Ok(FocusEvent::In));
    assert_eq!(FocusEvent::try_from(10), Ok(FocusEvent::Out));
    assert_eq!(FocusEvent::try_from(11), Err(11));
    assert_eq!(FocusEvent::Out.value(), 10);
    assert_eq!(ButtonEvent::Press.value(), 4);
    assert_eq!(KeyEvent::Release.value(), 3);
}

#[test]
fn flags_have_their_bits() {
    assert_eq!(WindowHintsFlags::USPosition.bits(), 1);
    assert_eq!(WindowHintsFlags::PPosition.bits(), 4);
    assert_eq!(WindowHintsFlags::PMinSize.bits(), 16);
    assert_eq!(WindowHintsFlags::PMaxSize.bits(), 32);
    assert_eq!(WindowHintsFlags::PResizeInc.bits(), 64);
    assert_eq!(WindowHintsFlags::PBaseSize.bits(), 256);
    assert_eq!(WindowFlag::Fullscreen.bits(), 1);
    assert_eq!(WindowFlag::DemandsAttention.bits(), 2);
    assert_eq!(WindowFlag::Minimize.bits(), 4);
}

#[test]
fn limits_have_their_values() {
    assert_eq!(LISTENING_PORT, 6000);
    assert_eq!(PROTOCOL_VERSION, 0x0001_0007);
    assert_eq!(PROTOCOL_VERSION, PROTOCOL_VERSION_MAJOR << 16 | PROTOCOL_VERSION_MINOR);
    assert_eq!(MAX_CLIPBOARD_SIZE, 65000);
    assert_eq!(MAX_WINDOW_WIDTH, 16384);
    assert_eq!(MAX_WINDOW_HEIGHT, 6144);
    assert_eq!(XC_PAGE_SIZE, 4096);
    assert_eq!(MAX_WINDOW_MEM, MAX_WINDOW_WIDTH * MAX_WINDOW_HEIGHT * (DUMMY_DRV_FB_BPP / 8));
    assert_eq!(MAX_MFN_COUNT, (MAX_WINDOW_MEM + XC_PAGE_SIZE - 1) / XC_PAGE_SIZE);
    assert_eq!(MAX_GRANT_REFS_COUNT, 98_304);
}
