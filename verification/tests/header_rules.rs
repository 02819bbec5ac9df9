use qubes_gui_connection::header::{
    length_rule, BadLengthError, LengthRule, UntrustedHeader, WindowID,
};
use qubes_gui_connection::kinds::{
    MSG_CLIPBOARD_DATA, MSG_CLIPBOARD_REQ, MSG_CLOSE, MSG_DESTROY, MSG_DOCK, MSG_EXECUTE,
    MSG_KEYPRESS, MSG_MFNDUMP, MSG_RESIZE, MSG_UNMAP, MSG_WINDOW_DUMP, MSG_WINDOW_DUMP_ACK,
};

fn header(ty: u32, len: u32) -> UntrustedHeader {
    UntrustedHeader { ty, window: WindowID::from(1), untrusted_len: len }
}

#[test]
fn keypress_needs_twenty_bytes() {
    let good = header(MSG_KEYPRESS, 20).validate_length().unwrap().unwrap();
    assert_eq!(good.ty(), 124);
    assert_eq!(good.len(), 20);
    assert_eq!(good.untrusted_window(), WindowID { window: 1 });
    assert_eq!(good.inner(), header(124, 20));
    assert_eq!(
        header(MSG_KEYPRESS, 19).validate_length(),
        Err(BadLengthError { ty: 124, untrusted_len: 19 })
    );
    assert_eq!(
        header(MSG_KEYPRESS, 21).validate_length(),
        Err(BadLengthError { ty: 124, untrusted_len: 21 })
    );
}

#[test]
fn clipboard_data_is_capped() {
    assert!(header(MSG_CLIPBOARD_DATA, 0).validate_length().unwrap().is_some());
    assert!(header(MSG_CLIPBOARD_DATA, 65000).validate_length().unwrap().is_some());
    assert_eq!(
        header(MSG_CLIPBOARD_DATA, 65001).validate_length(),
        Err(BadLengthError { ty: 140, untrusted_len: 65001 })
    );
}

#[test]
fn window_dump_is_a_header_and_whole_grant_refs() {
    assert!(header(MSG_WINDOW_DUMP, 15).validate_length().is_err());
    assert!(header(MSG_WINDOW_DUMP, 16).validate_length().unwrap().is_some());
    assert!(header(MSG_WINDOW_DUMP, 20).validate_length().unwrap().is_some());
    assert!(header(MSG_WINDOW_DUMP, 19).validate_length().is_err());
    assert!(header(MSG_WINDOW_DUMP, 16 + 4 * 98_304).validate_length().unwrap().is_some());
    assert!(header(MSG_WINDOW_DUMP, 16 + 4 * 98_305).validate_length().is_err());
}

#[test]
fn mfn_dump_is_whole_page_numbers() {
    assert!(header(MSG_MFNDUMP, 0).validate_length().unwrap().is_some());
    assert!(header(MSG_MFNDUMP, 8).validate_length().unwrap().is_some());
    assert!(header(MSG_MFNDUMP, 6).validate_length().is_err());
    assert!(header(MSG_MFNDUMP, 4 * 98_304).validate_length().unwrap().is_some());
    assert!(header(MSG_MFNDUMP, 4 * 98_304 + 4).validate_length().is_err());
}

#[test]
fn fixed_lengths_follow_the_table() {
    let table: [(u32, u32); 21] = [
        (124, 20),
        (125, 20),
        (126, 20),
        (127, 36),
        (128, 12),
        (130, 28),
        (131, 0),
        (132, 8),
        (133, 0),
        (134, 20),
        (136, 16),
        (137, 0),
        (139, 0),
        (141, 128),
        (142, 32),
        (143, 0),
        (144, 36),
        (145, 8),
        (146, 128),
        (148, 4),
        (149, 0),
    ];
    for (ty, len) in table {
        assert_eq!(length_rule(ty), Some(LengthRule::Fixed(len)));
        let valid = header(ty, len).validate_length().unwrap().unwrap();
        assert_eq!(valid.ty(), ty);
        assert_eq!(valid.len(), len as usize);
        assert_eq!(
            header(ty, len + 1).validate_length(),
            Err(BadLengthError { ty, untrusted_len: len + 1 })
        );
    }
}

#[test]
fn bodiless_kinds_take_no_body() {
    for ty in [MSG_DESTROY, MSG_UNMAP, MSG_DOCK, MSG_CLOSE, MSG_CLIPBOARD_REQ, MSG_WINDOW_DUMP_ACK]
    {
        assert!(header(ty, 0).validate_length().unwrap().is_some());
        assert!(header(ty, 4).validate_length().is_err());
    }
}

#[test]
fn unknown_kinds_are_neither_good_nor_bad() {
    for ty in [0, 1, 123, MSG_RESIZE, 150, 999, u32::MAX] {
        assert_eq!(length_rule(ty), None);
        assert_eq!(header(ty, 0).validate_length(), Ok(None));
        assert_eq!(header(ty, 40).validate_length(), Ok(None));
    }
}

#[test]
fn execute_is_always_invalid() {
    assert_eq!(length_rule(MSG_EXECUTE), Some(LengthRule::Never));
    assert_eq!(
        header(MSG_EXECUTE, 0).validate_length(),
        Err(BadLengthError { ty: 138, untrusted_len: 0 })
    );
    assert!(header(MSG_EXECUTE, 255).validate_length().is_err());
}

#[test]
fn length_rules_admit_what_they_say() {
    assert!(LengthRule::Fixed(4).admits(4));
    assert!(!LengthRule::Fixed(4).admits(5));
    assert!(LengthRule::AtMost(10).admits(10));
    assert!(!LengthRule::AtMost(10).admits(11));
    let words = LengthRule::Words { lead: 16, max_words: 2 };
    assert!(words.admits(16));
    assert!(words.admits(24));
    assert!(!words.admits(28));
    assert!(!words.admits(18));
    assert!(!words.admits(12));
    assert!(!LengthRule::Never.admits(0));
}

#[test]
fn window_zero_is_the_whole_screen() {
    assert!(WindowID::from(0).is_whole_screen());
    assert!(!WindowID::from(5).is_whole_screen());
    assert_ne!(WindowID::from(0), WindowID::from(1));
}
