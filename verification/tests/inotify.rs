use coreshift_lowlevel::inotify::{
    add_watch, decode_events, decode_events_in, native_order, read_events, ByteOrder, InotifyEvent,
    DELETE_SELF_MASK, HEADER_LEN, IGNORED_MASK, MODIFY_MASK, MOVE_SELF_MASK, PACKAGE_FILE_MASK,
    QUEUE_OVERFLOW_MASK, UNMOUNT_MASK,
};
use coreshift_lowlevel::spawn::{Step, SysError, EINVAL};

#[test]
fn test_decode_inotify_events() {
    let mut buf = Vec::new();

    // Event 1: wd=1, mask=0x2, len=0
    buf.extend_from_slice(&1i32.to_ne_bytes());
    buf.extend_from_slice(&2u32.to_ne_bytes());
    buf.extend_from_slice(&0u32.to_ne_bytes());
    buf.extend_from_slice(&0u32.to_ne_bytes());

    // Event 2: wd=2, mask=0x4, len=8
    buf.extend_from_slice(&2i32.to_ne_bytes());
    buf.extend_from_slice(&4u32.to_ne_bytes());
    buf.extend_from_slice(&0u32.to_ne_bytes());
    buf.extend_from_slice(&8u32.to_ne_bytes());
    buf.extend_from_slice(b"file.txt");

    // Event 3: truncated (only 8 bytes of header)
    buf.extend_from_slice(&3i32.to_ne_bytes());
    buf.extend_from_slice(&8u32.to_ne_bytes());

    let events = decode_events(&buf);
    assert_eq!(events.len(), 2);
    assert_eq!(events[0], InotifyEvent { wd: 1, mask: 2, name: None });
    assert_eq!(
        events[1],
        InotifyEvent { wd: 2, mask: 4, name: Some("file.txt".to_string()) }
    );
    assert_eq!(events[1].name.as_ref().unwrap().len(), 8);
}

#[test]
fn test_inotify_decode_with_name() {
    let mut buf = Vec::new();
    let name = "test_file.txt";
    let name_bytes = name.as_bytes();
    let mut name_with_padding = name_bytes.to_vec();
    name_with_padding.push(0);
    while name_with_padding.len() % 8 != 0 {
        name_with_padding.push(0);
    }
    let name_len = name_with_padding.len() as u32;

    buf.extend_from_slice(&1i32.to_ne_bytes());
    buf.extend_from_slice(&libc::IN_MODIFY.to_ne_bytes());
    buf.extend_from_slice(&0u32.to_ne_bytes());
    buf.extend_from_slice(&name_len.to_ne_bytes());
    buf.extend_from_slice(&name_with_padding);

    let events = decode_events(&buf);
    assert_eq!(events.len(), 1);
    assert_eq!(events[0].wd, 1);
    assert_eq!(events[0].name, Some(name.to_string()));
}

#[test]
fn masks_are_those_of_the_kernel() {
    assert_eq!(MODIFY_MASK, libc::IN_MODIFY);
    assert_eq!(DELETE_SELF_MASK, libc::IN_DELETE_SELF);
    assert_eq!(MOVE_SELF_MASK, libc::IN_MOVE_SELF);
    assert_eq!(
        PACKAGE_FILE_MASK,
        libc::IN_MODIFY | libc::IN_DELETE_SELF | libc::IN_MOVE_SELF
    );
    assert_eq!(UNMOUNT_MASK, libc::IN_UNMOUNT);
    assert_eq!(QUEUE_OVERFLOW_MASK, libc::IN_Q_OVERFLOW);
    assert_eq!(IGNORED_MASK, libc::IN_IGNORED);
    assert_eq!(HEADER_LEN, std::mem::size_of::<libc::inotify_event>());
}

#[test]
fn native_order_is_that_of_the_machine() {
    let expected = if 1u32.to_ne_bytes() == 1u32.to_le_bytes() {
        ByteOrder::Little
    } else {
        ByteOrder::Big
    };
    assert_eq!(native_order(), expected);
}

#[test]
fn both_byte_orders_decode() {
    let mut little = Vec::new();
    little.extend_from_slice(&(-1i32).to_le_bytes());
    little.extend_from_slice(&0x8001_0203u32.to_le_bytes());
    little.extend_from_slice(&7u32.to_le_bytes());
    little.extend_from_slice(&4u32.to_le_bytes());
    little.extend_from_slice(b"ab\0\0");
    let mut big = Vec::new();
    big.extend_from_slice(&(-1i32).to_be_bytes());
    big.extend_from_slice(&0x8001_0203u32.to_be_bytes());
    big.extend_from_slice(&7u32.to_be_bytes());
    big.extend_from_slice(&4u32.to_be_bytes());
    big.extend_from_slice(b"ab\0\0");
    let expected = vec![InotifyEvent {
        wd: -1,
        mask: 0x8001_0203,
        name: Some("ab".to_string()),
    }];
    assert_eq!(decode_events_in(&little, ByteOrder::Little), expected);
    assert_eq!(decode_events_in(&big, ByteOrder::Big), expected);
}

#[test]
fn every_cut_of_a_record_is_ignored() {
    let mut buf = Vec::new();
    buf.extend_from_slice(&5i32.to_le_bytes());
    buf.extend_from_slice(&2u32.to_le_bytes());
    buf.extend_from_slice(&0u32.to_le_bytes());
    buf.extend_from_slice(&4u32.to_le_bytes());
    buf.extend_from_slice(b"name");
    for kept in 0..buf.len() {
        assert!(decode_events_in(&buf[..kept], ByteOrder::Little).is_empty());
    }
    assert_eq!(decode_events_in(&buf, ByteOrder::Little).len(), 1);
}

#[test]
fn a_name_of_padding_alone_is_empty() {
    let mut buf = vec![0u8; 16];
    buf[12] = 2;
    buf.extend_from_slice(&[0, 0]);
    let events = decode_events_in(&buf, ByteOrder::Little);
    assert_eq!(events[0].name, Some(String::new()));
}

#[test]
fn invalid_utf8_in_a_name_is_replaced() {
    let mut buf = vec![0u8; 16];
    buf[12] = 3;
    buf.extend_from_slice(&[b'a', 0xff, b'b']);
    let events = decode_events_in(&buf, ByteOrder::Little);
    assert_eq!(events[0].name, Some("a\u{fffd}b".to_string()));
}

#[test]
fn watch_outcomes() {
    assert_eq!(add_watch("/tmp", 4, 0).unwrap(), 4);
    assert_eq!(add_watch("/tmp", 0, 0).unwrap(), 0);
    assert_eq!(
        add_watch("/tmp", -1, libc::ENOENT).unwrap_err().message(),
        "inotify_add_watch failed (code=2)"
    );
    let nul = add_watch("/t\0mp", 4, 0).unwrap_err();
    assert_eq!(nul.raw_os_error(), Some(EINVAL));
    assert_eq!(nul.message(), "inotify path contains nul failed (code=22)");
}

#[test]
fn reading_collects_until_it_would_block() {
    let mut one = Vec::new();
    one.extend_from_slice(&1i32.to_ne_bytes());
    one.extend_from_slice(&2u32.to_ne_bytes());
    one.extend_from_slice(&0u32.to_ne_bytes());
    one.extend_from_slice(&0u32.to_ne_bytes());
    let mut buf = one.clone();
    buf.resize(4096, 0xff);

    let mut events = Vec::new();
    assert!(matches!(read_events(&mut events, Ok(Some(16)), &buf), Step::Retry));
    assert!(matches!(read_events(&mut events, Ok(Some(16)), &buf), Step::Retry));
    assert_eq!(events.len(), 2);
    assert!(matches!(read_events(&mut events, Ok(None), &buf), Step::Done(Ok(()))));
    assert!(matches!(read_events(&mut events, Ok(Some(0)), &buf), Step::Done(Ok(()))));
    let failed = read_events(&mut events, Err(SysError::sys(libc::EIO, "read")), &buf);
    assert!(matches!(failed, Step::Done(Err(ref e)) if e.raw_os_error() == Some(libc::EIO)));
    assert_eq!(events.len(), 2);
}
