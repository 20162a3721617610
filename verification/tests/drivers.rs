use reenix::base::devices::{DeviceId, RDevice, RDeviceMut, WDevice, WDeviceMut};
use reenix::base::errno::Errno;
use reenix::drivers::blockdev::disk::ata::{
    default_channel, disk_for_interrupt, drive_exists, identify_step, ident_size, is_busy,
    transfer_result, ATADisk, IdentifyStep, COMMAND_READ_DMA, COMMAND_WRITE_DMA,
};
use reenix::drivers::blockdev::disk::dma::{align_offset, start_command, status_with_dma, Prd};
use reenix::drivers::bytedev::tty::keyboard::{default_handler, Keyboard, KeyboardEvent};
use reenix::drivers::bytedev::tty::ldisc::LineDiscipline;
use reenix::drivers::bytedev::tty::virtterm::screen::{cell_value, xy_to_offset, Screen, ScreenOp};
use reenix::drivers::bytedev::tty::virtterm::VirtualTerminal;
use reenix::drivers::bytedev::tty::{
    create_ttys, init_stage3, shutdown, tty_devid, TTYDriver, TTYLineDiscipline, TTY,
};
use reenix::drivers::bytedev::DeviceTree;
use reenix::drivers::memdev::{null_devid, zero_devid, NullDev, ZeroDev};

#[test]
fn null_device() {
    let d = NullDev::new();
    let mut buf = vec![7u8; 4];
    assert_eq!(d.read_from(0, &mut buf), Ok(0));
    assert_eq!(buf, vec![7u8; 4]);
    assert_eq!(d.write_to(3, &[1, 2, 3]), Ok(3));
    assert!(!d.is_still_useful());
    assert_eq!(d.get_id(), (DeviceId::create(3, 0), 0));
    let mut page = vec![9u8; 16];
    assert_eq!(d.fill_page(&mut page), Ok(()));
    assert_eq!(page, vec![0u8; 16]);
    assert_eq!(d.clean_page(), Ok(()));
    assert_eq!(d.dirty_page(), Ok(()));
    assert_eq!(null_devid(), DeviceId(0x300));
}

#[test]
fn zero_device() {
    let mut last = 0u32;
    let z = ZeroDev::new(&mut last);
    assert_eq!(z.0, 1);
    assert_eq!(last, 1);
    let z2 = ZeroDev::new(&mut last);
    assert_eq!(z2.0, 2);
    let mut wrap = u32::MAX;
    assert_eq!(ZeroDev::new(&mut wrap).0, 0);
    let mut buf = vec![5u8; 10];
    assert_eq!(z.read_from(0, &mut buf), Ok(10));
    assert_eq!(buf, vec![0u8; 10]);
    assert_eq!(z.write_to(0, &[1, 2]), Ok(2));
    assert_eq!(z.clean_page(), Err(Errno::ENOTSUP));
    assert_eq!(z2.get_id(), (zero_devid(), 2));
    assert_eq!(zero_devid(), DeviceId(0x301));
}

#[test]
fn device_tree_register_lookup() {
    let mut t: DeviceTree<u32> = DeviceTree::new();
    let a = DeviceId::create(2, 0);
    let b = DeviceId::create(2, 1);
    assert_eq!(t.lookup(a), None);
    assert!(t.register(a, 10));
    assert!(t.register(b, 11));
    assert!(!t.register(a, 99));
    assert_eq!(t.lookup(a), Some(&10));
    assert_eq!(t.lookup(b), Some(&11));
    assert_eq!(t.lookup(DeviceId::create(2, 2)), None);
}

#[test]
fn line_discipline_cooks_lines() {
    let mut l = LineDiscipline::create();
    assert!(!l.has_cooked());
    assert_eq!(l.recieve_char(b'h'), b"h".to_vec());
    assert_eq!(l.recieve_char(b'i'), b"i".to_vec());
    assert!(!l.has_cooked());
    assert_eq!(l.recieve_char(b'\n'), b"\n".to_vec());
    assert!(l.has_cooked());
    assert_eq!(l.recieve_char(b'x'), b"x".to_vec());
    let mut buf = [0u8; 10];
    assert_eq!(l.read_from(0, &mut buf), Ok(3));
    assert_eq!(&buf[..3], b"hi\n");
    assert!(!l.has_cooked());
}

#[test]
fn line_discipline_erase_and_tab() {
    let mut l = LineDiscipline::create();
    assert_eq!(l.recieve_char(0x08), Vec::<u8>::new()); // nothing to erase
    l.recieve_char(b'a');
    l.recieve_char(b'b');
    assert_eq!(l.recieve_char(0x7f), b"\x08 \x08".to_vec());
    assert_eq!(l.recieve_char(b'\t'), b"    ".to_vec());
    assert_eq!(l.recieve_char(0), Vec::<u8>::new());
    assert_eq!(l.recieve_char(b'\r'), b"\r".to_vec());
    let mut buf = [0u8; 16];
    assert_eq!(l.read_from(0, &mut buf), Ok(6));
    assert_eq!(&buf[..6], b"a    \r");
}

#[test]
fn line_discipline_short_read() {
    let mut l = LineDiscipline::create();
    for &c in b"abcdef\x04" {
        l.recieve_char(c);
    }
    let mut buf = [0u8; 4];
    assert_eq!(l.read_from(0, &mut buf), Ok(4));
    assert_eq!(&buf, b"abcd");
    assert_eq!(l.read_from(0, &mut buf), Ok(3));
    assert_eq!(&buf[..3], b"ef\x04");
}

#[test]
fn line_discipline_full_buffer() {
    let mut l = LineDiscipline::create();
    for _ in 0..255 {
        l.recieve_char(b'a');
    }
    // With the buffer full a character overwrites the last one held.
    assert_eq!(l.recieve_char(b'b'), b"\x08b".to_vec());
}

#[test]
fn line_discipline_process_char() {
    let l = LineDiscipline::create();
    assert_eq!(l.process_char(b'\r'), b"\n".to_vec());
    assert_eq!(l.process_char(b'\n'), b"\n".to_vec());
    assert_eq!(l.process_char(b'\t'), b"    ".to_vec());
    assert_eq!(l.process_char(0x08), b"\x08 \x08".to_vec());
    assert_eq!(l.process_char(b'z'), b"z".to_vec());
    assert_eq!(l.process_char(0xe9), vec![0xc3, 0xa9]);
}

#[test]
fn keyboard_decodes_scancodes() {
    let mut k = Keyboard { curmask: 0, handler: default_handler };
    assert_eq!(k.handle_interrupt(0x1e), Some(KeyboardEvent::Normal(b'a')));
    assert_eq!(k.handle_interrupt(0x2a), None); // shift down
    assert_eq!(k.curmask, 0x1);
    assert_eq!(k.handle_interrupt(0x1e), Some(KeyboardEvent::Normal(b'A')));
    assert_eq!(k.handle_interrupt(0xaa), None); // shift up
    assert_eq!(k.curmask, 0x0);
    assert_eq!(k.handle_interrupt(0x1e), Some(KeyboardEvent::Normal(b'a')));
    assert_eq!(k.handle_interrupt(0x1d), None); // control down
    assert_eq!(k.handle_interrupt(0x1e), Some(KeyboardEvent::Normal(0x01)));
    assert_eq!(k.handle_interrupt(0x0e), Some(KeyboardEvent::ScrollUp));
    assert_eq!(k.handle_interrupt(0x1c), Some(KeyboardEvent::ScrollDown));
    assert_eq!(k.handle_interrupt(0x9d), None); // control up
    assert_eq!(k.handle_interrupt(0x3c), Some(KeyboardEvent::Switch(1)));
    // An escape scancode has the break bit set, so it is taken as a release
    // and the next key is not swallowed.
    assert_eq!(k.handle_interrupt(0xe0), None);
    assert_eq!(k.handle_interrupt(0x1e), Some(KeyboardEvent::Normal(b'a')));
    assert_eq!(k.handle_interrupt(0x9e), None); // release of an ordinary key
}

#[test]
fn virtual_terminal_draws() {
    let mut vt = VirtualTerminal::create();
    vt.provide_char(b'q'); // inactive: nothing to draw
    assert!(vt.take_pending().is_empty());
    vt.set_active();
    let ops = vt.take_pending();
    assert_eq!(ops.len(), 26); // every row, then the cursor
    match &ops[0] {
        ScreenOp::PutLine { row, line } => {
            assert_eq!(*row, 0);
            assert_eq!(line[0], b'q');
            assert_eq!(line[1], b' ');
        },
        _ => panic!("expected a line"),
    }
    match &ops[25] {
        ScreenOp::MoveCursor { x, y } => assert_eq!((*x, *y), (1, 0)),
        _ => panic!("expected the cursor"),
    }
    vt.provide_char(b'r');
    let ops = vt.take_pending();
    assert_eq!(ops.len(), 2);
    match &ops[0] {
        ScreenOp::PutChar { c, x, y } => assert_eq!((*c, *x, *y), (b'r', 1, 0)),
        _ => panic!("expected a character"),
    }
    match &ops[1] {
        ScreenOp::MoveCursor { x, y } => assert_eq!((*x, *y), (2, 0)),
        _ => panic!("expected the cursor"),
    }
    vt.provide_char(b'\n');
    let ops = vt.take_pending();
    assert_eq!(ops.len(), 1);
    match &ops[0] {
        ScreenOp::MoveCursor { x, y } => assert_eq!((*x, *y), (0, 1)),
        _ => panic!("expected the cursor"),
    }
}

#[test]
fn virtual_terminal_scrolls_at_bottom() {
    let mut vt = VirtualTerminal::create();
    vt.set_active();
    vt.take_pending();
    for _ in 0..24 {
        vt.provide_char(b'\n');
    }
    vt.take_pending();
    // The cursor is on the last row: one more line feed moves the view.
    vt.provide_char(b'\n');
    let ops = vt.take_pending();
    assert_eq!(ops.len(), 26);
    match &ops[25] {
        ScreenOp::MoveCursor { x, y } => assert_eq!((*x, *y), (0, 24)),
        _ => panic!("expected the cursor"),
    }
}

#[test]
fn tty_echo_and_read() {
    let mut t = TTY::create(VirtualTerminal::create(), LineDiscipline::create());
    t.set_active();
    t.driver.take_pending();
    t.handle_char(b'o');
    t.handle_char(b'k');
    t.handle_char(b'\n');
    assert_eq!(t.driver.take_pending().len(), 5);
    let mut buf = [0u8; 8];
    assert_eq!(t.read_from(0, &mut buf), Ok(3));
    assert_eq!(&buf[..3], b"ok\n");
    assert_eq!(t.write_to(0, b"ab"), Ok(2));
    assert_eq!(t.driver.take_pending().len(), 4);
}

#[test]
fn terminals_switch_and_messages() {
    let mut terms = create_ttys();
    assert_eq!(terms.current_id(), 0);
    terms.activate_current();
    terms.switch_tty(7); // no such terminal
    assert_eq!(terms.current_id(), 0);
    terms.switch_tty(2);
    assert_eq!(terms.current_id(), 2);
    terms.handle_keyboard_input(KeyboardEvent::Switch(1));
    assert_eq!(terms.current_id(), 1);
    terms.handle_keyboard_input(KeyboardEvent::Normal(b'x'));
    terms.handle_keyboard_input(KeyboardEvent::ScrollDown);
    init_stage3(&mut terms);
    shutdown(&mut terms);
    assert_eq!(terms.current_id(), 1);
    assert_eq!(tty_devid(2), DeviceId(0x202));
}

#[test]
fn screen_memory() {
    let mut s = Screen::new();
    assert_eq!(xy_to_offset(3, 2), 163);
    assert_eq!(cell_value(b'A', 0x0f), 0x0f41);
    assert_eq!(s.move_cursor(79, 24), (0x07, 0xcf)); // position 1999
    s.put_char(b'x', 1, 1);
    let line = vec![b'-'; 80];
    s.put_line(&line, 3);
    s.put_lines(&vec![vec![b'a'; 80], vec![b'b'; 80]], 10);
    assert_eq!(s.ram()[1 * 80 + 1], cell_value(b'x', 0x0f));
    assert_eq!(s.ram()[3 * 80 + 79], cell_value(b'-', 0x0f));
    assert_eq!(s.ram()[11 * 80], cell_value(b'b', 0x0f));
    s.clear();
    assert_eq!(s.ram()[11 * 80], cell_value(b' ', 0x0f));
    let mut rows: Vec<Vec<u8>> = Vec::new();
    for y in 0..25u8 {
        rows.push(vec![b'a' + y; 80]);
    }
    s.put_buf(&rows);
    assert_eq!(s.ram()[0], cell_value(b'a', 0x0f));
    assert_eq!(s.ram()[24 * 80 + 5], cell_value(b'a' + 24, 0x0f));
    assert_eq!(s.apply(&ScreenOp::MoveCursor { x: 0, y: 1 }), Some((0, 80)));
    assert_eq!(s.apply(&ScreenOp::PutChar { c: b'z', x: 0, y: 0 }), None);
}

#[test]
fn ata_requests() {
    let c = default_channel(0);
    assert_eq!(c.cmd, 0x1f0);
    assert_eq!(c.get_channel_num(), 0);
    assert_eq!(default_channel(1).get_channel_num(), 1);
    let d = ATADisk::create(c, true, 1000, 8);
    let q = d.request(3, false).unwrap();
    assert_eq!((q.seccount, q.lba0, q.lba1, q.lba2, q.command), (8, 24, 0, 0, COMMAND_READ_DMA));
    let big = ATADisk::create(c, true, 1 << 24, 8);
    let q = big.request(0x12345, true).unwrap();
    // Sector 0x91a28.
    assert_eq!((q.lba0, q.lba1, q.lba2, q.command), (0x28, 0x1a, 0x09, COMMAND_WRITE_DMA));
    assert_eq!(d.request(124, false).is_ok(), true);
    assert_eq!(d.request(125, false).err(), Some(Errno::EIO));
}

#[test]
fn ata_status() {
    assert!(!drive_exists(0));
    assert!(drive_exists(0x50));
    assert!(is_busy(0x80));
    assert!(!is_busy(0x58));
    assert_eq!(identify_step(0x01), IdentifyStep::Failed);
    assert_eq!(identify_step(0x08), IdentifyStep::Ready);
    assert_eq!(identify_step(0x40), IdentifyStep::Wait);
    assert_eq!(transfer_result(0x41), Err(Errno::EIO));
    assert_eq!(transfer_result(0x40), Ok(()));
    let mut ident = vec![0u32; 256];
    ident[30] = 20480;
    assert_eq!(ident_size(&ident), 20480);
    assert_eq!(disk_for_interrupt(&[0xd0, 0xd1], 0xd1), Some(1));
    assert_eq!(disk_for_interrupt(&[0xd0, 0xd1], 0x20), None);
}

#[test]
fn dma_descriptor() {
    let mut p = Prd::new();
    p.load(0x1000, 4096);
    assert_eq!((p.addr, p.count, p.last), (0x1000, 4096, 0x8000));
    p.buf[3] = 9;
    p.reset();
    assert_eq!(p.buf, [0u8; 128]);
    assert_eq!(start_command(true), 0b101);
    assert_eq!(start_command(false), 0b001);
    assert_eq!(status_with_dma(0x05), 0x65);
    assert_eq!(align_offset(64), 0);
    assert_eq!(align_offset(65), 31);
    assert_eq!(align_offset(95), 1);
}
