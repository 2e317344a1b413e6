use kernel_core::control_plane::{
    cp_cache_access, cp_cache_mask, cp_cache_miss, cp_cache_usage, cp_core_base, cp_core_dsid,
    cp_core_hartid, cp_core_size, cp_mem_cached, cp_mem_freq, cp_mem_inc, cp_mem_size,
    cp_mem_uncached, read_result, write_result, CPRegister, CP_CTRL_READ, CP_CTRL_WRITE,
    CP_PROTOCOL_BEGIN, CP_PROTOCOL_END, CP_REG_CACHE, CP_REG_CORE, CP_REG_IO, CP_REG_MEM, CP_TAB_P,
    CP_TAB_S, CP_TAB_T,
};
use kernel_core::cp_request::{CPCommand, CPResponse, CP_COMMAND_SIZE, CP_RESPONSE_SIZE};
use kernel_core::prm::{command_frame, prm_getbyte, prm_send_command, putfmt, PRMSerial};

#[test]
fn command_goes_out_most_significant_byte_first() {
    let cmd = CPCommand { val: 0x1234_5678, rw: 1, cp: 2, tab: 3, col: 4, row: 5, end: 0xed };
    assert_eq!(cmd.as_raw(), [0x12, 0x34, 0x56, 0x78, 1, 2, 3, 4, 5, 0xed, 0, 0]);
    assert_eq!(cmd.as_raw().len(), CP_COMMAND_SIZE);
}

#[test]
fn response_goes_out_and_comes_back() {
    let res = CPResponse { val: 0xdead_beef, valid: 1 };
    assert_eq!(res.as_raw(), [0xde, 0xad, 0xbe, 0xef, 1, 0, 0, 0]);
    assert_eq!(res.as_raw().len(), CP_RESPONSE_SIZE);
    assert_eq!(CPResponse::from_raw(&res.as_raw()), res);
    assert_eq!(
        CPResponse::from_raw(&[0, 0, 1, 2, 9]),
        CPResponse { val: 0x0102, valid: 9 }
    );
    assert_eq!(
        CPResponse::from_raw(&[0xff, 0xff, 0xff, 0xff, 0, 7, 7]),
        CPResponse { val: u32::MAX, valid: 0 }
    );
}

#[test]
fn protocol_constants() {
    assert_eq!(CP_PROTOCOL_BEGIN, [0xca, 0xfe]);
    assert_eq!(CP_PROTOCOL_END, 0xed);
    assert_eq!((CP_CTRL_READ, CP_CTRL_WRITE), (0, 1));
    assert_eq!((CP_REG_CORE, CP_REG_MEM, CP_REG_CACHE, CP_REG_IO), (0, 1, 2, 3));
    assert_eq!((CP_TAB_P, CP_TAB_S, CP_TAB_T), (0, 1, 2));
}

#[test]
fn named_registers() {
    assert_eq!(cp_core_dsid(), CPRegister::new(0, 0, 0));
    assert_eq!(cp_core_base(), CPRegister::new(0, 0, 1));
    assert_eq!(cp_core_size(), CPRegister::new(0, 0, 2));
    assert_eq!(cp_core_hartid(), CPRegister::new(0, 0, 3));
    assert_eq!(cp_mem_size(), CPRegister::new(1, 0, 0));
    assert_eq!(cp_mem_freq(), CPRegister::new(1, 0, 1));
    assert_eq!(cp_mem_inc(), CPRegister::new(1, 0, 2));
    assert_eq!(cp_mem_cached(), CPRegister::new(1, 1, 0));
    assert_eq!(cp_mem_uncached(), CPRegister::new(1, 1, 1));
    assert_eq!(cp_cache_mask(), CPRegister::new(2, 0, 0));
    assert_eq!(cp_cache_access(), CPRegister::new(2, 1, 0));
    assert_eq!(cp_cache_miss(), CPRegister::new(2, 1, 1));
    assert_eq!(cp_cache_usage(), CPRegister::new(2, 1, 2));
}

#[test]
fn register_read_sends_a_read_command() {
    let reg = CPRegister::new(1, 2, 3);
    let mut sent = None;
    let got = reg.read(4, |cmd| {
        sent = Some(cmd);
        CPResponse { val: 77, valid: 1 }
    });
    assert_eq!(got, Ok(77));
    assert_eq!(
        sent,
        Some(CPCommand { val: 0, rw: 0, cp: 1, tab: 2, col: 3, row: 4, end: 0xed })
    );
    assert_eq!(reg.read_command(4), sent.unwrap());
    assert_eq!(reg.read(4, |_| CPResponse { val: 77, valid: 0 }), Err(()));
    assert_eq!(reg.read(4, |_| CPResponse { val: 77, valid: 2 }), Err(()));
}

#[test]
fn register_write_sends_a_write_command() {
    let reg = cp_core_hartid();
    let mut sent = None;
    let got = reg.write(0, 10, |cmd| {
        sent = Some(cmd);
        CPResponse { val: 0, valid: 1 }
    });
    assert_eq!(got, Ok(()));
    assert_eq!(
        sent,
        Some(CPCommand { val: 10, rw: 1, cp: 0, tab: 0, col: 3, row: 0, end: 0xed })
    );
    assert_eq!(reg.write_command(0, 10), sent.unwrap());
    assert_eq!(reg.write(0, 10, |_| CPResponse { val: 0, valid: 0 }), Err(()));
}

#[test]
fn results_depend_on_the_validity_byte() {
    assert_eq!(read_result(CPResponse { val: 5, valid: 1 }), Ok(5));
    assert_eq!(read_result(CPResponse { val: 5, valid: 0 }), Err(()));
    assert_eq!(read_result(CPResponse { val: 5, valid: 255 }), Err(()));
    assert_eq!(write_result(CPResponse { val: 5, valid: 1 }), Ok(()));
    assert_eq!(write_result(CPResponse { val: 5, valid: 3 }), Err(()));
}

#[test]
fn command_frame_opens_with_the_protocol_bytes() {
    let cmd = CPCommand { val: 1, rw: 0, cp: 0, tab: 0, col: 3, row: 0, end: 0xed };
    assert_eq!(
        command_frame(&cmd),
        vec![0xca, 0xfe, 0, 0, 0, 1, 0, 0, 0, 3, 0, 0xed, 0, 0]
    );
}

#[test]
fn send_command_frames_and_decodes() {
    let cmd = CPCommand { val: 0x0a0b_0c0d, rw: 1, cp: 2, tab: 1, col: 0, row: 9, end: 0xed };
    let mut wire = Vec::new();
    let res = prm_send_command(cmd, |frame| {
        wire = frame;
        [0, 0, 0x12, 0x34, 1, 0, 0, 0]
    });
    assert_eq!(wire, vec![0xca, 0xfe, 0x0a, 0x0b, 0x0c, 0x0d, 1, 2, 1, 0, 9, 0xed, 0, 0]);
    assert_eq!(res, CPResponse { val: 0x1234, valid: 1 });
}

#[test]
fn serial_text_is_translated_for_the_terminal() {
    let mut serial = PRMSerial::new();
    serial.write_str("ab\n");
    assert_eq!(serial.take(), vec![b'a', b'b', 13, 10]);
    assert_eq!(serial.take(), Vec::<u8>::new());
    serial.write_str("x\u{7f}y");
    assert_eq!(serial.take(), vec![b'x', 8, b' ', 8, b'y']);
    serial.write_str("");
    assert_eq!(serial.take(), Vec::<u8>::new());
    serial.write_str("\r");
    assert_eq!(serial.take(), vec![13]);
}

#[test]
fn serial_keeps_what_is_pending() {
    let mut serial = PRMSerial::new();
    serial.putbyte(0xca);
    putfmt(&mut serial, "ok\n");
    serial.putbyte(127);
    assert_eq!(serial.take(), vec![0xca, b'o', b'k', 13, 10, 127]);
}

#[test]
fn byte_of_a_word_is_its_low_eight_bits() {
    assert_eq!(prm_getbyte(0), 0);
    assert_eq!(prm_getbyte(0x41), 0x41);
    assert_eq!(prm_getbyte(0x1ff), 0xff);
    assert_eq!(prm_getbyte(0x100), 0);
    assert_eq!(prm_getbyte(usize::MAX), 0xff);
}
