use kernel_core::console::{InputQueue, LineBuffer, DELETE};
use kernel_core::trap::{
    handle_break, handle_syscall, rust_trap, syscall_request, syscall_return, Info, Kind, Source,
    Syndrome, TrapAction, TrapFrame,
};

fn type_in(buffer: &mut LineBuffer, text: &str) -> (String, bool) {
    let mut echo = String::new();
    let mut complete = false;
    for c in text.chars() {
        let step = buffer.feed(c);
        if let Some(e) = step.echo {
            echo.push(e);
        }
        complete = step.complete;
    }
    (echo, complete)
}

#[test]
fn line_takes_printable_characters() {
    let mut buffer = LineBuffer::new();
    let (echo, complete) = type_in(&mut buffer, "ls -l ~");
    assert_eq!(echo, "ls -l ~");
    assert!(!complete);
    assert_eq!(buffer.into_line(), "ls -l ~");
}

#[test]
fn delete_takes_the_last_character_off() {
    let mut buffer = LineBuffer::new();
    let (echo, _) = type_in(&mut buffer, "ab\u{7f}c");
    assert_eq!(echo, "ab\u{7f}c");
    assert_eq!(buffer.into_line(), "ac");
}

#[test]
fn delete_on_an_empty_line_is_silent() {
    let mut buffer = LineBuffer::new();
    let step = buffer.feed(DELETE);
    assert_eq!(step.echo, None);
    assert!(!step.complete);
    assert_eq!(buffer.into_line(), "");
}

#[test]
fn line_ends_at_line_feed_or_carriage_return() {
    let mut buffer = LineBuffer::new();
    let (echo, complete) = type_in(&mut buffer, "hi\r");
    assert_eq!(echo, "hi\n");
    assert!(complete);
    assert_eq!(buffer.into_line(), "hi");
    let mut buffer = LineBuffer::new();
    let step = buffer.feed('\n');
    assert_eq!(step.echo, Some('\n'));
    assert!(step.complete);
}

#[test]
fn other_characters_are_ignored() {
    let mut buffer = LineBuffer::new();
    let (echo, complete) = type_in(&mut buffer, "a\u{1b}\t\u{0}\u{e9}b");
    assert_eq!(echo, "ab");
    assert!(!complete);
    assert_eq!(buffer.into_line(), "ab");
}

#[test]
fn input_queue_is_first_in_first_out() {
    let mut queue = InputQueue::new();
    assert_eq!(queue.pop(), None);
    queue.push('a');
    queue.push('b');
    assert_eq!(queue.pop(), Some('a'));
    queue.push('c');
    assert_eq!(queue.pop(), Some('b'));
    assert_eq!(queue.pop(), Some('c'));
    assert_eq!(queue.pop(), None);
}

const BRK: u32 = 0x3c << 26;
const SVC: u32 = 0x15 << 26;

#[test]
fn syndrome_is_decoded_from_class_and_immediate() {
    assert_eq!(Syndrome::from_esr(BRK | 0x1234), Syndrome::Brk(0x1234));
    assert_eq!(Syndrome::from_esr(SVC | 0xffff), Syndrome::Svc(0xffff));
    // The bits between the class and the immediate do not count.
    assert_eq!(Syndrome::from_esr(SVC | (1 << 25) | 7), Syndrome::Svc(7));
    assert_eq!(Syndrome::from_esr(0), Syndrome::Other);
    assert_eq!(Syndrome::from_esr(u32::MAX), Syndrome::Other);
    assert_eq!(Syndrome::from_esr(0x3d << 26), Syndrome::Other);
}

fn frame() -> TrapFrame {
    let mut x1to29 = [0usize; 29];
    for (i, x) in x1to29.iter_mut().enumerate() {
        *x = 100 + i;
    }
    TrapFrame { elr: 0x4000, x0: 99, x1to29 }
}

#[test]
fn info_keeps_source_and_kind() {
    let info = Info::new(Source::LowerAArch64, Kind::Irq);
    assert_eq!(info.source(), Source::LowerAArch64);
    assert_eq!(info.kind(), Kind::Irq);
}

#[test]
fn breakpoint_is_stepped_over() {
    let mut tf = frame();
    let info = Info::new(Source::LowerAArch64, Kind::Synchronous);
    assert_eq!(rust_trap(info, BRK | 3, &mut tf), TrapAction::Resume);
    assert_eq!(tf.elr, 0x4004);
    assert_eq!(tf.x0, 99);
    let mut tf = frame();
    handle_break(0, &mut tf);
    assert_eq!(tf.elr, 0x4004);
}

#[test]
fn trap_dispatch() {
    let sync = Info::new(Source::LowerAArch64, Kind::Synchronous);
    let mut tf = frame();
    assert_eq!(rust_trap(sync, SVC, &mut tf), TrapAction::Syscall);
    assert_eq!(rust_trap(sync, 0, &mut tf), TrapAction::Error);
    // A data abort from a lower exception level.
    assert_eq!(rust_trap(sync, 0x24 << 26, &mut tf), TrapAction::Error);
    let irq = Info::new(Source::CurrentSpElx, Kind::Irq);
    // The syndrome counts for synchronous exceptions only.
    assert_eq!(rust_trap(irq, BRK | 1, &mut tf), TrapAction::Irq);
    let fiq = Info::new(Source::CurrentSpEl0, Kind::Fiq);
    assert_eq!(rust_trap(fiq, SVC | 1, &mut tf), TrapAction::Error);
    let serror = Info::new(Source::LowerAArch32, Kind::SError);
    assert_eq!(rust_trap(serror, 0, &mut tf), TrapAction::Error);
    assert_eq!(tf, frame());
}

#[test]
fn system_call_reads_x8_and_x0_to_x5() {
    let tf = frame();
    assert_eq!(syscall_request(&tf), (107, [99, 100, 101, 102, 103, 104]));
}

#[test]
fn system_call_result_goes_to_x0() {
    let mut tf = frame();
    let mut seen = None;
    handle_syscall(&mut tf, |id, args| {
        seen = Some((id, args));
        42
    });
    assert_eq!(seen, Some((107, [99, 100, 101, 102, 103, 104])));
    assert_eq!(tf.x0, 42);
    assert_eq!(tf.elr, 0x4000);
    assert_eq!(tf.x1to29, frame().x1to29);
}

#[test]
fn negative_result_is_sign_extended() {
    let mut tf = frame();
    syscall_return(&mut tf, -1);
    assert_eq!(tf.x0, usize::MAX);
    syscall_return(&mut tf, -22);
    assert_eq!(tf.x0, (-22i32) as usize);
    syscall_return(&mut tf, i32::MIN);
    assert_eq!(tf.x0, i32::MIN as usize);
    syscall_return(&mut tf, i32::MAX);
    assert_eq!(tf.x0, i32::MAX as usize);
    syscall_return(&mut tf, 0);
    assert_eq!(tf.x0, 0);
}

#[test]
fn kinds_and_sources_are_numbered_as_in_the_vector_table() {
    let kinds = [Kind::Synchronous, Kind::Irq, Kind::Fiq, Kind::SError];
    let sources =
        [Source::CurrentSpEl0, Source::CurrentSpElx, Source::LowerAArch64, Source::LowerAArch32];
    for n in 0..4u16 {
        assert_eq!(kinds[n as usize].number(), n);
        assert_eq!(Kind::from_number(n), Some(kinds[n as usize]));
        assert_eq!(sources[n as usize].number(), n);
        assert_eq!(Source::from_number(n), Some(sources[n as usize]));
    }
    assert_eq!(Kind::from_number(4), None);
    assert_eq!(Source::from_number(u16::MAX), None);
}

#[test]
fn default_input_queue_is_empty() {
    let mut queue = InputQueue::default();
    assert_eq!(queue.pop(), None);
}
