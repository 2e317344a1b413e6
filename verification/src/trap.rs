//! What to do about a trap: the decision, and the parts of the trap frame
//! that a break and a system call touch.

use vstd::prelude::*;

verus! {

/// The kind of an exception.
#[derive(Debug, PartialEq, Eq, Copy, Clone, Structural)]
pub enum Kind {
    Synchronous,
    Irq,
    Fiq,
    SError,
}

/// Where an exception came from.
#[derive(Debug, PartialEq, Eq, Copy, Clone, Structural)]
pub enum Source {
    CurrentSpEl0,
    CurrentSpElx,
    LowerAArch64,
    LowerAArch32,
}

impl Kind {
    /// The number of the kind in the vector table.
    pub open spec fn spec_number(self) -> u16 {
        match self {
            Kind::Synchronous => 0,
            Kind::Irq => 1,
            Kind::Fiq => 2,
            Kind::SError => 3,
        }
    }

    /// The number of the kind in the vector table.
    pub fn number(self) -> (n: u16)
        ensures
            n == self.spec_number(),
    {
        match self {
            Kind::Synchronous => 0,
            Kind::Irq => 1,
            Kind::Fiq => 2,
            Kind::SError => 3,
        }
    }

    /// The kind with the number `n`, if there is one.
    pub fn from_number(n: u16) -> (kind: Option<Kind>)
        ensures
            match kind {
                Some(k) => k.spec_number() == n,
                None => n > 3,
            },
    {
        if n == 0 {
            Some(Kind::Synchronous)
        } else if n == 1 {
            Some(Kind::Irq)
        } else if n == 2 {
            Some(Kind::Fiq)
        } else if n == 3 {
            Some(Kind::SError)
        } else {
            None
        }
    }
}

impl Source {
    /// The number of the source in the vector table.
    pub open spec fn spec_number(self) -> u16 {
        match self {
            Source::CurrentSpEl0 => 0,
            Source::CurrentSpElx => 1,
            Source::LowerAArch64 => 2,
            Source::LowerAArch32 => 3,
        }
    }

    /// The number of the source in the vector table.
    pub fn number(self) -> (n: u16)
        ensures
            n == self.spec_number(),
    {
        match self {
            Source::CurrentSpEl0 => 0,
            Source::CurrentSpElx => 1,
            Source::LowerAArch64 => 2,
            Source::LowerAArch32 => 3,
        }
    }

    /// The source with the number `n`, if there is one.
    pub fn from_number(n: u16) -> (source: Option<Source>)
        ensures
            match source {
                Some(s) => s.spec_number() == n,
                None => n > 3,
            },
    {
        if n == 0 {
            Some(Source::CurrentSpEl0)
        } else if n == 1 {
            Some(Source::CurrentSpElx)
        } else if n == 2 {
            Some(Source::LowerAArch64)
        } else if n == 3 {
            Some(Source::LowerAArch32)
        } else {
            None
        }
    }
}

/// The source and the kind of an exception.
#[derive(Debug, PartialEq, Eq, Copy, Clone, Structural)]
pub struct Info {
    source: Source,
    kind: Kind,
}

impl Info {
    pub closed spec fn spec_source(&self) -> Source {
        self.source
    }

    pub closed spec fn spec_kind(&self) -> Kind {
        self.kind
    }

    pub fn new(source: Source, kind: Kind) -> (info: Info)
        ensures
            info.spec_source() == source,
            info.spec_kind() == kind,
    {
        Info { source, kind }
    }

    pub fn source(&self) -> (source: Source)
        ensures
            source == self.spec_source(),
    {
        self.source
    }

    pub fn kind(&self) -> (kind: Kind)
        ensures
            kind == self.spec_kind(),
    {
        self.kind
    }
}

/// What the syndrome register says of a synchronous exception, as far as the
/// dispatch cares.
#[derive(Debug, PartialEq, Eq, Copy, Clone, Structural)]
pub enum Syndrome {
    /// A breakpoint instruction with this immediate.
    Brk(u16),
    /// A supervisor call with this immediate.
    Svc(u16),
    /// Anything else.
    Other,
}

/// The bits of the syndrome register that hold the exception class.
pub const EXCEPTION_CLASS_SHIFT: u32 = 26;

/// The exception class of a supervisor call.
pub const CLASS_SVC: u32 = 0x15;

/// The exception class of a breakpoint instruction.
pub const CLASS_BRK: u32 = 0x3c;

/// The exception class that the syndrome register value `esr` holds: its top six bits.
pub open spec fn exception_class(esr: u32) -> u32 {
    esr / 0x400_0000
}

/// The immediate of the instruction that trapped: the low sixteen bits.
pub open spec fn immediate(esr: u32) -> u16 {
    (esr % 0x1_0000) as u16
}

/// What `esr` says, as far as the dispatch cares.
pub open spec fn spec_syndrome(esr: u32) -> Syndrome {
    if exception_class(esr) == CLASS_BRK {
        Syndrome::Brk(immediate(esr))
    } else if exception_class(esr) == CLASS_SVC {
        Syndrome::Svc(immediate(esr))
    } else {
        Syndrome::Other
    }
}

impl Syndrome {
    /// Decodes the value of the syndrome register.
    pub fn from_esr(esr: u32) -> (syndrome: Syndrome)
        ensures
            syndrome == spec_syndrome(esr),
    {
        let class = esr >> EXCEPTION_CLASS_SHIFT;
        let low = esr & 0xffff;
        assert(esr >> 26u32 == esr / 0x400_0000u32) by (bit_vector);
        assert(esr & 0xffffu32 == esr % 0x1_0000u32) by (bit_vector);
        if class == CLASS_BRK {
            Syndrome::Brk(low as u16)
        } else if class == CLASS_SVC {
            Syndrome::Svc(low as u16)
        } else {
            Syndrome::Other
        }
    }
}

/// The registers of the interrupted code that the handlers read and write.
#[derive(Debug, PartialEq, Eq, Copy, Clone)]
pub struct TrapFrame {
    /// The address at which execution resumes.
    pub elr: usize,
    pub x0: usize,
    /// The registers x1 to x29.
    pub x1to29: [usize; 29],
}

/// What is left to do about a trap.
#[derive(Debug, PartialEq, Eq, Copy, Clone, Structural)]
pub enum TrapAction {
    /// Nothing: the trap is dealt with.
    Resume,
    /// Serve the system call that the frame holds.
    Syscall,
    /// Serve the pending interrupt.
    Irq,
    /// The trap cannot be served.
    Error,
}

/// Bytes of one instruction.
pub const INSTRUCTION_SIZE: usize = 4;

/// What is done about an exception: a breakpoint is stepped over, a
/// supervisor call is a system call, an interrupt request is served, and
/// everything else is an error.
pub open spec fn spec_trap_action(info: Info, esr: u32) -> TrapAction {
    match info.spec_kind() {
        Kind::Synchronous => match spec_syndrome(esr) {
            Syndrome::Brk(_) => TrapAction::Resume,
            Syndrome::Svc(_) => TrapAction::Syscall,
            Syndrome::Other => TrapAction::Error,
        },
        Kind::Irq => TrapAction::Irq,
        _ => TrapAction::Error,
    }
}

/// Whether the exception is a breakpoint.
pub open spec fn is_break(info: Info, esr: u32) -> bool {
    info.spec_kind() == Kind::Synchronous && spec_syndrome(esr) is Brk
}

/// Steps over the breakpoint instruction at which the frame stands.
pub fn handle_break(num: u16, tf: &mut TrapFrame)
    requires
        old(tf).elr + INSTRUCTION_SIZE <= usize::MAX,
    ensures
        final(tf).elr == old(tf).elr + INSTRUCTION_SIZE,
        final(tf).x0 == old(tf).x0,
        final(tf).x1to29 == old(tf).x1to29,
{
    tf.elr = tf.elr + INSTRUCTION_SIZE;
}

/// The number of the system call that the frame asks for: register x8.
pub open spec fn spec_syscall_id(tf: TrapFrame) -> usize {
    tf.x1to29@[7]
}

/// The arguments of the system call that the frame asks for: registers x0 to x5.
pub open spec fn spec_syscall_args(tf: TrapFrame) -> Seq<usize> {
    seq![tf.x0, tf.x1to29@[0], tf.x1to29@[1], tf.x1to29@[2], tf.x1to29@[3], tf.x1to29@[4]]
}

/// A system call's result as the register x0 holds it: the number itself, in
/// two's complement if it is negative.
pub open spec fn spec_return_value(ret: i32) -> usize {
    if ret >= 0 {
        ret as usize
    } else {
        (usize::MAX + 1 + ret) as usize
    }
}

/// The number and the arguments of the system call that the frame asks for.
pub fn syscall_request(tf: &TrapFrame) -> (r: (usize, [usize; 6]))
    ensures
        r.0 == spec_syscall_id(*tf),
        r.1@ == spec_syscall_args(*tf),
{
    let args = [tf.x0, tf.x1to29[0], tf.x1to29[1], tf.x1to29[2], tf.x1to29[3], tf.x1to29[4]];
    assert(args@ =~= spec_syscall_args(*tf));
    (tf.x1to29[7], args)
}

/// Puts the result of a system call where the caller finds it: in x0.
pub fn syscall_return(tf: &mut TrapFrame, ret: i32)
    ensures
        final(tf).x0 == spec_return_value(ret),
        final(tf).elr == old(tf).elr,
        final(tf).x1to29 == old(tf).x1to29,
{
    if ret >= 0 {
        tf.x0 = ret as usize;
    } else {
        let below: usize = (-(ret + 1)) as usize;
        tf.x0 = usize::MAX - below;
    }
}

/// Serves the system call that the frame holds: hands its number and
/// arguments to `syscall` and puts the result in x0.
pub fn handle_syscall<F: FnOnce(usize, [usize; 6]) -> i32>(tf: &mut TrapFrame, syscall: F)
    requires
        forall|id: usize, args: [usize; 6]|
            id == spec_syscall_id(*old(tf)) && args@ == spec_syscall_args(*old(tf)) ==> call_requires(
                syscall,
                (id, args),
            ),
    ensures
        exists|args: [usize; 6], ret: i32|
            args@ == spec_syscall_args(*old(tf)) && call_ensures(
                syscall,
                (spec_syscall_id(*old(tf)), args),
                ret,
            ) && final(tf).x0 == spec_return_value(ret),
        final(tf).elr == old(tf).elr,
        final(tf).x1to29 == old(tf).x1to29,
{
    let (id, args) = syscall_request(tf);
    let ret = syscall(id, args);
    syscall_return(tf, ret);
}

/// Decides what is done about the exception that `info` and the syndrome
/// register value `esr` describe, and does it where nothing but
/// the frame is involved: a breakpoint is stepped over. What is left to do
/// is the result.
pub fn rust_trap(info: Info, esr: u32, tf: &mut TrapFrame) -> (action: TrapAction)
    requires
        is_break(info, esr) ==> old(tf).elr + INSTRUCTION_SIZE <= usize::MAX,
    ensures
        action == spec_trap_action(info, esr),
        final(tf).x0 == old(tf).x0,
        final(tf).x1to29 == old(tf).x1to29,
        final(tf).elr == if is_break(info, esr) {
            old(tf).elr + INSTRUCTION_SIZE
        } else {
            old(tf).elr as int
        },
{
    match info.kind {
        // The syndrome is valid for synchronous exceptions only.
        Kind::Synchronous => match Syndrome::from_esr(esr) {
            Syndrome::Brk(num) => {
                handle_break(num, tf);
                TrapAction::Resume
            },
            Syndrome::Svc(_) => TrapAction::Syscall,
            Syndrome::Other => TrapAction::Error,
        },
        Kind::Irq => TrapAction::Irq,
        _ => TrapAction::Error,
    }
}

} // verus!
