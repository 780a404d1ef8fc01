use vstd::prelude::*;

use crate::console::{write_model, ConsoleModel, TextDisplay};
use crate::gdt::DOUBLE_FAULT_IST_INDEX;
use crate::keyboard::{KeyOutcome, KeyboardDecoder};

verus! {

/// Vector offset the primary interrupt controller is remapped to, clear of
/// the processor exception vectors 0 to 31.
pub const PIC_1_OFFSET: u8 = 32;

/// Vector offset the secondary interrupt controller is remapped to.
pub const PIC_2_OFFSET: u8 = PIC_1_OFFSET + 8;

/// Processor exception vector of a breakpoint trap.
pub const BREAKPOINT_VECTOR: u8 = 3;

/// Processor exception vector of a double fault.
pub const DOUBLE_FAULT_VECTOR: u8 = 8;

/// Processor exception vector of a general-protection fault.
pub const GENERAL_PROTECTION_VECTOR: u8 = 13;

/// The hardware interrupt lines this kernel services.
#[derive(Debug, Clone, Copy)]
pub enum InterruptIndex {
    Timer,
    Keyboard,
}

impl InterruptIndex {
    /// The interrupt vector the line is delivered on after remapping.
    pub open spec fn vector(self) -> u8 {
        match self {
            InterruptIndex::Timer => PIC_1_OFFSET,
            InterruptIndex::Keyboard => (PIC_1_OFFSET + 1) as u8,
        }
    }

    pub fn as_u8(self) -> (r: u8)
        ensures
            r == self.vector(),
    {
        match self {
            InterruptIndex::Timer => PIC_1_OFFSET,
            InterruptIndex::Keyboard => PIC_1_OFFSET + 1,
        }
    }

    pub fn as_usize(self) -> (r: usize)
        ensures
            r == self.vector(),
    {
        self.as_u8() as usize
    }
}

/// The handler a vector table entry routes to.
#[derive(Clone, Copy, PartialEq, Eq, Structural, Debug)]
pub enum HandlerKind {
    Breakpoint,
    GeneralProtection,
    DoubleFault,
    Timer,
    Keyboard,
}

/// One interrupt vector: empty, or bound to exactly one handler and, for
/// certain vectors, an explicit alternate-stack index.
#[derive(Clone, Copy)]
pub enum VectorBinding {
    Unbound,
    Bound { handler: HandlerKind, stack_index: Option<u8> },
}

/// The interrupt vector table: 256 entries, each bound at most once, built
/// before interrupts are enabled.
pub struct VectorTable {
    entries: Vec<VectorBinding>,
}

/// The bindings `init_idt` promises: breakpoint, general-protection-fault,
/// double-fault (on the isolated stack), timer and keyboard vectors are
/// populated; all others are empty.
pub open spec fn idt_configured(v: Seq<VectorBinding>) -> bool {
    &&& v.len() == 256
    &&& v[BREAKPOINT_VECTOR as int] == (VectorBinding::Bound {
        handler: HandlerKind::Breakpoint,
        stack_index: None,
    })
    &&& v[GENERAL_PROTECTION_VECTOR as int] == (VectorBinding::Bound {
        handler: HandlerKind::GeneralProtection,
        stack_index: None,
    })
    &&& v[DOUBLE_FAULT_VECTOR as int] == (VectorBinding::Bound {
        handler: HandlerKind::DoubleFault,
        stack_index: Some(DOUBLE_FAULT_IST_INDEX as u8),
    })
    &&& v[InterruptIndex::Timer.vector() as int] == (VectorBinding::Bound {
        handler: HandlerKind::Timer,
        stack_index: None,
    })
    &&& v[InterruptIndex::Keyboard.vector() as int] == (VectorBinding::Bound {
        handler: HandlerKind::Keyboard,
        stack_index: None,
    })
    &&& forall|i: int|
        0 <= i < 256 && i != BREAKPOINT_VECTOR && i != GENERAL_PROTECTION_VECTOR && i
            != DOUBLE_FAULT_VECTOR && i != InterruptIndex::Timer.vector() && i
            != InterruptIndex::Keyboard.vector() ==> v[i] is Unbound
}

impl VectorTable {
    pub closed spec fn view(&self) -> Seq<VectorBinding> {
        self.entries@
    }

    pub open spec fn wf(&self) -> bool {
        self@.len() == 256
    }

    /// A table of 256 empty entries.
    pub fn new() -> (r: VectorTable)
        ensures
            r.wf(),
            forall|i: int| 0 <= i < 256 ==> r@[i] is Unbound,
    {
        let mut entries: Vec<VectorBinding> = Vec::new();
        let mut i: usize = 0;
        while i < 256
            invariant
                i <= 256,
                entries@.len() == i,
                forall|j: int| 0 <= j < i ==> entries@[j] is Unbound,
            decreases 256 - i,
        {
            entries.push(VectorBinding::Unbound);
            i = i + 1;
        }
        VectorTable { entries }
    }

    /// The binding of one vector.
    pub fn get(&self, vector: u8) -> (r: VectorBinding)
        requires
            self.wf(),
        ensures
            r == self@[vector as int],
    {
        self.entries[vector as usize]
    }

    /// Binds one vector to a handler. A vector is bound exactly once,
    /// before interrupt enablement; rebinding must not occur.
    pub fn bind(&mut self, vector: u8, handler: HandlerKind, stack_index: Option<u8>)
        requires
            old(self).wf(),
            old(self)@[vector as int] is Unbound,
        ensures
            final(self).wf(),
            final(self)@ == old(self)@.update(
                vector as int,
                (VectorBinding::Bound { handler, stack_index }),
            ),
    {
        self.entries.set(vector as usize, VectorBinding::Bound { handler, stack_index });
    }
}

/// Builds the 256-entry interrupt vector table: breakpoint,
/// general-protection-fault, double-fault, timer and keyboard vectors are
/// bound, the double-fault entry on the isolated fault stack; every other
/// vector stays empty.
pub fn init_idt() -> (r: VectorTable)
    ensures
        r.wf(),
        idt_configured(r@),
{
    let mut idt = VectorTable::new();
    idt.bind(BREAKPOINT_VECTOR, HandlerKind::Breakpoint, None);
    idt.bind(GENERAL_PROTECTION_VECTOR, HandlerKind::GeneralProtection, None);
    idt.bind(DOUBLE_FAULT_VECTOR, HandlerKind::DoubleFault, Some(DOUBLE_FAULT_IST_INDEX as u8));
    let timer = InterruptIndex::Timer.as_u8();
    let keyboard = InterruptIndex::Keyboard.as_u8();
    idt.bind(timer, HandlerKind::Timer, None);
    idt.bind(keyboard, HandlerKind::Keyboard, None);
    idt
}

/// Whether an interrupt line is unmasked (enabled) in a controller's
/// 8-bit mask register.
pub open spec fn line_unmasked(mask: u8, line: u8) -> bool {
    mask & (1u8 << line) == 0
}

/// The state of the two daisy-chained interrupt controllers: the configured
/// vector-offset bases, the two 8-bit mask registers, and the history of
/// end-of-interrupt acknowledgments sent to them.
pub struct PicController {
    pub offset1: u8,
    pub offset2: u8,
    pub mask1: u8,
    pub mask2: u8,
    pub eoi_log: Ghost<Seq<u8>>,
}

impl PicController {
    /// A chained controller pair remapped to the given vector offsets, all
    /// lines masked, no interrupt acknowledged yet.
    pub fn new(offset1: u8, offset2: u8) -> (r: PicController)
        ensures
            r.offset1 == offset1,
            r.offset2 == offset2,
            r.mask1 == 0xff,
            r.mask2 == 0xff,
            r.eoi_log@ == Seq::<u8>::empty(),
    {
        PicController { offset1, offset2, mask1: 0xff, mask2: 0xff, eoi_log: Ghost(Seq::empty()) }
    }

    /// Writes both mask registers.
    pub fn write_masks(&mut self, mask1: u8, mask2: u8)
        ensures
            final(self).mask1 == mask1,
            final(self).mask2 == mask2,
            final(self).offset1 == old(self).offset1,
            final(self).offset2 == old(self).offset2,
            final(self).eoi_log@ == old(self).eoi_log@,
    {
        self.mask1 = mask1;
        self.mask2 = mask2;
    }

    /// Acknowledges the end of handling one interrupt delivered on
    /// `vector`; the controller will not redeliver the line before this.
    pub fn notify_end_of_interrupt(&mut self, vector: u8)
        ensures
            final(self).eoi_log@ == old(self).eoi_log@.push(vector),
            final(self).mask1 == old(self).mask1,
            final(self).mask2 == old(self).mask2,
            final(self).offset1 == old(self).offset1,
            final(self).offset2 == old(self).offset2,
    {
        proof {
            self.eoi_log@ = self.eoi_log@.push(vector);
        }
    }
}

/// The controller configuration `init_pic8529` promises: offsets remapped
/// clear of the 32 reserved exception vectors and of each other, and masks
/// that unmask exactly the timer and keyboard lines of the primary
/// controller.
pub open spec fn pics_configured(p: PicController) -> bool {
    &&& p.offset1 == PIC_1_OFFSET
    &&& p.offset2 == PIC_2_OFFSET
    &&& 32 <= p.offset1
    &&& 32 <= p.offset2
    &&& p.offset1 + 8 <= p.offset2 || p.offset2 + 8 <= p.offset1
    &&& p.mask1 == 0xfc
    &&& p.mask2 == 0xff
    &&& forall|l: u8| l < 8 ==> (line_unmasked(p.mask1, l) <==> (l == 0 || l == 1))
    &&& forall|l: u8| l < 8 ==> !line_unmasked(p.mask2, l)
}

/// Remaps the controllers' vector offsets to a range that does not collide
/// with the reserved exception vectors, unmasks exactly the timer and
/// keyboard lines, and readies the keyboard scancode decoder.
pub fn init_pic8529() -> (r: (PicController, KeyboardDecoder))
    ensures
        pics_configured(r.0),
        r.0.eoi_log@ == Seq::<u8>::empty(),
{
    let decoder = KeyboardDecoder::new();
    let mut pics = PicController::new(PIC_1_OFFSET, PIC_2_OFFSET);
    pics.write_masks(0xfc, 0xff);
    proof {
        assert(forall|l: u8| l < 8 ==> ((0xfcu8 & (1u8 << l) == 0) <==> (l == 0 || l == 1)))
            by (bit_vector);
        assert(forall|l: u8| l < 8 ==> (0xffu8 & (1u8 << l)) != 0) by (bit_vector);
    }
    (pics, decoder)
}

/// The register and stack-frame snapshot the processor pushes when a trap
/// or interrupt is delivered.
#[derive(Clone, Copy, PartialEq, Eq, Structural, Debug)]
pub struct TrapFrame {
    pub instruction_pointer: u64,
    pub code_segment: u64,
    pub cpu_flags: u64,
    pub stack_pointer: u64,
    pub stack_segment: u64,
}

/// What execution does after a trap handler ran: resume at the trapped
/// instruction stream, or halt permanently.
#[derive(Clone, Copy, PartialEq, Eq, Structural, Debug)]
pub enum TrapDisposition {
    Resume,
    Halt,
}

/// The lower-case hexadecimal digit characters in order.
pub open spec fn hex_digit_char(d: int) -> char {
    seq!['0', '1', '2', '3', '4', '5', '6', '7', '8', '9', 'a', 'b', 'c', 'd', 'e', 'f'][d]
}

/// A 64-bit value as 16 fixed-width hexadecimal digits, most significant
/// first.
pub open spec fn hex_seq(v: u64) -> Seq<char> {
    Seq::new(16, |i: int| hex_digit_char((((v >> (((15 - i) * 4) as u64)) & 0xf) as int)))
}

fn hex_char(d: u8) -> (c: char)
    requires
        d < 16,
    ensures
        c == hex_digit_char(d as int),
{
    match d {
        0 => '0',
        1 => '1',
        2 => '2',
        3 => '3',
        4 => '4',
        5 => '5',
        6 => '6',
        7 => '7',
        8 => '8',
        9 => '9',
        10 => 'a',
        11 => 'b',
        12 => 'c',
        13 => 'd',
        14 => 'e',
        _ => 'f',
    }
}

/// Renders a 64-bit value as 16 fixed-width hexadecimal digits.
pub fn u64_to_hex(v: u64) -> (r: Vec<char>)
    ensures
        r@ == hex_seq(v),
{
    let mut out: Vec<char> = Vec::new();
    let mut i: usize = 0;
    while i < 16
        invariant
            i <= 16,
            out@ == hex_seq(v).take(i as int),
        decreases 16 - i,
    {
        let shift: u64 = ((15 - i) * 4) as u64;
        let nib = ((v >> shift) & 0xf) as u8;
        proof {
            assert((v >> shift) & 0xf < 16) by (bit_vector);
        }
        out.push(hex_char(nib));
        assert(out@ =~= hex_seq(v).take(i + 1));
        i = i + 1;
    }
    proof {
        assert(hex_seq(v).take(16) =~= hex_seq(v));
    }
    out
}

/// The diagnostic text the breakpoint handler prints.
pub open spec fn breakpoint_message(f: TrapFrame) -> Seq<char> {
    "INTERRUPT: BREAKPOINT\nrip=0x"@ + hex_seq(f.instruction_pointer) + "\n"@
}

/// The diagnostic text the general-protection-fault handler prints.
pub open spec fn general_protection_message(f: TrapFrame, error_code: u64) -> Seq<char> {
    "INTERRUPT: GENERAL PROTECTION\nrip=0x"@ + hex_seq(f.instruction_pointer) + "\nerror=0x"@
        + hex_seq(error_code) + "\n"@
}

/// The diagnostic text the double-fault handler prints.
pub open spec fn double_fault_message(f: TrapFrame, error_code: u64) -> Seq<char> {
    "INTERRUPT: DOUBLE FAULT\nrip=0x"@ + hex_seq(f.instruction_pointer) + "\nerror=0x"@ + hex_seq(
        error_code,
    ) + "\n"@
}

/// Breakpoint trap: non-fatal. Logs the captured snapshot to the console
/// and nothing else, then execution resumes at the trapped instruction.
pub fn breakpoint_handler(console: &mut TextDisplay, frame: &TrapFrame) -> (r: TrapDisposition)
    requires
        old(console).wf(),
    ensures
        final(console).wf(),
        final(console)@ == write_model(old(console)@, breakpoint_message(*frame)),
        r is Resume,
{
    let ghost m0 = console@;
    console.write_text("INTERRUPT: BREAKPOINT\nrip=0x");
    let hx = u64_to_hex(frame.instruction_pointer);
    console.write_chars(hx.as_slice());
    console.write_text("\n");
    proof {
        let s1 = "INTERRUPT: BREAKPOINT\nrip=0x"@;
        let s2 = hex_seq(frame.instruction_pointer);
        let s3 = "\n"@;
        crate::console::lemma_write_model_append(m0, s1, s2);
        crate::console::lemma_write_model_append(m0, s1 + s2, s3);
        assert(s1 + s2 + s3 =~= breakpoint_message(*frame));
    }
    TrapDisposition::Resume
}

/// General-protection fault: diagnostic only in this design. Logs the
/// snapshot and the 64-bit error code, then execution continues.
pub fn general_protection_handler(
    console: &mut TextDisplay,
    frame: &TrapFrame,
    error_code: u64,
) -> (r: TrapDisposition)
    requires
        old(console).wf(),
    ensures
        final(console).wf(),
        final(console)@ == write_model(old(console)@, general_protection_message(*frame, error_code)),
        r is Resume,
{
    let ghost m0 = console@;
    console.write_text("INTERRUPT: GENERAL PROTECTION\nrip=0x");
    let hx = u64_to_hex(frame.instruction_pointer);
    console.write_chars(hx.as_slice());
    console.write_text("\nerror=0x");
    let he = u64_to_hex(error_code);
    console.write_chars(he.as_slice());
    console.write_text("\n");
    proof {
        let s1 = "INTERRUPT: GENERAL PROTECTION\nrip=0x"@;
        let s2 = hex_seq(frame.instruction_pointer);
        let s3 = "\nerror=0x"@;
        let s4 = hex_seq(error_code);
        let s5 = "\n"@;
        crate::console::lemma_write_model_append(m0, s1, s2);
        crate::console::lemma_write_model_append(m0, s1 + s2, s3);
        crate::console::lemma_write_model_append(m0, s1 + s2 + s3, s4);
        crate::console::lemma_write_model_append(m0, s1 + s2 + s3 + s4, s5);
        assert(s1 + s2 + s3 + s4 + s5 =~= general_protection_message(*frame, error_code));
    }
    TrapDisposition::Resume
}

/// Double fault: fatal. Runs on the isolated fault stack, logs the snapshot
/// and the error code; the caller must halt permanently and never return.
pub fn double_fault_handler(console: &mut TextDisplay, frame: &TrapFrame, error_code: u64) -> (r:
    TrapDisposition)
    requires
        old(console).wf(),
    ensures
        final(console).wf(),
        final(console)@ == write_model(old(console)@, double_fault_message(*frame, error_code)),
        r is Halt,
{
    let ghost m0 = console@;
    console.write_text("INTERRUPT: DOUBLE FAULT\nrip=0x");
    let hx = u64_to_hex(frame.instruction_pointer);
    console.write_chars(hx.as_slice());
    console.write_text("\nerror=0x");
    let he = u64_to_hex(error_code);
    console.write_chars(he.as_slice());
    console.write_text("\n");
    proof {
        let s1 = "INTERRUPT: DOUBLE FAULT\nrip=0x"@;
        let s2 = hex_seq(frame.instruction_pointer);
        let s3 = "\nerror=0x"@;
        let s4 = hex_seq(error_code);
        let s5 = "\n"@;
        crate::console::lemma_write_model_append(m0, s1, s2);
        crate::console::lemma_write_model_append(m0, s1 + s2, s3);
        crate::console::lemma_write_model_append(m0, s1 + s2 + s3, s4);
        crate::console::lemma_write_model_append(m0, s1 + s2 + s3 + s4, s5);
        assert(s1 + s2 + s3 + s4 + s5 =~= double_fault_message(*frame, error_code));
    }
    TrapDisposition::Halt
}

/// The console after a decoded key is echoed: a printable character is
/// written as itself, a non-printable key as its description, nothing
/// otherwise.
pub open spec fn echo_model(m: ConsoleModel, o: KeyOutcome) -> ConsoleModel {
    match o {
        KeyOutcome::NoEvent => m,
        KeyOutcome::Printable(c) => write_model(m, seq![c]),
        KeyOutcome::NonPrintable(s) => write_model(m, s@),
    }
}

/// Echoes one decoded key outcome to the console.
pub fn echo_key(console: &mut TextDisplay, outcome: &KeyOutcome)
    requires
        old(console).wf(),
    ensures
        final(console).wf(),
        final(console)@ == echo_model(old(console)@, *outcome),
{
    let ghost m0 = console@;
    match outcome {
        KeyOutcome::NoEvent => {},
        KeyOutcome::Printable(c) => {
            console.write_char(*c);
            proof {
                assert(seq![*c].drop_last() =~= Seq::<char>::empty());
                assert(seq![*c].last() == *c);
                assert(write_model(m0, Seq::<char>::empty()) == m0);
                assert(write_model(m0, seq![*c]) == crate::console::write_char_model(m0, *c));
            }
        },
        KeyOutcome::NonPrintable(s) => {
            console.write_text(s.as_str());
        },
    }
}

/// Timer interrupt: no kernel action in this design beyond exactly one
/// end-of-interrupt acknowledgment to the controller.
pub fn timer_interrupt_handler(pics: &mut PicController)
    ensures
        final(pics).eoi_log@ == old(pics).eoi_log@.push(InterruptIndex::Timer.vector()),
        final(pics).mask1 == old(pics).mask1 && final(pics).mask2 == old(pics).mask2,
        final(pics).offset1 == old(pics).offset1 && final(pics).offset2 == old(pics).offset2,
{
    let vector = InterruptIndex::Timer.as_u8();
    pics.notify_end_of_interrupt(vector);
}

/// Keyboard interrupt: feeds the one raw scancode byte read from the
/// keyboard port to the decode state, echoes a completed key event to the
/// console, and always acknowledges exactly one end-of-interrupt for the
/// keyboard line afterward, even if decoding produced nothing. Returns what
/// the byte decoded to.
pub fn keyboard_interrupt_handler(
    keyboard: &mut KeyboardDecoder,
    console: &mut TextDisplay,
    pics: &mut PicController,
    scancode: u8,
) -> (r: KeyOutcome)
    requires
        old(console).wf(),
    ensures
        final(console).wf(),
        final(console)@ == echo_model(old(console)@, r),
        final(pics).eoi_log@ == old(pics).eoi_log@.push(InterruptIndex::Keyboard.vector()),
        final(pics).mask1 == old(pics).mask1 && final(pics).mask2 == old(pics).mask2,
        final(pics).offset1 == old(pics).offset1 && final(pics).offset2 == old(pics).offset2,
{
    let outcome = keyboard.decode_scancode(scancode);
    echo_key(console, &outcome);
    let vector = InterruptIndex::Keyboard.as_u8();
    pics.notify_end_of_interrupt(vector);
    outcome
}

} // verus!
