use vstd::prelude::*;

use crate::gdt::{gdt_configured, init_gdt, DescriptorTables, DOUBLE_FAULT_IST_INDEX,
    FAULT_STACK_SIZE};
use crate::interrupts::{idt_configured, init_idt, init_pic8529, pics_configured, PicController,
    VectorTable, DOUBLE_FAULT_VECTOR};
use crate::keyboard::KeyboardDecoder;

verus! {

/// The code an emulated test environment is told to exit with.
#[derive(Debug, Clone, Copy, PartialEq, Eq, Structural)]
pub enum QemuExitCode {
    Success,
    Failed,
}

/// The value of an exit code on the emulator's exit port.
pub open spec fn exit_code_value(code: QemuExitCode) -> u32 {
    match code {
        QemuExitCode::Success => 0x10,
        QemuExitCode::Failed => 0x11,
    }
}

/// The value the host glue writes to the emulator's exit port to terminate
/// a test run with the given outcome.
pub fn exit_qemu(exit_code: QemuExitCode) -> (r: u32)
    ensures
        r == exit_code_value(exit_code),
{
    match exit_code {
        QemuExitCode::Success => 0x10,
        QemuExitCode::Failed => 0x11,
    }
}

/// How far kernel bring-up has come. The stages are strictly ordered: trap
/// tables before the vector table, vectors before controller remapping,
/// controller masks before global interrupt enablement, which comes last.
#[derive(Debug, Clone, Copy, PartialEq, Eq, Structural)]
pub enum BootStage {
    Start,
    GdtLoaded,
    VectorsInstalled,
    PicConfigured,
    InterruptsEnabled,
}

/// The privileged state built up during bring-up. Each step function
/// requires the stage its predecessor left behind, so the steps can only
/// run in order.
pub struct BootState {
    pub stage: BootStage,
    pub gdt: Option<DescriptorTables>,
    pub idt: Option<VectorTable>,
    pub pics: Option<PicController>,
    pub keyboard: Option<KeyboardDecoder>,
}

impl BootState {
    /// Before anything is initialized.
    pub fn start() -> (r: BootState)
        ensures
            r.stage is Start,
            r.gdt is None && r.idt is None && r.pics is None && r.keyboard is None,
    {
        BootState { stage: BootStage::Start, gdt: None, idt: None, pics: None, keyboard: None }
    }

    /// Builds the segment descriptor table and the isolated fault stack.
    /// Must run before any code that can fault, and strictly before the
    /// double-fault vector is installed.
    pub fn load_descriptor_tables(&mut self)
        requires
            old(self).stage is Start,
        ensures
            final(self).stage is GdtLoaded,
            final(self).gdt is Some && gdt_configured(final(self).gdt->0),
            final(self).idt == old(self).idt,
            final(self).pics == old(self).pics,
            final(self).keyboard == old(self).keyboard,
    {
        self.gdt = Some(init_gdt());
        self.stage = BootStage::GdtLoaded;
    }

    /// Builds the interrupt vector table. The double-fault entry uses the
    /// isolated-stack slot the descriptor tables reserved.
    pub fn install_vectors(&mut self)
        requires
            old(self).stage is GdtLoaded,
            old(self).gdt is Some,
            gdt_configured(old(self).gdt->0),
        ensures
            final(self).stage is VectorsInstalled,
            final(self).idt is Some && idt_configured(final(self).idt->0@),
            final(self).gdt == old(self).gdt,
            final(self).pics == old(self).pics,
            final(self).keyboard == old(self).keyboard,
            final(self).idt->0@[DOUBLE_FAULT_VECTOR as int]->Bound_stack_index == Some(
                DOUBLE_FAULT_IST_INDEX as u8,
            ),
            final(self).gdt->0.fault_stack_slots@[DOUBLE_FAULT_IST_INDEX as int] == Some(
                FAULT_STACK_SIZE,
            ),
    {
        self.idt = Some(init_idt());
        self.stage = BootStage::VectorsInstalled;
    }

    /// Remaps the interrupt controllers and unmasks the serviced lines;
    /// runs only after the vector table is in place.
    pub fn configure_pics(&mut self)
        requires
            old(self).stage is VectorsInstalled,
        ensures
            final(self).stage is PicConfigured,
            final(self).pics is Some && pics_configured(final(self).pics->0),
            final(self).pics->0.eoi_log@ == Seq::<u8>::empty(),
            final(self).keyboard is Some,
            final(self).gdt == old(self).gdt,
            final(self).idt == old(self).idt,
    {
        let (pics, keyboard) = init_pic8529();
        self.pics = Some(pics);
        self.keyboard = Some(keyboard);
        self.stage = BootStage::PicConfigured;
    }

    /// Marks global interrupt enablement, the last step of bring-up; the
    /// hardware instruction itself is the caller's.
    pub fn enable_interrupts(&mut self)
        requires
            old(self).stage is PicConfigured,
        ensures
            final(self).stage is InterruptsEnabled,
            final(self).gdt == old(self).gdt,
            final(self).idt == old(self).idt,
            final(self).pics == old(self).pics,
            final(self).keyboard == old(self).keyboard,
    {
        self.stage = BootStage::InterruptsEnabled;
    }
}

/// Orders bring-up: trap tables, then the vector table, then controller
/// remapping and masks, then interrupt enablement. Afterwards the
/// double-fault vector names exactly the isolated-stack slot the descriptor
/// tables reserved.
pub fn init() -> (r: BootState)
    ensures
        r.stage is InterruptsEnabled,
        r.gdt is Some && gdt_configured(r.gdt->0),
        r.idt is Some && idt_configured(r.idt->0@),
        r.pics is Some && pics_configured(r.pics->0),
        r.keyboard is Some,
        r.idt->0@[DOUBLE_FAULT_VECTOR as int]->Bound_stack_index == Some(
            DOUBLE_FAULT_IST_INDEX as u8,
        ),
        r.gdt->0.fault_stack_slots@[DOUBLE_FAULT_IST_INDEX as int] == Some(FAULT_STACK_SIZE),
{
    let mut state = BootState::start();
    state.load_descriptor_tables();
    state.install_vectors();
    state.configure_pics();
    state.enable_interrupts();
    state
}

} // verus!
