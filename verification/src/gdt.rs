use vstd::prelude::*;

verus! {

/// The interrupt-stack-table slot reserved for the double-fault handler.
pub const DOUBLE_FAULT_IST_INDEX: u16 = 0;

/// Size of the isolated fault stack: a small multiple of a page.
pub const FAULT_STACK_SIZE: usize = 4096 * 5;

/// Interrupt-stack-table slots in a task-state segment.
pub const IST_SLOTS: usize = 7;

/// The kind of a segment descriptor the kernel installs.
#[derive(Clone, Copy, PartialEq, Eq, Structural, Debug)]
pub enum SegmentDescriptor {
    KernelCode,
    TaskState,
}

/// The segment descriptor table and task-state segment the kernel loads at
/// boot: the descriptors in order, which entries the code and task
/// registers select, and the sizes of the isolated stacks the task-state
/// segment reserves per interrupt-stack-table slot.
pub struct DescriptorTables {
    pub descriptors: Vec<SegmentDescriptor>,
    pub code_selector: usize,
    pub tss_selector: usize,
    pub fault_stack_slots: Vec<Option<usize>>,
}

/// The configuration `init_gdt` promises: exactly a kernel code segment and
/// a task-state segment, distinct selectors naming each, and one isolated
/// fault stack in the double-fault slot.
pub open spec fn gdt_configured(t: DescriptorTables) -> bool {
    &&& t.descriptors@ == seq![SegmentDescriptor::KernelCode, SegmentDescriptor::TaskState]
    &&& t.code_selector == 0
    &&& t.tss_selector == 1
    &&& t.code_selector != t.tss_selector
    &&& t.descriptors@[t.code_selector as int] is KernelCode
    &&& t.descriptors@[t.tss_selector as int] is TaskState
    &&& t.fault_stack_slots@.len() == IST_SLOTS
    &&& t.fault_stack_slots@[DOUBLE_FAULT_IST_INDEX as int] == Some(FAULT_STACK_SIZE)
    &&& forall|i: int|
        0 <= i < IST_SLOTS && i != DOUBLE_FAULT_IST_INDEX ==> t.fault_stack_slots@[i] is None
}

/// Builds the segment descriptor table and task-state segment layout: a
/// kernel code segment, a task-state segment, and one statically-sized
/// isolated stack, referenced by exactly one interrupt-stack-table slot, so
/// the double-fault handler always has valid stack memory.
pub fn init_gdt() -> (r: DescriptorTables)
    ensures
        gdt_configured(r),
{
    let mut descriptors: Vec<SegmentDescriptor> = Vec::new();
    descriptors.push(SegmentDescriptor::KernelCode);
    descriptors.push(SegmentDescriptor::TaskState);
    let mut fault_stack_slots: Vec<Option<usize>> = Vec::new();
    fault_stack_slots.push(Some(FAULT_STACK_SIZE));
    let mut i: usize = 1;
    while i < IST_SLOTS
        invariant
            1 <= i <= IST_SLOTS,
            fault_stack_slots@.len() == i,
            fault_stack_slots@[0] == Some(FAULT_STACK_SIZE),
            forall|j: int| 1 <= j < i ==> fault_stack_slots@[j] is None,
        decreases IST_SLOTS - i,
    {
        fault_stack_slots.push(None);
        i = i + 1;
    }
    proof {
        assert(descriptors@ =~= seq![SegmentDescriptor::KernelCode, SegmentDescriptor::TaskState]);
    }
    DescriptorTables { descriptors, code_selector: 0, tss_selector: 1, fault_stack_slots }
}

} // verus!
