//! Interrupt numbers, priority levels and the saved registers of an interrupt.
use vstd::prelude::*;

verus! {

/// The number of interrupts.
pub const MAX_INTERRUPTS: u16 = 256;

/// All interrupts enabled.
pub const LOW: u8 = 0;

/// All interrupts disabled.
pub const HIGH: u8 = 0xff;

pub const DIVIDE_BY_ZERO: u8 = 0x00;
pub const INVALID_OPCODE: u8 = 0x06;
pub const GPF: u8 = 0x0d;
pub const PAGE_FAULT: u8 = 0x0e;
pub const SYSCALL: u8 = 0x2e;
pub const PIT: u8 = 0xf1;
pub const APICTIMER: u8 = 0xf0;
pub const KEYBOARD: u8 = 0xe0;
pub const DISK_PRIMARY: u8 = 0xd0;
pub const DISK_SECONDARY: u8 = 0xd1;
pub const SPURIOUS: u8 = 0xef;

/// The registers when an interrupt came. Changing them in a handler changes
/// the registers the interrupted code resumes with.
#[derive(Clone, Copy, Debug, PartialEq, Eq, Structural)]
pub struct Registers {
    pub es: u32,
    pub ds: u32,
    pub gs: u32,
    pub edi: u32,
    pub esi: u32,
    pub ebp: u32,
    pub esp: u32,
    pub ebx: u32,
    pub edx: u32,
    pub ecx: u32,
    pub eax: u32,
    pub intr: u32,
    pub err: u32,
    pub eip: u32,
    pub cs: u32,
    pub eflags: u32,
    pub useresp: u32,
    pub ss: u32,
}

/// Second initialisation stage: nothing to do.
pub fn init_stage2() {
}

/// Descriptor flag: a trap gate, which leaves interrupts enabled.
pub const TRAP: u8 = 0x01;

/// Descriptor flag: a 16-bit gate.
pub const BIT16: u8 = 0x06;

/// Descriptor flag: a 32-bit gate.
pub const BIT32: u8 = 0x0e;

/// Descriptor privilege: kernel only.
pub const RING0: u8 = 0x00;

/// Descriptor privilege: ring one.
pub const RING1: u8 = 0x40;

/// Descriptor privilege: ring two.
pub const RING2: u8 = 0x20;

/// Descriptor privilege: callable from user code.
pub const RING3: u8 = 0x60;

/// Descriptor flag: the entry is present.
pub const PRESENT: u8 = 0x80;

/// The bytes of one descriptor in the table.
pub const DESCRIPTION_SIZE: u16 = 8;

/// One entry of the interrupt descriptor table.
#[derive(Clone, Copy, Debug, PartialEq, Eq, Structural)]
pub struct InterruptDescription {
    pub baselo: u16,
    pub selector: u16,
    pub zero: u8,
    pub attr: u8,
    pub basehi: u16,
}

/// The descriptor of a gate to the handler at `addr` in segment `seg`.
pub fn describe(addr: u32, seg: u16, flags: u8) -> (r: InterruptDescription)
    ensures
        r.baselo == addr % 0x10000,
        r.basehi == addr / 0x10000,
        r.zero == 0,
        r.attr == flags,
        r.selector == seg,
{
    assert((addr & 0xffff) == addr % 0x10000) by (bit_vector);
    assert(((addr >> 16u32) & 0xffff) == addr / 0x10000) by (bit_vector);
    InterruptDescription {
        baselo: (addr & 0xffff) as u16,
        basehi: ((addr >> 16u32) & 0xffff) as u16,
        zero: 0,
        attr: flags,
        selector: seg,
    }
}

/// The vectors on which the processor pushes an error code.
pub open spec fn spec_has_error_code(vector: u8) -> bool {
    vector == 8 || (10 <= vector && vector <= 14) || vector == 17
}

/// Whether the processor pushes an error code for `vector`, so that its entry
/// stub must not push one itself.
pub fn has_error_code(vector: u8) -> (r: bool)
    ensures
        r == spec_has_error_code(vector),
{
    vector == 8 || (10 <= vector && vector <= 14) || vector == 17
}

/// The descriptor flags of each vector: user code may trap into the system
/// call vector; every other vector is for the kernel only.
pub fn entry_flags(vector: u8) -> (r: u8)
    ensures
        vector == SYSCALL ==> r == PRESENT | BIT32 | TRAP | RING3,
        vector != SYSCALL ==> r == PRESENT | BIT32 | RING0,
{
    if vector == SYSCALL {
        PRESENT | BIT32 | TRAP | RING3
    } else {
        PRESENT | BIT32 | RING0
    }
}

/// The interrupt descriptor table with the handler and the irq mapped to each
/// vector. A handler of `None` is the one that reports an unhandled interrupt.
pub struct InterruptState<H> {
    table: Vec<InterruptDescription>,
    handlers: Vec<Option<H>>,
    mappings: Vec<Option<u16>>,
    size: u16,
}

impl<H: Copy> InterruptState<H> {
    /// Every vector has an entry, a handler slot and a mapping slot.
    pub open spec fn wf(&self) -> bool {
        &&& self.entries().len() == MAX_INTERRUPTS as nat
        &&& self.handlers().len() == MAX_INTERRUPTS as nat
        &&& self.mappings().len() == MAX_INTERRUPTS as nat
    }

    /// The descriptor of each vector.
    pub closed spec fn entries(&self) -> Seq<InterruptDescription> {
        self.table@
    }

    /// The handler of each vector.
    pub closed spec fn handlers(&self) -> Seq<Option<H>> {
        self.handlers@
    }

    /// The irq redirected to each vector.
    pub closed spec fn mappings(&self) -> Seq<Option<u16>> {
        self.mappings@
    }

    /// The limit of the table that the processor is told: its size in bytes less one.
    pub closed spec fn limit(&self) -> u16 {
        self.size
    }

    /// A table of empty descriptors with no handler and no mapping.
    pub fn new() -> (r: InterruptState<H>)
        ensures
            r.wf(),
            forall|i: int| 0 <= i < MAX_INTERRUPTS ==> r.handlers()[i] is None,
            forall|i: int| 0 <= i < MAX_INTERRUPTS ==> r.mappings()[i] is None,
            forall|i: int|
                0 <= i < MAX_INTERRUPTS ==> r.entries()[i] == (InterruptDescription {
                    baselo: 0,
                    selector: 0,
                    zero: 0,
                    attr: 0,
                    basehi: 0,
                }),
            r.limit() == DESCRIPTION_SIZE * MAX_INTERRUPTS - 1,
    {
        let mut table: Vec<InterruptDescription> = Vec::new();
        let mut handlers: Vec<Option<H>> = Vec::new();
        let mut mappings: Vec<Option<u16>> = Vec::new();
        let mut i: u16 = 0;
        while i < MAX_INTERRUPTS
            invariant
                i <= MAX_INTERRUPTS,
                table@.len() == i,
                handlers@.len() == i,
                mappings@.len() == i,
                forall|j: int| 0 <= j < i ==> handlers@[j] is None,
                forall|j: int| 0 <= j < i ==> mappings@[j] is None,
                forall|j: int|
                    0 <= j < i ==> table@[j] == (InterruptDescription {
                        baselo: 0,
                        selector: 0,
                        zero: 0,
                        attr: 0,
                        basehi: 0,
                    }),
            decreases MAX_INTERRUPTS - i,
        {
            table.push(InterruptDescription { baselo: 0, selector: 0, zero: 0, attr: 0, basehi: 0 });
            handlers.push(None);
            mappings.push(None);
            i = i + 1;
        }
        InterruptState { table, handlers, mappings, size: DESCRIPTION_SIZE * MAX_INTERRUPTS - 1 }
    }

    /// Sets the descriptor of vector `isr`.
    pub fn set_entry(&mut self, isr: u8, addr: u32, seg: u16, flags: u8)
        requires
            old(self).wf(),
        ensures
            final(self).wf(),
            final(self).entries() == old(self).entries().update(isr as int, describe_spec(addr, seg, flags)),
            final(self).handlers() == old(self).handlers(),
            final(self).mappings() == old(self).mappings(),
            final(self).limit() == old(self).limit(),
    {
        let d = describe(addr, seg, flags);
        self.table.set(isr as usize, d);
    }

    /// Installs `handler` for `intr`, giving back the handler it replaces, or
    /// `None` where the vector was unhandled.
    pub fn register(&mut self, intr: u8, handler: H) -> (r: Option<H>)
        requires
            old(self).wf(),
        ensures
            final(self).wf(),
            r == old(self).handlers()[intr as int],
            final(self).handlers() == old(self).handlers().update(intr as int, Some(handler)),
            final(self).entries() == old(self).entries(),
            final(self).mappings() == old(self).mappings(),
            final(self).limit() == old(self).limit(),
    {
        let old_handler = self.handlers[intr as usize];
        self.handlers.set(intr as usize, Some(handler));
        old_handler
    }

    /// Redirects `irq` to vector `intr`, giving back the irq that was redirected
    /// to it before. The spurious vector is never redirected.
    pub fn map(&mut self, irq: u16, intr: u8) -> (r: Option<u16>)
        requires
            old(self).wf(),
            intr != SPURIOUS,
        ensures
            final(self).wf(),
            r == old(self).mappings()[intr as int],
            final(self).mappings() == old(self).mappings().update(intr as int, Some(irq)),
            final(self).entries() == old(self).entries(),
            final(self).handlers() == old(self).handlers(),
            final(self).limit() == old(self).limit(),
    {
        let old_irq = self.mappings[intr as usize];
        self.mappings.set(intr as usize, Some(irq));
        old_irq
    }

    /// What to do for an interrupt on vector `intr`: the handler to run (`None`
    /// for the unhandled-interrupt report), and whether the interrupt came
    /// through a redirected irq and must be acknowledged afterwards.
    pub fn dispatch(&self, intr: u32) -> (r: (Option<H>, bool))
        requires
            self.wf(),
            intr < MAX_INTERRUPTS,
        ensures
            r.0 == self.handlers()[intr as int],
            r.1 == self.mappings()[intr as int] is Some,
    {
        let h = self.handlers[intr as usize];
        let m = self.mappings[intr as usize];
        (h, m.is_some())
    }
}

/// The descriptor that `describe` builds.
pub open spec fn describe_spec(addr: u32, seg: u16, flags: u8) -> InterruptDescription {
    InterruptDescription {
        baselo: (addr % 0x10000) as u16,
        selector: seg,
        zero: 0,
        attr: flags,
        basehi: (addr / 0x10000) as u16,
    }
}

/// Once a handler is registered for a vector, an interrupt there runs it; and
/// registering again hands back the one registered before.
pub proof fn lemma_register_dispatch<H>(handlers: Seq<Option<H>>, intr: u8, h: H, h2: H)
    requires
        handlers.len() == MAX_INTERRUPTS as nat,
    ensures
        handlers.update(intr as int, Some(h))[intr as int] == Some(h),
        handlers.update(intr as int, Some(h)).update(intr as int, Some(h2))[intr as int] == Some(h2),
        forall|j: int|
            0 <= j < MAX_INTERRUPTS && j != intr ==> handlers.update(intr as int, Some(h))[j]
                == handlers[j],
{
}

/// Restores the interrupt priority level that was current when it was made.
pub struct IPLWatchdog {
    oldipl: u8,
}

impl IPLWatchdog {
    /// The level to restore.
    pub closed spec fn saved(&self) -> u8 {
        self.oldipl
    }

    /// A watchdog that restores `oldipl`, the level current before a
    /// temporary one was set.
    pub fn new(oldipl: u8) -> (r: IPLWatchdog)
        ensures
            r.saved() == oldipl,
    {
        IPLWatchdog { oldipl }
    }

    /// Set the level `cur` to `ipl`. The saved level stays.
    pub fn set_ipl(&mut self, cur: &mut u8, ipl: u8)
        ensures
            *final(cur) == ipl,
            final(self).saved() == old(self).saved(),
    {
        *cur = ipl;
    }

    /// Set the level `cur` back to the one saved.
    pub fn reset_ipl(&mut self, cur: &mut u8)
        ensures
            *final(cur) == old(self).saved(),
            final(self).saved() == old(self).saved(),
    {
        *cur = self.oldipl;
    }
}

/// Raise the level `cur` to `ipl` for a while: the watchdog saves the level
/// that was current, to restore it.
pub fn temporary_ipl(cur: &mut u8, ipl: u8) -> (r: IPLWatchdog)
    ensures
        *final(cur) == ipl,
        r.saved() == *old(cur),
{
    let w = IPLWatchdog::new(*cur);
    *cur = ipl;
    w
}

/// The watchdog states `ws` of a run of `set_ipl` calls through one
/// watchdog: each call starts from the state the one before left and, as its
/// contract says, keeps the saved level.
pub open spec fn sets_in_a_row(ws: Seq<IPLWatchdog>) -> bool {
    forall|i: int| 0 <= i < ws.len() - 1 ==> (#[trigger] ws[i + 1]).saved() == ws[i].saved()
}

/// However many levels are set through a watchdog made by `temporary_ipl`
/// at level `p`, the watchdog still holds `p`, which is the level its
/// `reset_ipl` sets.
pub proof fn lemma_watchdog_restores(p: u8, ws: Seq<IPLWatchdog>)
    requires
        ws.len() >= 1,
        ws[0].saved() == p,
        sets_in_a_row(ws),
    ensures
        forall|i: int| 0 <= i < ws.len() ==> (#[trigger] ws[i]).saved() == p,
        ws.last().saved() == p,
    decreases ws.len(),
{
    if ws.len() > 1 {
        let front = ws.drop_last();
        assert forall|i: int| 0 <= i < front.len() - 1 implies (#[trigger] front[i + 1]).saved()
            == front[i].saved() by {
            assert(ws[i + 1].saved() == ws[i].saved());
        }
        lemma_watchdog_restores(p, front);
        let k = ws.len() - 2;
        assert(ws[k + 1].saved() == ws[k].saved());
        assert forall|i: int| 0 <= i < ws.len() implies (#[trigger] ws[i]).saved() == p by {
            if i < ws.len() - 1 {
                assert(front[i] == ws[i]);
            }
        }
    }
}

} // verus!
