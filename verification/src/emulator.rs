//! The emulator driver: owns the core, loads images at the fixed bases, and
//! runs the fetch-execute loop until the guest halts or raises an exception.

use vstd::prelude::*;

use crate::bus::{Bus, RAM_BASE, ROM_BASE};
use crate::cpu::{spec_cycle, CpuView, CPU};
use crate::exception::RVException;
use crate::ram::RAM;
use crate::rom::ROM;

verus! {

/// The default ROM size in bytes.
pub const DEFAULT_ROM_SIZE: usize = 0x1000;

/// The default RAM size in bytes.
pub const DEFAULT_RAM_SIZE: usize = 0x5000;

/// How a bounded run ended: the guest jumped to itself (the conventional
/// halt), an instruction cycle raised an exception, or the cycle budget ran
/// out first.
#[derive(Clone, Copy, Debug, PartialEq, Eq, Structural)]
pub enum RunStatus {
    Halted,
    Trapped(RVException),
    OutOfGas,
}

/// The reference semantics of the run loop: execute cycles from `v` until a
/// cycle raises an exception (the machine stays as that cycle found it),
/// a cycle leaves the program counter in place (halt, the machine is that
/// cycle's result), or `fuel` cycles have retired.
pub open spec fn spec_run(v: CpuView, fuel: nat) -> (RunStatus, CpuView)
    decreases fuel,
{
    if fuel == 0 {
        (RunStatus::OutOfGas, v)
    } else {
        match spec_cycle(v) {
            Err(e) => (RunStatus::Trapped(e), v),
            Ok(p) => if p.pc == v.pc {
                (RunStatus::Halted, p)
            } else {
                spec_run(p, (fuel - 1) as nat)
            },
        }
    }
}

/// A trapped run ends in a state from which the same cycle still raises the
/// same exception; a halted run ends in the retirement of a cycle that left
/// the program counter in place.
pub proof fn lemma_run_outcome(v: CpuView, fuel: nat)
    ensures
        spec_run(v, fuel).0 matches RunStatus::Trapped(e) ==> spec_cycle(spec_run(v, fuel).1)
            == Err::<CpuView, RVException>(e),
        spec_run(v, fuel).0 is Halted ==> exists|prev: CpuView|
            #[trigger] spec_cycle(prev) == Ok::<CpuView, RVException>(spec_run(v, fuel).1)
                && prev.pc == spec_run(v, fuel).1.pc,
    decreases fuel,
{
    if fuel > 0 {
        match spec_cycle(v) {
            Err(e) => {},
            Ok(p) => {
                if p.pc == v.pc {
                    assert(spec_cycle(v) == Ok::<CpuView, RVException>(p) && v.pc == p.pc);
                } else {
                    lemma_run_outcome(p, (fuel - 1) as nat);
                }
            },
        }
    }
}

/// The run loop with benign exceptions handled in place: `EnvironmentCall`
/// and `Breakpoint` mean the guest asked for attention, so the loop resumes
/// at the following instruction; any other exception terminates with the
/// machine as that cycle found it.
pub open spec fn spec_run_resuming(v: CpuView, fuel: nat) -> (RunStatus, CpuView)
    decreases fuel,
{
    if fuel == 0 {
        (RunStatus::OutOfGas, v)
    } else {
        match spec_cycle(v) {
            Err(e) => if e is EnvironmentCall || e is Breakpoint {
                spec_run_resuming(
                    CpuView { pc: vstd::wrapping::u64_specs::wrapping_add(v.pc, 4), ..v },
                    (fuel - 1) as nat,
                )
            } else {
                (RunStatus::Trapped(e), v)
            },
            Ok(p) => if p.pc == v.pc {
                (RunStatus::Halted, p)
            } else {
                spec_run_resuming(p, (fuel - 1) as nat)
            },
        }
    }
}

/// A resuming run traps only on unrecoverable exceptions, and then in a
/// state from which the same cycle still raises the same exception; a halt
/// is the retirement of a cycle that left the program counter in place.
pub proof fn lemma_run_resuming_outcome(v: CpuView, fuel: nat)
    ensures
        spec_run_resuming(v, fuel).0 matches RunStatus::Trapped(e) ==> spec_cycle(
            spec_run_resuming(v, fuel).1,
        ) == Err::<CpuView, RVException>(e) && !(e is EnvironmentCall || e is Breakpoint),
        spec_run_resuming(v, fuel).0 is Halted ==> exists|prev: CpuView|
            #[trigger] spec_cycle(prev) == Ok::<CpuView, RVException>(spec_run_resuming(v, fuel).1)
                && prev.pc == spec_run_resuming(v, fuel).1.pc,
    decreases fuel,
{
    if fuel > 0 {
        match spec_cycle(v) {
            Err(e) => {
                if e is EnvironmentCall || e is Breakpoint {
                    lemma_run_resuming_outcome(
                        CpuView { pc: vstd::wrapping::u64_specs::wrapping_add(v.pc, 4), ..v },
                        (fuel - 1) as nat,
                    );
                }
            },
            Ok(p) => {
                if p.pc == v.pc {
                    assert(spec_cycle(v) == Ok::<CpuView, RVException>(p) && v.pc == p.pc);
                } else {
                    lemma_run_resuming_outcome(p, (fuel - 1) as nat);
                }
            },
        }
    }
}

/// The machine: a core over a bus with one ROM and one RAM.
pub struct Emulator {
    pub cpu: CPU,
}

impl Emulator {
    /// A machine with a default-sized ROM and `ram_size` bytes of RAM, both
    /// zeroed. All registers start at zero except the stack pointer `x[2]`,
    /// which points just past the top of RAM.
    pub fn new(ram_size: usize) -> (r: Self)
        requires
            RAM_BASE + ram_size <= u64::MAX,
        ensures
            r.cpu.wf(),
            r.cpu.pc == 0,
            r.cpu@.rom.len() == DEFAULT_ROM_SIZE,
            r.cpu@.ram.len() == ram_size,
            forall|j: int| 0 <= j < ram_size ==> r.cpu@.ram[j] == 0u8,
            forall|j: int| 0 <= j < DEFAULT_ROM_SIZE ==> r.cpu@.rom[j] == 0u8,
            r.cpu@.reservations.len() == 0,
            forall|j: int| 0 <= j < 4096 ==> r.cpu@.csrs[j] == 0u64,
            r.cpu@.xregs[2] == RAM_BASE + ram_size,
            forall|j: int| 0 <= j < 32 && j != 2 ==> r.cpu@.xregs[j] == 0u64,
            forall|j: int| 0 <= j < 32 ==> r.cpu@.fregs[j] == 0u32,
    {
        Emulator::with_sizes(DEFAULT_ROM_SIZE, ram_size)
    }

    /// A machine with chosen ROM and RAM sizes.
    pub fn with_sizes(rom_size: usize, ram_size: usize) -> (r: Self)
        requires
            RAM_BASE + ram_size <= u64::MAX,
        ensures
            r.cpu.wf(),
            r.cpu.pc == 0,
            r.cpu@.rom.len() == rom_size,
            r.cpu@.ram.len() == ram_size,
            forall|j: int| 0 <= j < ram_size ==> r.cpu@.ram[j] == 0u8,
            forall|j: int| 0 <= j < rom_size ==> r.cpu@.rom[j] == 0u8,
            r.cpu@.reservations.len() == 0,
            forall|j: int| 0 <= j < 4096 ==> r.cpu@.csrs[j] == 0u64,
            r.cpu@.xregs[2] == RAM_BASE + ram_size,
            forall|j: int| 0 <= j < 32 && j != 2 ==> r.cpu@.xregs[j] == 0u64,
            forall|j: int| 0 <= j < 32 ==> r.cpu@.fregs[j] == 0u32,
    {
        let bus = Bus { rom: ROM::new(rom_size), ram: RAM::new(ram_size) };
        Emulator { cpu: CPU::new(bus) }
    }

    /// Load a RAM image at the RAM base and point the program counter there.
    pub fn init_ram(&mut self, data: Vec<u8>)
        requires
            data@.len() <= old(self).cpu@.ram.len(),
        ensures
            final (self).cpu@ == (CpuView {
                ram: data@ + old(self).cpu@.ram.skip(data@.len() as int),
                pc: RAM_BASE,
                ..old(self).cpu@
            }),
    {
        self.cpu.bus.ram.initialize(data);
        self.cpu.pc = RAM_BASE;
    }

    /// Load a boot image at the ROM base and point the program counter there.
    pub fn init_rom(&mut self, data: Vec<u8>)
        requires
            data@.len() <= old(self).cpu@.rom.len(),
        ensures
            final (self).cpu@ == (CpuView {
                rom: data@ + old(self).cpu@.rom.skip(data@.len() as int),
                pc: ROM_BASE,
                ..old(self).cpu@
            }),
    {
        self.cpu.bus.rom.initialize(data);
        self.cpu.pc = ROM_BASE;
    }

    /// Run the fetch-execute loop for at most `max_cycles` retired
    /// instructions, agreeing exactly with [`spec_run`].
    pub fn run_for(&mut self, max_cycles: u64) -> (r: RunStatus)
        requires
            old(self).cpu.wf(),
        ensures
            final (self).cpu.wf(),
            r == spec_run(old(self).cpu@, max_cycles as nat).0,
            final (self).cpu@ == spec_run(old(self).cpu@, max_cycles as nat).1,
    {
        let mut fuel = max_cycles;
        while fuel > 0
            invariant
                self.cpu.wf(),
                spec_run(old(self).cpu@, max_cycles as nat) == spec_run(self.cpu@, fuel as nat),
            decreases fuel,
        {
            let last_pc = self.cpu.pc;
            match self.cpu.fetch_and_execute() {
                Ok(()) => {
                    if self.cpu.pc == last_pc {
                        return RunStatus::Halted;
                    }
                },
                Err(e) => {
                    return RunStatus::Trapped(e);
                },
            }
            fuel = fuel - 1;
        }
        RunStatus::OutOfGas
    }

    /// Run the fetch-execute loop for at most `max_cycles` attempts,
    /// treating `EnvironmentCall` and `Breakpoint` as benign: the guest
    /// asked for attention, and execution resumes at the next instruction.
    /// Agrees exactly with [`spec_run_resuming`].
    pub fn run_resuming(&mut self, max_cycles: u64) -> (r: RunStatus)
        requires
            old(self).cpu.wf(),
        ensures
            final (self).cpu.wf(),
            r == spec_run_resuming(old(self).cpu@, max_cycles as nat).0,
            final (self).cpu@ == spec_run_resuming(old(self).cpu@, max_cycles as nat).1,
            r matches RunStatus::Trapped(e) ==> !(e is EnvironmentCall || e is Breakpoint),
    {
        proof {
            lemma_run_resuming_outcome(old(self).cpu@, max_cycles as nat);
        }
        let mut fuel = max_cycles;
        while fuel > 0
            invariant
                self.cpu.wf(),
                spec_run_resuming(old(self).cpu@, max_cycles as nat) == spec_run_resuming(
                    self.cpu@,
                    fuel as nat,
                ),
            decreases fuel,
        {
            let last_pc = self.cpu.pc;
            match self.cpu.fetch_and_execute() {
                Ok(()) => {
                    if self.cpu.pc == last_pc {
                        return RunStatus::Halted;
                    }
                },
                Err(e) => {
                    if e.is_recoverable() {
                        self.cpu.pc = self.cpu.pc.wrapping_add(4);
                    } else {
                        return RunStatus::Trapped(e);
                    }
                },
            }
            fuel = fuel - 1;
        }
        RunStatus::OutOfGas
    }

    /// Run the fetch-execute loop until the guest halts by jumping to itself
    /// (returned as `Ok`) or an instruction cycle raises an exception
    /// (returned as `Err`, with the machine exactly as that cycle found it).
    pub fn run(&mut self) -> (r: Result<(), RVException>)
        requires
            old(self).cpu.wf(),
        ensures
            final (self).cpu.wf(),
            ({
                let (st, vfin) = spec_run(old(self).cpu@, u64::MAX as nat);
                &&& final (self).cpu@ == vfin
                &&& r == (match st {
                    RunStatus::Trapped(e) => Err::<(), RVException>(e),
                    _ => Ok::<(), RVException>(()),
                })
            }),
            r matches Err(e) ==> spec_cycle(final (self).cpu@) == Err::<CpuView, RVException>(e),
    {
        proof {
            lemma_run_outcome(old(self).cpu@, u64::MAX as nat);
        }
        match self.run_for(u64::MAX) {
            RunStatus::Trapped(e) => Err(e),
            _ => Ok(()),
        }
    }
}

} // verus!
