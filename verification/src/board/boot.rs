//! Watching a boot: when to report progress, and when the run has ended.
//!
//! The board runs the CPU in batches and hands over what it saw: after every
//! retired instruction, at the end of a batch, and while the CPU is stopped.
//! The answers say what to print and what to do next.

use crate::board::text;
use vstd::prelude::*;

verus! {

/// Frames after which a run is cut off.
pub const BOOT_MAX_FRAMES: u64 = 200;

/// Instructions after which a run is cut off.
pub const BOOT_MAX_INSTRUCTIONS: u64 = 50_000_000;

/// CPU cycles per batch, and the most a stopped CPU is idled for at once.
pub const BOOT_RUN_BATCH_CYCLES: i32 = 2_000_000;

/// Frames between progress lines.
pub const BOOT_PROGRESS_EVERY_FRAMES: u64 = 10;

/// Instructions in a row at one address that count as a tight loop.
pub const BOOT_TIGHT_LOOP_THRESHOLD: u64 = 5_000_000;

/// Exceptions in a row of one kind at one address that count as a storm.
pub const BOOT_EXCEPTION_STORM_THRESHOLD: u64 = 1_000;

/// Which bound cut a run off.
#[derive(Clone, Copy, PartialEq, Eq, Debug, Structural)]
pub enum Limit {
    MaxInstructions,
    MaxFrames,
}

/// Why a run ended.
#[derive(Clone, Copy, PartialEq, Eq, Debug, Structural)]
pub enum BootOutcome {
    /// The CPU stopped with every interrupt masked.
    CleanHalt,
    LimitReached(Limit),
    /// A tight loop or an exception storm.
    Wedged,
}

/// An exception the CPU asks the board to deliver.
#[derive(Clone, Copy, PartialEq, Eq, Debug, Structural)]
pub enum ExceptionKind {
    Aline,
    Fline,
    Trap,
    Bkpt,
    Illegal,
}

/// How a batch of instructions ended.
#[derive(Clone, Copy, PartialEq, Eq, Debug, Structural)]
pub enum BatchExit {
    BudgetExhausted,
    BoundaryRequested,
    /// The CPU executed STOP.
    Stopped,
    Exception(ExceptionKind),
}

/// What the board does next.
#[derive(Clone, Copy, PartialEq, Eq, Debug, Structural)]
pub enum Next {
    End(BootOutcome),
    /// Run another batch.
    RunAgain,
    /// Keep the machine's clock going until an interrupt, then run again.
    Idle,
    /// Deliver the exception, then run again.
    Deliver(ExceptionKind),
}

/// The machine as seen after a retired instruction.
#[derive(Clone, Copy)]
pub struct Observation {
    /// Address of the instruction that retired.
    pub ppc: u32,
    /// Address of the next one.
    pub pc: u32,
    pub frames: u64,
    /// Whether the ROM overlay is still mapped.
    pub overlay: bool,
    pub intena: u16,
    pub intreq: u16,
}

/// Lines to print, and the outcome if the run has ended.
pub struct Step {
    pub lines: Vec<String>,
    pub ends: Option<BootOutcome>,
}

impl Step {
    /// The lines as text.
    pub open spec fn text(self) -> Seq<Seq<char>> {
        self.lines@.map_values(|line: String| line@)
    }
}

/// The state of a watch over one boot.
#[derive(Clone, Copy)]
pub struct BootMonitor {
    pub total_instructions: u64,
    pub last_progress_frame: u64,
    pub overlay_was_cleared: bool,
    pub last_pc: u32,
    pub same_pc_streak: u64,
    pub last_exception: Option<(ExceptionKind, u32)>,
    pub exception_streak: u64,
}

/// The word for the overlay's state.
pub open spec fn overlay_text(mapped: bool) -> Seq<char> {
    if mapped {
        "mapped"@
    } else {
        "clear"@
    }
}

fn overlay_word(mapped: bool) -> (word: &'static str)
    ensures
        word@ == overlay_text(mapped),
{
    if mapped {
        "mapped"
    } else {
        "clear"
    }
}

impl ExceptionKind {
    pub open spec fn text(self) -> Seq<char> {
        match self {
            ExceptionKind::Aline => "A-line"@,
            ExceptionKind::Fline => "F-line"@,
            ExceptionKind::Trap => "TRAP"@,
            ExceptionKind::Bkpt => "BKPT"@,
            ExceptionKind::Illegal => "illegal"@,
        }
    }

    pub fn name(self) -> (name: &'static str)
        ensures
            name@ == self.text(),
    {
        match self {
            ExceptionKind::Aline => "A-line",
            ExceptionKind::Fline => "F-line",
            ExceptionKind::Trap => "TRAP",
            ExceptionKind::Bkpt => "BKPT",
            ExceptionKind::Illegal => "illegal",
        }
    }
}

impl Limit {
    pub open spec fn text(self) -> Seq<char> {
        match self {
            Limit::MaxInstructions => "max-instructions"@,
            Limit::MaxFrames => "max-frames"@,
        }
    }

    pub fn name(self) -> (name: &'static str)
        ensures
            name@ == self.text(),
    {
        match self {
            Limit::MaxInstructions => "max-instructions",
            Limit::MaxFrames => "max-frames",
        }
    }
}

/// The line for a tight loop.
pub open spec fn tight_loop_line(pc: u32, streak: u64) -> Seq<char> {
    "wedge: tight loop at PC "@ + text::address(pc) + " ("@ + text::decimal(streak as nat)
        + " instructions with no progress)"@
}

/// The line for the overlay going away.
pub open spec fn overlay_line(frames: u64, instructions: u64, pc: u32) -> Seq<char> {
    "PHASE1 BOARD-QEMU-Q35: overlay cleared (frame "@ + text::decimal(frames as nat) + ", instr "@
        + text::decimal(instructions as nat) + ", PC "@ + text::address(pc) + ")"@
}

/// A progress line.
pub open spec fn progress_line(o: Observation, stopped: bool) -> Seq<char> {
    let lead = "progress: frame "@ + text::decimal(o.frames as nat) + ", PC "@ + text::address(
        o.pc,
    );
    (if stopped {
        lead + " (stopped), overlay "@
    } else {
        lead + ", overlay "@
    }) + overlay_text(o.overlay) + ", INTENA "@ + text::register(o.intena) + ", INTREQ "@
        + text::register(o.intreq)
}

/// The line for an exception storm.
pub open spec fn storm_line(kind: ExceptionKind, pc: u32, streak: u64) -> Seq<char> {
    "wedge: exception storm: "@ + kind.text() + " at PC "@ + text::address(pc) + " repeated "@
        + text::decimal(streak as nat) + " times"@
}

/// The marker line a run ends with.
pub open spec fn summary_line(
    outcome: BootOutcome,
    instructions: u64,
    frames: u64,
    overlay: bool,
    pc: u32,
) -> Seq<char> {
    (match outcome {
        BootOutcome::CleanHalt => "PHASE1 BOARD-QEMU-Q35: CPU HALTED CLEANLY -- "@,
        BootOutcome::LimitReached(limit) => "PHASE1 BOARD-QEMU-Q35: LIMIT REACHED ("@ + limit.text()
            + ") -- "@,
        BootOutcome::Wedged => "PHASE1 BOARD-QEMU-Q35: WEDGED -- "@,
    }) + text::decimal(instructions as nat) + " instructions, "@ + text::decimal(frames as nat)
        + " frames, overlay "@ + (if overlay {
        "still mapped"@
    } else {
        "cleared"@
    }) + ", final PC "@ + text::address(pc)
}

impl BootMonitor {
    /// The counters have room for one more step.
    pub open spec fn has_room(self) -> bool {
        &&& self.total_instructions < u64::MAX
        &&& self.same_pc_streak < u64::MAX
        &&& self.exception_streak < u64::MAX
        &&& self.last_progress_frame <= u64::MAX - BOOT_PROGRESS_EVERY_FRAMES
    }

    /// The watch with one more instruction counted.
    pub open spec fn counted(self, ppc: u32) -> BootMonitor {
        BootMonitor {
            total_instructions: (self.total_instructions + 1) as u64,
            last_pc: ppc,
            same_pc_streak: if ppc == self.last_pc {
                (self.same_pc_streak + 1) as u64
            } else {
                1
            },
            ..self
        }
    }

    /// Whether the CPU has sat at one address too long.
    pub open spec fn in_tight_loop(self) -> bool {
        self.same_pc_streak >= BOOT_TIGHT_LOOP_THRESHOLD
    }

    /// Whether a progress line is due.
    pub open spec fn progress_due(self, frames: u64) -> bool {
        frames >= self.last_progress_frame + BOOT_PROGRESS_EVERY_FRAMES
    }

    /// The watch after a progress line, if one was due.
    pub open spec fn progressed(self, frames: u64) -> BootMonitor {
        if self.progress_due(frames) {
            BootMonitor { last_progress_frame: frames, ..self }
        } else {
            self
        }
    }

    /// The watch after a retired instruction.
    pub open spec fn retired(self, o: Observation) -> BootMonitor {
        let c = self.counted(o.ppc);
        if c.in_tight_loop() {
            c
        } else {
            (BootMonitor {
                overlay_was_cleared: c.overlay_was_cleared || !o.overlay,
                ..c
            }).progressed(o.frames)
        }
    }

    /// Whether a retired instruction ends the run, and how: a tight loop
    /// before either limit.
    pub open spec fn verdict(self, o: Observation) -> Option<BootOutcome> {
        let c = self.counted(o.ppc);
        if c.in_tight_loop() {
            Some(BootOutcome::Wedged)
        } else if c.total_instructions >= BOOT_MAX_INSTRUCTIONS {
            Some(BootOutcome::LimitReached(Limit::MaxInstructions))
        } else if o.frames >= BOOT_MAX_FRAMES {
            Some(BootOutcome::LimitReached(Limit::MaxFrames))
        } else {
            None
        }
    }

    /// The lines printed after a retired instruction.
    pub open spec fn retired_lines(self, o: Observation) -> Seq<Seq<char>> {
        let c = self.counted(o.ppc);
        if c.in_tight_loop() {
            seq![tight_loop_line(o.ppc, c.same_pc_streak)]
        } else {
            let overlay = if !c.overlay_was_cleared && !o.overlay {
                seq![overlay_line(o.frames, c.total_instructions, o.pc)]
            } else {
                Seq::empty()
            };
            if c.progress_due(o.frames) {
                overlay.push(progress_line(o, false))
            } else {
                overlay
            }
        }
    }

    /// The watch after an exception.
    pub open spec fn excepted(self, kind: ExceptionKind, pc: u32) -> BootMonitor {
        BootMonitor {
            last_exception: Some((kind, pc)),
            exception_streak: if self.last_exception == Some((kind, pc)) {
                (self.exception_streak + 1) as u64
            } else {
                1
            },
            ..self
        }
    }

    /// Whether one exception has been repeating too long.
    pub open spec fn in_storm(self) -> bool {
        self.exception_streak >= BOOT_EXCEPTION_STORM_THRESHOLD
    }

    /// A watch over a CPU that starts at `pc`.
    pub fn new(pc: u32) -> (monitor: Self)
        ensures
            monitor == (BootMonitor {
                total_instructions: 0,
                last_progress_frame: 0,
                overlay_was_cleared: false,
                last_pc: pc,
                same_pc_streak: 0,
                last_exception: None,
                exception_streak: 0,
            }),
            monitor.has_room(),
    {
        BootMonitor {
            total_instructions: 0,
            last_progress_frame: 0,
            overlay_was_cleared: false,
            last_pc: pc,
            same_pc_streak: 0,
            last_exception: None,
            exception_streak: 0,
        }
    }

    /// Take note of a retired instruction.
    pub fn instruction_retired(&mut self, o: Observation) -> (step: Step)
        requires
            old(self).has_room(),
        ensures
            *final(self) == old(self).retired(o),
            step.ends == old(self).verdict(o),
            step.text() == old(self).retired_lines(o),
    {
        let mut lines: Vec<String> = Vec::new();
        self.total_instructions = self.total_instructions + 1;
        if o.ppc == self.last_pc {
            self.same_pc_streak = self.same_pc_streak + 1;
        } else {
            self.last_pc = o.ppc;
            self.same_pc_streak = 1;
        }
        if self.same_pc_streak >= BOOT_TIGHT_LOOP_THRESHOLD {
            let mut line = "wedge: tight loop at PC ".to_owned();
            text::push_address(&mut line, o.ppc);
            line.append(" (");
            text::push_decimal(&mut line, self.same_pc_streak);
            line.append(" instructions with no progress)");
            lines.push(line);
            let step = Step { lines, ends: Some(BootOutcome::Wedged) };
            assert(step.text() =~= old(self).retired_lines(o));
            return step;
        }
        if !self.overlay_was_cleared && !o.overlay {
            self.overlay_was_cleared = true;
            let mut line = "PHASE1 BOARD-QEMU-Q35: overlay cleared (frame ".to_owned();
            text::push_decimal(&mut line, o.frames);
            line.append(", instr ");
            text::push_decimal(&mut line, self.total_instructions);
            line.append(", PC ");
            text::push_address(&mut line, o.pc);
            line.append(")");
            lines.push(line);
        }
        match self.progress(o, false) {
            Some(line) => lines.push(line),
            None => {},
        }
        let ends = if self.total_instructions >= BOOT_MAX_INSTRUCTIONS {
            Some(BootOutcome::LimitReached(Limit::MaxInstructions))
        } else if o.frames >= BOOT_MAX_FRAMES {
            Some(BootOutcome::LimitReached(Limit::MaxFrames))
        } else {
            None
        };
        let step = Step { lines, ends };
        assert(step.text() =~= old(self).retired_lines(o));
        step
    }

    /// The progress line for what was observed, if one is due.
    pub fn progress(&mut self, o: Observation, stopped: bool) -> (line: Option<String>)
        requires
            old(self).last_progress_frame <= u64::MAX - BOOT_PROGRESS_EVERY_FRAMES,
        ensures
            *final(self) == old(self).progressed(o.frames),
            (line is Some) == old(self).progress_due(o.frames),
            line matches Some(l) ==> l@ == progress_line(o, stopped),
    {
        if o.frames < self.last_progress_frame + BOOT_PROGRESS_EVERY_FRAMES {
            return None;
        }
        self.last_progress_frame = o.frames;
        let mut line = "progress: frame ".to_owned();
        text::push_decimal(&mut line, o.frames);
        line.append(", PC ");
        text::push_address(&mut line, o.pc);
        if stopped {
            line.append(" (stopped), overlay ");
        } else {
            line.append(", overlay ");
        }
        line.append(overlay_word(o.overlay));
        line.append(", INTENA ");
        text::push_register(&mut line, o.intena);
        line.append(", INTREQ ");
        text::push_register(&mut line, o.intreq);
        Some(line)
    }

    /// Settle the instruction count at the end of a batch that started at
    /// `before` and reports `instructions` of its own: the CPU's figure
    /// counts where the instruction hook saw fewer.
    pub fn batch_finished(&mut self, before: u64, instructions: u64)
        requires
            before + instructions <= u64::MAX,
        ensures
            *final(self) == (BootMonitor {
                total_instructions: if old(self).total_instructions < before + instructions {
                    (before + instructions) as u64
                } else {
                    old(self).total_instructions
                },
                ..*old(self)
            }),
    {
        let reported: u64 = before + instructions;
        if self.total_instructions < reported {
            self.total_instructions = reported;
        }
    }

    /// Count an exception. Once the same kind has fired at the same address
    /// often enough in a row, the line that says so.
    pub fn track_exception(&mut self, kind: ExceptionKind, pc: u32) -> (storm: Option<String>)
        requires
            old(self).exception_streak < u64::MAX,
        ensures
            *final(self) == old(self).excepted(kind, pc),
            (storm is Some) == final(self).in_storm(),
            storm matches Some(line) ==> line@ == storm_line(kind, pc, final(self).exception_streak),
    {
        let same = match self.last_exception {
            Some((last_kind, last_pc)) => last_kind == kind && last_pc == pc,
            None => false,
        };
        if same {
            self.exception_streak = self.exception_streak + 1;
        } else {
            self.last_exception = Some((kind, pc));
            self.exception_streak = 1;
        }
        if self.exception_streak < BOOT_EXCEPTION_STORM_THRESHOLD {
            return None;
        }
        let mut line = "wedge: exception storm: ".to_owned();
        line.append(kind.name());
        line.append(" at PC ");
        text::push_address(&mut line, pc);
        line.append(" repeated ");
        text::push_decimal(&mut line, self.exception_streak);
        line.append(" times");
        Some(line)
    }

    /// What to do after a batch: `hook` is the verdict of the instruction
    /// hook, `int_mask` the CPU's interrupt mask, `ppc` the last instruction.
    /// Also the line to print, if an exception storm ends the run.
    pub fn after_batch(
        &mut self,
        hook: Option<BootOutcome>,
        exit: BatchExit,
        int_mask: u32,
        ppc: u32,
        frames: u64,
    ) -> (result: (Next, Option<String>))
        requires
            old(self).exception_streak < u64::MAX,
        ensures
            result.0 == next_step(*final(self), hook, exit, int_mask, frames),
            *final(self) == match (hook, exit) {
                (None, BatchExit::Exception(kind)) => old(self).excepted(kind, ppc),
                _ => *old(self),
            },
            (result.1 is Some) == (hook is None && exit is Exception && final(self).in_storm()),
            result.1 matches Some(line) ==> line@ == storm_line(
                exit->Exception_0,
                ppc,
                final(self).exception_streak,
            ),
    {
        match hook {
            Some(outcome) => {
                return (Next::End(outcome), None);
            },
            None => {},
        }
        match exit {
            BatchExit::BudgetExhausted | BatchExit::BoundaryRequested => (Next::RunAgain, None),
            BatchExit::Stopped => {
                if int_mask & 0x0700 == 0x0700 {
                    (Next::End(BootOutcome::CleanHalt), None)
                } else if frames >= BOOT_MAX_FRAMES {
                    (Next::End(BootOutcome::LimitReached(Limit::MaxFrames)), None)
                } else {
                    (Next::Idle, None)
                }
            },
            BatchExit::Exception(kind) => {
                match self.track_exception(kind, ppc) {
                    Some(line) => (Next::End(BootOutcome::Wedged), Some(line)),
                    None => (Next::Deliver(kind), None),
                }
            },
        }
    }

    /// The marker line the run ends with.
    pub fn summary(&self, outcome: BootOutcome, frames: u64, overlay: bool, pc: u32) -> (line:
        String)
        ensures
            line@ == summary_line(outcome, self.total_instructions, frames, overlay, pc),
    {
        let mut line = match outcome {
            BootOutcome::CleanHalt => "PHASE1 BOARD-QEMU-Q35: CPU HALTED CLEANLY -- ".to_owned(),
            BootOutcome::LimitReached(limit) => {
                let mut lead = "PHASE1 BOARD-QEMU-Q35: LIMIT REACHED (".to_owned();
                lead.append(limit.name());
                lead.append(") -- ");
                lead
            },
            BootOutcome::Wedged => "PHASE1 BOARD-QEMU-Q35: WEDGED -- ".to_owned(),
        };
        text::push_decimal(&mut line, self.total_instructions);
        line.append(" instructions, ");
        text::push_decimal(&mut line, frames);
        line.append(" frames, overlay ");
        if overlay {
            line.append("still mapped");
        } else {
            line.append("cleared");
        }
        line.append(", final PC ");
        text::push_address(&mut line, pc);
        line
    }
}

/// What follows a batch, `watch` being the state with any exception already
/// counted.
pub open spec fn next_step(
    watch: BootMonitor,
    hook: Option<BootOutcome>,
    exit: BatchExit,
    int_mask: u32,
    frames: u64,
) -> Next {
    match hook {
        Some(outcome) => Next::End(outcome),
        None => match exit {
            BatchExit::BudgetExhausted => Next::RunAgain,
            BatchExit::BoundaryRequested => Next::RunAgain,
            BatchExit::Stopped => if int_mask & 0x0700 == 0x0700 {
                Next::End(BootOutcome::CleanHalt)
            } else if frames >= BOOT_MAX_FRAMES {
                Next::End(BootOutcome::LimitReached(Limit::MaxFrames))
            } else {
                Next::Idle
            },
            BatchExit::Exception(kind) => if watch.in_storm() {
                Next::End(BootOutcome::Wedged)
            } else {
                Next::Deliver(kind)
            },
        },
    }
}

/// How many cycles to tick a stopped machine by, and what is left of the
/// budget: never more than one raster line's worth at once, so that no
/// vertical blank or timer underflow is run over.
pub fn idle_slice(budget: u32, slice: u32) -> (result: (u32, u32))
    ensures
        result.0 == if slice < budget {
            slice
        } else {
            budget
        },
        result.1 == budget - result.0,
{
    if slice < budget {
        (slice, budget - slice)
    } else {
        (budget, 0)
    }
}

/// The line that reports where the CPU starts.
pub open spec fn reset_text(ssp: u32, pc: u32, overlay: bool) -> Seq<char> {
    "reset vector: SSP "@ + text::address(ssp) + " PC "@ + text::address(pc) + " (overlay "@
        + overlay_text(overlay) + ")"@
}

/// The line that reports where the CPU starts.
pub fn reset_line(ssp: u32, pc: u32, overlay: bool) -> (line: String)
    ensures
        line@ == reset_text(ssp, pc, overlay),
{
    let mut line = "reset vector: SSP ".to_owned();
    text::push_address(&mut line, ssp);
    line.append(" PC ");
    text::push_address(&mut line, pc);
    line.append(" (overlay ");
    line.append(overlay_word(overlay));
    line.append(")");
    line
}

/// What is known of a ROM image.
pub struct RomIdentity {
    pub kind: String,
    pub rev: (u32, u32),
    pub exec_rev: (u32, u32),
    pub size: usize,
    pub checksum_ok: bool,
    pub boot_pc: u32,
}

/// The line that reports a ROM image of `len` bytes.
pub open spec fn rom_text(label: Seq<char>, identity: Option<RomIdentity>, len: usize) -> Seq<
    char,
> {
    match identity {
        Some(info) => label + " ROM: "@ + info.kind@ + " rev "@ + text::decimal(info.rev.0 as nat)
            + "."@ + text::decimal(info.rev.1 as nat) + ", exec "@ + text::decimal(
            info.exec_rev.0 as nat,
        ) + "."@ + text::decimal(info.exec_rev.1 as nat) + ", "@ + text::decimal(info.size as nat)
            + " bytes, checksum "@ + (if info.checksum_ok {
            "ok"@
        } else {
            "FAILED"@
        }) + ", boot_pc "@ + text::address(info.boot_pc),
        None => label + " ROM: unidentified ("@ + text::decimal(len as nat)
            + " bytes) -- booting anyway"@,
    }
}

/// The line that reports a ROM image of `len` bytes.
pub fn report_rom_identify(label: &str, identity: Option<RomIdentity>, len: usize) -> (line: String)
    ensures
        line@ == rom_text(label@, identity, len),
{
    let mut line = label.to_owned();
    match identity {
        Some(info) => {
            line.append(" ROM: ");
            line.append(info.kind.as_str());
            line.append(" rev ");
            text::push_decimal(&mut line, info.rev.0 as u64);
            line.append(".");
            text::push_decimal(&mut line, info.rev.1 as u64);
            line.append(", exec ");
            text::push_decimal(&mut line, info.exec_rev.0 as u64);
            line.append(".");
            text::push_decimal(&mut line, info.exec_rev.1 as u64);
            line.append(", ");
            text::push_decimal(&mut line, info.size as u64);
            line.append(" bytes, checksum ");
            if info.checksum_ok {
                line.append("ok");
            } else {
                line.append("FAILED");
            }
            line.append(", boot_pc ");
            text::push_address(&mut line, info.boot_pc);
        },
        None => {
            line.append(" ROM: unidentified (");
            text::push_decimal(&mut line, len as u64);
            line.append(" bytes) -- booting anyway");
        },
    }
    line
}

/// Every run ends: each retired instruction is counted, and the one that
/// reaches the bound, if not an earlier one, gives a verdict.
pub proof fn every_run_ends(watch: BootMonitor, o: Observation)
    requires
        watch.has_room(),
    ensures
        watch.retired(o).total_instructions == watch.total_instructions + 1,
        watch.total_instructions + 1 >= BOOT_MAX_INSTRUCTIONS ==> watch.verdict(o) is Some,
        o.frames >= BOOT_MAX_FRAMES ==> watch.verdict(o) is Some,
{
}

/// The watch after `n` instructions in a row retired at `pc`, as far as
/// counting goes.
pub open spec fn repeated(watch: BootMonitor, pc: u32, n: nat) -> BootMonitor
    decreases n,
{
    if n == 0 {
        watch
    } else {
        repeated(watch, pc, (n - 1) as nat).counted(pc)
    }
}

/// A loop at one address is called a wedge exactly when it has lasted the
/// threshold, counted from the instruction before it.
pub proof fn tight_loops_are_caught_at_the_threshold(watch: BootMonitor, pc: u32, n: nat)
    requires
        watch.last_pc != pc,
        watch.total_instructions + n <= u64::MAX,
        0 < n <= u64::MAX,
    ensures
        repeated(watch, pc, n).same_pc_streak == n,
        repeated(watch, pc, n).last_pc == pc,
        repeated(watch, pc, n).in_tight_loop() <==> n >= BOOT_TIGHT_LOOP_THRESHOLD,
    decreases n,
{
    if n > 1 {
        tight_loops_are_caught_at_the_threshold(watch, pc, (n - 1) as nat);
    } else {
        assert(repeated(watch, pc, 0) == watch);
    }
}

/// The watch after `n` exceptions in a row of one kind at one address.
pub open spec fn stormed(watch: BootMonitor, kind: ExceptionKind, pc: u32, n: nat) -> BootMonitor
    decreases n,
{
    if n == 0 {
        watch
    } else {
        stormed(watch, kind, pc, (n - 1) as nat).excepted(kind, pc)
    }
}

/// A storm is called exactly when one exception has repeated up to the
/// threshold with nothing else in between.
pub proof fn storms_are_caught_at_the_threshold(
    watch: BootMonitor,
    kind: ExceptionKind,
    pc: u32,
    n: nat,
)
    requires
        watch.last_exception != Some((kind, pc)),
        0 < n <= u64::MAX,
    ensures
        stormed(watch, kind, pc, n).exception_streak == n,
        stormed(watch, kind, pc, n).last_exception == Some((kind, pc)),
        stormed(watch, kind, pc, n).in_storm() <==> n >= BOOT_EXCEPTION_STORM_THRESHOLD,
    decreases n,
{
    if n > 1 {
        storms_are_caught_at_the_threshold(watch, kind, pc, (n - 1) as nat);
    } else {
        assert(stormed(watch, kind, pc, 0) == watch);
    }
}

/// The overlay's going away is reported once: after it, no instruction
/// reports it again.
pub proof fn overlay_is_reported_once(watch: BootMonitor, o: Observation, later: Observation)
    requires
        watch.has_room(),
        watch.retired(o).has_room(),
        !o.overlay,
        !watch.counted(o.ppc).in_tight_loop(),
        !watch.retired(o).counted(later.ppc).in_tight_loop(),
    ensures
        watch.retired(o).overlay_was_cleared,
        watch.retired(o).retired(later).overlay_was_cleared,
        watch.retired(o).retired_lines(later) == if watch.retired(o).progress_due(later.frames) {
            seq![progress_line(later, false)]
        } else {
            Seq::empty()
        },
{
    assert(Seq::<Seq<char>>::empty().push(progress_line(later, false)) =~= seq![
        progress_line(later, false),
    ]);
}

/// Cycles ticked by a stopped machine that idles `budget` away in slices.
pub open spec fn idled(budget: nat, slice: nat) -> nat
    decreases budget,
{
    if budget == 0 || slice == 0 {
        0
    } else if slice < budget {
        slice + idled((budget - slice) as nat, slice)
    } else {
        budget
    }
}

/// However it is sliced, the whole budget is ticked and no more.
pub proof fn idle_slices_add_up(budget: nat, slice: nat)
    requires
        slice > 0,
    ensures
        idled(budget, slice) == budget,
    decreases budget,
{
    if budget > slice {
        idle_slices_add_up((budget - slice) as nat, slice);
    }
}

/// What ends a run, by the numbers: five million instructions at one
/// address, fifty million in all, or two hundred frames, in that order.
pub proof fn what_ends_a_run(watch: BootMonitor, o: Observation)
    requires
        watch.has_room(),
    ensures
        ({
            let streak = if o.ppc == watch.last_pc {
                watch.same_pc_streak + 1
            } else {
                1
            };
            let wedged = streak >= 5_000_000;
            let spent = watch.total_instructions + 1 >= 50_000_000;
            let late = o.frames >= 200;
            &&& watch.verdict(o) == Some(BootOutcome::Wedged) <==> wedged
            &&& watch.verdict(o) == Some(BootOutcome::LimitReached(Limit::MaxInstructions))
                <==> !wedged && spent
            &&& watch.verdict(o) == Some(BootOutcome::LimitReached(Limit::MaxFrames)) <==> !wedged
                && !spent && late
            &&& watch.verdict(o) is None <==> !wedged && !spent && !late
        }),
{
}

/// A progress line comes every ten frames: after one at a frame, none is due
/// until ten frames later, and then one is.
pub proof fn progress_comes_every_ten_frames(watch: BootMonitor, frames: u64, later: u64)
    requires
        frames <= u64::MAX - 10,
        watch.progress_due(frames),
    ensures
        watch.progressed(frames).progress_due(later) <==> later >= frames + 10,
{
}

/// A stopped machine halts when nothing can wake it, with all three mask bits
/// set, and idles otherwise until its frames run out; an exception is
/// delivered unless it has become a storm; a batch that merely ran out runs
/// again; and an outcome already reached ends the run whatever else happened.
pub proof fn what_follows_a_batch(
    watch: BootMonitor,
    outcome: BootOutcome,
    exit: BatchExit,
    kind: ExceptionKind,
    mask: u32,
    frames: u64,
)
    ensures
        next_step(watch, Some(outcome), exit, mask, frames) == Next::End(outcome),
        next_step(watch, None, BatchExit::BudgetExhausted, mask, frames) == Next::RunAgain,
        next_step(watch, None, BatchExit::BoundaryRequested, mask, frames) == Next::RunAgain,
        next_step(watch, None, BatchExit::Stopped, mask, frames) == Next::End(
            BootOutcome::CleanHalt,
        ) <==> mask & 0x0700 == 0x0700,
        next_step(watch, None, BatchExit::Stopped, mask, frames) == Next::Idle <==> mask & 0x0700
            != 0x0700 && frames < 200,
        next_step(watch, None, BatchExit::Exception(kind), mask, frames) == Next::Deliver(kind)
            <==> watch.exception_streak < 1000,
        next_step(watch, None, BatchExit::Exception(kind), mask, frames) == Next::End(
            BootOutcome::Wedged,
        ) <==> watch.exception_streak >= 1000,
{
}

} // verus!
