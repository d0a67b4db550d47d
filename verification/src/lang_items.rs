//! What happens when the kernel panics: exactly one core reports it, once.
use vstd::prelude::*;
use crate::arch::percpu::MAX_CORES;
use crate::text;

verus! {

/// What a core that panics does.
#[derive(Debug, Clone, Copy, PartialEq, Eq, Structural)]
pub enum PanicStep {
    /// It is the first: stop the other cores, then report.
    StopOthersAndReport,
    /// It was elected before, and has not reported yet.
    Report,
    /// Halt without a word.
    Halt,
}

/// Who reports, and who has begun to.
pub struct PanicState {
    /// The elected core.
    pub reporter: Option<usize>,
    /// The cores whose handler was entered before.
    pub panicking: [bool; MAX_CORES],
}

impl PanicState {
    /// Whether nobody but the elected core has begun to report.
    pub open spec fn wf(&self) -> bool {
        forall|c: int|
            0 <= c < MAX_CORES && #[trigger] self.panicking@[c] ==> self.reporter == Some(
                c as usize,
            )
    }

    pub fn new() -> (r: Self)
        ensures
            r.wf(),
            r.reporter is None,
            forall|c: int| 0 <= c < MAX_CORES ==> !#[trigger] r.panicking@[c],
    {
        PanicState { reporter: None, panicking: [false; MAX_CORES] }
    }

    /// Elects the first core that asks, for good. Returns whether
    /// `this_core` is the elected one, and whether it was elected just now,
    /// in which case it has to stop the others.
    pub fn claim_panic_reporter(&mut self, this_core: usize) -> (r: (bool, bool))
        requires
            old(self).wf(),
        ensures
            final(self).wf(),
            final(self).panicking == old(self).panicking,
            final(self).reporter == match old(self).reporter {
                Some(core) => Some(core),
                None => Some(this_core),
            },
            r.0 == (final(self).reporter == Some(this_core)),
            r.1 == (old(self).reporter is None),
    {
        match self.reporter {
            Some(core) => (core == this_core, false),
            None => {
                self.reporter = Some(this_core);
                (true, true)
            },
        }
    }

    /// What a panic on `core` leads to.
    pub open spec fn step(&self, core: int) -> PanicStep {
        match self.reporter {
            None => PanicStep::StopOthersAndReport,
            Some(elected) => if elected == core && !self.panicking@[core] {
                PanicStep::Report
            } else {
                PanicStep::Halt
            },
        }
    }

    /// A panic on `core`: only the elected core reports, and it does so
    /// once.
    pub fn panic(&mut self, core: usize) -> (r: PanicStep)
        requires
            old(self).wf(),
            core < MAX_CORES,
        ensures
            final(self).wf(),
            r == old(self).step(core as int),
            final(self).reporter == match old(self).reporter {
                Some(elected) => Some(elected),
                None => Some(core),
            },
            final(self).panicking@ == if r == PanicStep::Halt {
                old(self).panicking@
            } else {
                old(self).panicking@.update(core as int, true)
            },
    {
        let (elected, first) = self.claim_panic_reporter(core);
        if !elected || self.panicking[core] {
            return PanicStep::Halt;
        }
        self.panicking[core] = true;
        if first {
            PanicStep::StopOthersAndReport
        } else {
            PanicStep::Report
        }
    }
}

/// Once a report was begun, no panic on any core begins another: not on the
/// core that reports, and not on a different one.
pub proof fn law_one_report(state: PanicState, core: int, other: int)
    requires
        state.wf(),
        0 <= core < MAX_CORES,
        0 <= other < MAX_CORES,
        state.panicking@[core],
    ensures
        state.step(other) == PanicStep::Halt,
{
    assert(state.reporter == Some(core as usize));
}

/// The line that reports a panic.
pub open spec fn panic_line(place: Option<(Seq<char>, u32, u32)>, message: Seq<char>) -> Seq<char> {
    match place {
        Some((file, line, column)) => "[KERNEL PANIC] "@ + file + ":"@ + text::decimal(line as nat)
            + ":"@ + text::decimal(column as nat) + ": "@ + message,
        None => "[KERNEL PANIC] "@ + message,
    }
}

/// Where a panic was raised.
pub struct Location {
    pub file: String,
    pub line: u32,
    pub column: u32,
}

/// Writes the line that reports a panic.
pub fn report_line(location: &Option<Location>, message: &str) -> (r: Vec<char>)
    ensures
        r@ == panic_line(
            match *location {
                Some(l) => Some((l.file@, l.line, l.column)),
                None => None,
            },
            message@,
        ),
{
    let mut out: Vec<char> = Vec::new();
    text::put(&mut out, "[KERNEL PANIC] ");
    match location {
        Some(l) => {
            text::put(&mut out, l.file.as_str());
            text::put(&mut out, ":");
            text::put_decimal(&mut out, l.line as u64);
            text::put(&mut out, ":");
            text::put_decimal(&mut out, l.column as u64);
            text::put(&mut out, ": ");
        },
        None => {},
    }
    text::put(&mut out, message);
    assert(out@ =~= panic_line(
        match *location {
            Some(l) => Some((l.file@, l.line, l.column)),
            None => None,
        },
        message@,
    ));
    out
}

/// The first core that panics is elected for good: it stops the others and
/// reports. A core that was elected before it panics reports too, but nobody
/// reports twice, and no other core reports.
pub proof fn law_the_first_panic_is_reported(
    fresh: PanicState,
    s: &mut PanicState,
    core: usize,
    r: PanicStep,
)
    requires
        old(s).wf(),
        core < 8,
        call_ensures(PanicState::new, (), fresh),
        call_ensures(PanicState::panic, (s, core), r),
    ensures
        fresh.reporter is None,
        !fresh.panicking@[core as int],
        old(s).reporter is None ==> r is StopOthersAndReport && final(s).reporter == Some(core)
            && final(s).panicking@[core as int],
        old(s).reporter is Some ==> final(s).reporter == old(s).reporter,
        old(s).reporter == Some(core) && !old(s).panicking@[core as int] ==> r is Report && final(s).panicking@[core as int],
        old(s).reporter == Some(core) && old(s).panicking@[core as int] ==> r is Halt,
        old(s).reporter is Some && old(s).reporter != Some(core) ==> r is Halt,
{
}

/// The election alone: the first to ask wins, and every core learns whether it
/// is the winner and whether it won just now.
pub proof fn law_the_first_to_ask_is_elected(
    s: &mut PanicState,
    core: usize,
    r: (bool, bool),
)
    requires
        old(s).wf(),
        call_ensures(PanicState::claim_panic_reporter, (s, core), r),
    ensures
        old(s).reporter is None ==> r == (true, true) && final(s).reporter == Some(core),
        old(s).reporter == Some(core) ==> r == (true, false),
        old(s).reporter is Some && old(s).reporter != Some(core) ==> r == (false, false),
        old(s).reporter is Some ==> final(s).reporter == old(s).reporter,
        final(s).panicking == old(s).panicking,
{
}

/// A report names the place, if it is known, and ends with the message.
pub proof fn law_reports_name_place_and_message(
    place: Location,
    message: &str,
    known: Vec<char>,
    unknown: Vec<char>,
    line: Vec<char>,
    column: Vec<char>,
)
    requires
        call_ensures(report_line, (&Some(place), message), known),
        call_ensures(report_line, (&None, message), unknown),
        call_ensures(text::to_decimal, (place.line as u64,), line),
        call_ensures(text::to_decimal, (place.column as u64,), column),
    ensures
        known@ == "[KERNEL PANIC] "@ + place.file@ + ":"@ + line@ + ":"@ + column@ + ": "@
            + message@,
        unknown@ == "[KERNEL PANIC] "@ + message@,
{
}

} // verus!
