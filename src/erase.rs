//! Erasure of one device as a state machine. The machine decides; the
//! caller carries out each command it issues (a capacity query, an
//! overwrite, a secure-erase command) and hands back what came of it.

use vstd::prelude::*;
use crate::disk::{DiskInfo, DiskView, MediaType, Transport};
use crate::text::{chars_of, decimal, parse_decimal, trim, trimmed};

verus! {

/// The block size of an overwrite: four mebibytes.
pub const BLOCK_SIZE: u64 = 4194304;

/// The number of overwrite passes on rotational media.
pub const OVERWRITE_PASSES: u8 = 3;

/// What an overwrite writes.
#[derive(Clone, Copy, PartialEq, Eq, Structural, Debug)]
pub enum Pattern {
    Random,
    Zero,
}

/// A step of a secure-erase command chain whose failure ends the erasure.
/// (A failed enhanced ATA erase does not: the standard erase follows it.)
#[derive(Clone, Copy, PartialEq, Eq, Structural, Debug)]
pub enum ChainStep {
    SetPassword,
    StandardErase,
    SecureFormat,
    ZeroFill,
}

/// Why the erasure of a device failed.
#[derive(Clone, Copy, PartialEq, Eq, Structural, Debug)]
pub enum EraseError {
    /// No descriptor of the detection pass has the requested path.
    DeviceNotFound,
    /// The media type is unknown, so no erasure method is safe to choose.
    UnknownMediaType,
    /// The capacity query before an overwrite pass failed or gave zero.
    CapacityQueryFailed { pass: u8 },
    /// An overwrite pass of rotational media failed.
    PassFailed { pass: u8 },
    /// A step of a secure-erase chain, or the zero fill, failed.
    ChainStepFailed { step: ChainStep },
    /// Cancellation was requested before the next destructive command.
    /// `password_left_set` tells that an ATA security password had been set
    /// and no erase has cleared it, so the device stays locked.
    Cancelled { password_left_set: bool },
}

/// How a device is erased.
#[derive(Clone, Copy, PartialEq, Eq, Structural, Debug)]
pub enum Method {
    /// Three overwrite passes: random, zero, random.
    Overwrite,
    /// ATA security erase: password, then enhanced erase, then standard
    /// erase if the enhanced one fails.
    AtaSecureErase,
    /// One secure NVMe format.
    NvmeFormat,
    /// One full-capacity zero fill, where no secure-erase command applies.
    ZeroFill,
}

/// Where an erasure stands.
#[derive(Clone, Copy, PartialEq, Eq, Structural, Debug)]
pub enum Phase {
    Ready,
    AwaitCapacity { pass: u8 },
    AwaitWrite { pass: u8 },
    AwaitPassword,
    AwaitEnhanced,
    AwaitStandard,
    AwaitFormat,
    Succeeded,
    Failed { error: EraseError },
}

/// The lifecycle status of an erasure.
#[derive(Clone, Copy, PartialEq, Eq, Structural, Debug)]
pub enum Status {
    Pending,
    InProgress,
    Succeeded,
    Failed { error: EraseError },
}

/// What the caller reports back to the machine.
#[derive(Clone, Copy, PartialEq, Eq, Structural, Debug)]
pub enum Event {
    /// Begin the erasure.
    Start,
    /// The capacity query gave this many bytes; zero where it failed or its
    /// output could not be read.
    Capacity { bytes: u64 },
    /// The last command finished, successfully or not.
    Completed { success: bool },
}

/// What the machine asks the caller to do next.
#[derive(Clone, Copy, PartialEq, Eq, Structural, Debug)]
pub enum Command {
    /// Query the device's capacity in bytes.
    QueryCapacity,
    /// Write `pattern` over the whole device: `block_count` blocks of
    /// `block_size` bytes, then `tail_bytes` more.
    Overwrite { pattern: Pattern, block_size: u64, block_count: u64, tail_bytes: u64 },
    /// Set a temporary ATA security password.
    SetPassword,
    /// Run the enhanced ATA security erase.
    EnhancedErase,
    /// Run the standard ATA security erase.
    StandardErase,
    /// Run a secure NVMe format.
    SecureFormat,
    /// Nothing more: the erasure has ended.
    Stop,
}

/// Commands that change what the device holds.
pub open spec fn is_destructive(c: Command) -> bool {
    match c {
        Command::QueryCapacity | Command::Stop => false,
        _ => true,
    }
}

pub open spec fn is_terminal(ph: Phase) -> bool {
    ph is Succeeded || ph is Failed
}

/// The pattern of each overwrite pass: random, then zero, then random.
pub open spec fn pass_pattern(pass: u8) -> Pattern {
    if pass == 1 {
        Pattern::Zero
    } else {
        Pattern::Random
    }
}

/// The overwrite of a device of `bytes` bytes with `pattern`.
pub open spec fn overwrite(pattern: Pattern, bytes: u64) -> Command {
    Command::Overwrite {
        pattern,
        block_size: BLOCK_SIZE,
        block_count: bytes / BLOCK_SIZE,
        tail_bytes: bytes % BLOCK_SIZE,
    }
}

/// The method for a device, or none where its media type is unknown.
pub open spec fn method_for(d: DiskView) -> Option<Method> {
    match d.media {
        MediaType::Hdd => Some(Method::Overwrite),
        MediaType::Ssd => match d.transport {
            Transport::Sata => Some(Method::AtaSecureErase),
            Transport::Nvme => Some(Method::NvmeFormat),
            _ => Some(Method::ZeroFill),
        },
        MediaType::Unknown => None,
    }
}

pub open spec fn first_phase(m: Method) -> (Phase, Command) {
    match m {
        Method::Overwrite | Method::ZeroFill => (Phase::AwaitCapacity { pass: 0 }, Command::QueryCapacity),
        Method::AtaSecureErase => (Phase::AwaitPassword, Command::SetPassword),
        Method::NvmeFormat => (Phase::AwaitFormat, Command::SecureFormat),
    }
}

pub open spec fn fail(e: EraseError) -> (Phase, Command) {
    (Phase::Failed { error: e }, Command::Stop)
}

pub open spec fn completed_ok(ev: Event) -> bool {
    ev == Event::Completed { success: true }
}

/// One transition: from phase `ph` of an erasure by method `m`, on event
/// `ev`, with `cancel` telling whether cancellation was requested. An event
/// other than the one awaited counts as a failure of the awaited step, and
/// no destructive command is issued once cancellation is requested.
pub open spec fn step(m: Method, ph: Phase, ev: Event, cancel: bool) -> (Phase, Command) {
    match ph {
        Phase::Ready => if cancel {
            fail(EraseError::Cancelled { password_left_set: false })
        } else {
            first_phase(m)
        },
        Phase::AwaitCapacity { pass } => match ev {
            Event::Capacity { bytes } => if bytes == 0 {
                fail(EraseError::CapacityQueryFailed { pass })
            } else if cancel {
                fail(EraseError::Cancelled { password_left_set: false })
            } else {
                (
                    Phase::AwaitWrite { pass },
                    overwrite(
                        if m == Method::ZeroFill {
                            Pattern::Zero
                        } else {
                            pass_pattern(pass)
                        },
                        bytes,
                    ),
                )
            },
            _ => fail(EraseError::CapacityQueryFailed { pass }),
        },
        Phase::AwaitWrite { pass } => if completed_ok(ev) {
            if m == Method::Overwrite && pass + 1 < OVERWRITE_PASSES {
                if cancel {
                    fail(EraseError::Cancelled { password_left_set: false })
                } else {
                    (Phase::AwaitCapacity { pass: (pass + 1) as u8 }, Command::QueryCapacity)
                }
            } else {
                (Phase::Succeeded, Command::Stop)
            }
        } else if m == Method::ZeroFill {
            fail(EraseError::ChainStepFailed { step: ChainStep::ZeroFill })
        } else {
            fail(EraseError::PassFailed { pass })
        },
        Phase::AwaitPassword => if !completed_ok(ev) {
            fail(EraseError::ChainStepFailed { step: ChainStep::SetPassword })
        } else if cancel {
            fail(EraseError::Cancelled { password_left_set: true })
        } else {
            (Phase::AwaitEnhanced, Command::EnhancedErase)
        },
        Phase::AwaitEnhanced => if completed_ok(ev) {
            (Phase::Succeeded, Command::Stop)
        } else if cancel {
            fail(EraseError::Cancelled { password_left_set: true })
        } else {
            (Phase::AwaitStandard, Command::StandardErase)
        },
        Phase::AwaitStandard => if completed_ok(ev) {
            (Phase::Succeeded, Command::Stop)
        } else {
            fail(EraseError::ChainStepFailed { step: ChainStep::StandardErase })
        },
        Phase::AwaitFormat => if completed_ok(ev) {
            (Phase::Succeeded, Command::Stop)
        } else {
            fail(EraseError::ChainStepFailed { step: ChainStep::SecureFormat })
        },
        Phase::Succeeded | Phase::Failed { .. } => (ph, Command::Stop),
    }
}

/// Phases in which an ATA security password is set and no erase has
/// cleared it yet.
pub open spec fn password_set(ph: Phase) -> bool {
    ph is AwaitEnhanced || ph is AwaitStandard
}

pub open spec fn status_of(ph: Phase) -> Status {
    match ph {
        Phase::Ready => Status::Pending,
        Phase::Succeeded => Status::Succeeded,
        Phase::Failed { error } => Status::Failed { error },
        _ => Status::InProgress,
    }
}

/// The capacity that the output of a capacity query states, in bytes:
/// a decimal number with blanks around it; zero where the output is
/// anything else.
pub open spec fn capacity_in(output: Seq<char>) -> u64 {
    match decimal(trim(output), 0xFFFF_FFFF_FFFF_FFFF) {
        Some(n) => n as u64,
        None => 0,
    }
}

/// Reads the output of a capacity query: the device size in bytes, or zero
/// where the output does not state one.
pub fn capacity_from_output(output: &str) -> (r: u64)
    ensures
        r == capacity_in(output@),
{
    let cs = trimmed(&chars_of(output));
    match parse_decimal(&cs, 0xFFFF_FFFF_FFFF_FFFF) {
        Some(n) => n,
        None => 0,
    }
}

/// The erasure that the dispatcher gives a device: the method for its media
/// type and transport, not yet started; for a device of unknown media type,
/// an erasure that has already failed.
pub open spec fn dispatched(d: DiskView) -> EraseTask {
    match method_for(d) {
        Some(m) => EraseTask { method: m, phase: Phase::Ready },
        None => EraseTask {
            method: Method::ZeroFill,
            phase: Phase::Failed { error: EraseError::UnknownMediaType },
        },
    }
}

/// The erasure of one device.
#[derive(Clone, Copy, PartialEq, Eq, Structural, Debug)]
pub struct EraseTask {
    pub method: Method,
    pub phase: Phase,
}

/// Phases that an erasure by method `m` can reach.
pub open spec fn reachable(m: Method, ph: Phase) -> bool {
    match ph {
        Phase::AwaitCapacity { pass } | Phase::AwaitWrite { pass } => match m {
            Method::Overwrite => pass < OVERWRITE_PASSES,
            Method::ZeroFill => pass == 0,
            _ => false,
        },
        Phase::AwaitPassword | Phase::AwaitEnhanced | Phase::AwaitStandard => m
            == Method::AtaSecureErase,
        Phase::AwaitFormat => m == Method::NvmeFormat,
        _ => true,
    }
}

impl EraseTask {
    pub open spec fn wf(&self) -> bool {
        reachable(self.method, self.phase)
    }

    /// The erasure of a device by the method that its media type and
    /// transport call for. A device of unknown media type gets an erasure
    /// that has already failed, so that nothing is ever done to it.
    pub fn for_disk(d: &DiskInfo) -> (r: EraseTask)
        ensures
            r.wf(),
            r == dispatched(d@),
    {
        match d.device_type {
            MediaType::Hdd => EraseTask { method: Method::Overwrite, phase: Phase::Ready },
            MediaType::Ssd => {
                let method = match d.transport {
                    Transport::Sata => Method::AtaSecureErase,
                    Transport::Nvme => Method::NvmeFormat,
                    _ => Method::ZeroFill,
                };
                EraseTask { method, phase: Phase::Ready }
            },
            MediaType::Unknown => EraseTask {
                method: Method::ZeroFill,
                phase: Phase::Failed { error: EraseError::UnknownMediaType },
            },
        }
    }

    /// Feeds the machine one event and returns the next command.
    /// `cancel_requested` tells whether cancellation was asked for; it is
    /// checked before every destructive command.
    pub fn advance(&mut self, event: Event, cancel_requested: bool) -> (r: Command)
        requires
            old(self).wf(),
        ensures
            final(self).wf(),
            final(self).method == old(self).method,
            (final(self).phase, r) == step(old(self).method, old(self).phase, event, cancel_requested),
    {
        let ok = match event {
            Event::Completed { success } => success,
            _ => false,
        };
        let m = self.method;
        let (phase, command) = match self.phase {
            Phase::Ready => if cancel_requested {
                (Phase::Failed { error: EraseError::Cancelled { password_left_set: false } }, Command::Stop)
            } else {
                match m {
                    Method::Overwrite | Method::ZeroFill => (
                        Phase::AwaitCapacity { pass: 0 },
                        Command::QueryCapacity,
                    ),
                    Method::AtaSecureErase => (Phase::AwaitPassword, Command::SetPassword),
                    Method::NvmeFormat => (Phase::AwaitFormat, Command::SecureFormat),
                }
            },
            Phase::AwaitCapacity { pass } => match event {
                Event::Capacity { bytes } => if bytes == 0 {
                    (Phase::Failed { error: EraseError::CapacityQueryFailed { pass } }, Command::Stop)
                } else if cancel_requested {
                    (Phase::Failed { error: EraseError::Cancelled { password_left_set: false } }, Command::Stop)
                } else {
                    let pattern = if m == Method::ZeroFill || pass == 1 {
                        Pattern::Zero
                    } else {
                        Pattern::Random
                    };
                    (
                        Phase::AwaitWrite { pass },
                        Command::Overwrite {
                            pattern,
                            block_size: BLOCK_SIZE,
                            block_count: bytes / BLOCK_SIZE,
                            tail_bytes: bytes % BLOCK_SIZE,
                        },
                    )
                },
                _ => (Phase::Failed { error: EraseError::CapacityQueryFailed { pass } }, Command::Stop),
            },
            Phase::AwaitWrite { pass } => if ok {
                if m == Method::Overwrite && pass + 1 < OVERWRITE_PASSES {
                    if cancel_requested {
                        (Phase::Failed { error: EraseError::Cancelled { password_left_set: false } }, Command::Stop)
                    } else {
                        (Phase::AwaitCapacity { pass: pass + 1 }, Command::QueryCapacity)
                    }
                } else {
                    (Phase::Succeeded, Command::Stop)
                }
            } else if m == Method::ZeroFill {
                (
                    Phase::Failed { error: EraseError::ChainStepFailed { step: ChainStep::ZeroFill } },
                    Command::Stop,
                )
            } else {
                (Phase::Failed { error: EraseError::PassFailed { pass } }, Command::Stop)
            },
            Phase::AwaitPassword => if !ok {
                (
                    Phase::Failed {
                        error: EraseError::ChainStepFailed { step: ChainStep::SetPassword },
                    },
                    Command::Stop,
                )
            } else if cancel_requested {
                (Phase::Failed { error: EraseError::Cancelled { password_left_set: true } }, Command::Stop)
            } else {
                (Phase::AwaitEnhanced, Command::EnhancedErase)
            },
            Phase::AwaitEnhanced => if ok {
                (Phase::Succeeded, Command::Stop)
            } else if cancel_requested {
                (Phase::Failed { error: EraseError::Cancelled { password_left_set: true } }, Command::Stop)
            } else {
                (Phase::AwaitStandard, Command::StandardErase)
            },
            Phase::AwaitStandard => if ok {
                (Phase::Succeeded, Command::Stop)
            } else {
                (
                    Phase::Failed {
                        error: EraseError::ChainStepFailed { step: ChainStep::StandardErase },
                    },
                    Command::Stop,
                )
            },
            Phase::AwaitFormat => if ok {
                (Phase::Succeeded, Command::Stop)
            } else {
                (
                    Phase::Failed {
                        error: EraseError::ChainStepFailed { step: ChainStep::SecureFormat },
                    },
                    Command::Stop,
                )
            },
            Phase::Succeeded => (Phase::Succeeded, Command::Stop),
            Phase::Failed { error } => (Phase::Failed { error }, Command::Stop),
        };
        self.phase = phase;
        command
    }

    /// The lifecycle status of the erasure.
    pub fn status(&self) -> (r: Status)
        ensures
            r == status_of(self.phase),
    {
        match self.phase {
            Phase::Ready => Status::Pending,
            Phase::Succeeded => Status::Succeeded,
            Phase::Failed { error } => Status::Failed { error },
            _ => Status::InProgress,
        }
    }

    /// The result of a finished erasure; for one that has not finished, the
    /// cancellation error, since it did not run to its end, telling whether
    /// a security password was left set.
    pub fn outcome(&self) -> (r: Result<(), EraseError>)
        ensures
            self.phase == Phase::Succeeded ==> r == Ok::<(), EraseError>(()),
            self.phase is Failed ==> r == Err::<(), EraseError>(self.phase->error),
            !is_terminal(self.phase) ==> r == Err::<(), EraseError>(
                EraseError::Cancelled { password_left_set: password_set(self.phase) },
            ),
    {
        match self.phase {
            Phase::Succeeded => Ok(()),
            Phase::Failed { error } => Err(error),
            Phase::AwaitEnhanced | Phase::AwaitStandard => Err(
                EraseError::Cancelled { password_left_set: true },
            ),
            _ => Err(EraseError::Cancelled { password_left_set: false }),
        }
    }
}

/// The commands issued when the events of `evs` are fed in turn to an
/// erasure by method `m` that stands at phase `ph`; each event comes with
/// whether cancellation was requested.
pub open spec fn commands(m: Method, ph: Phase, evs: Seq<(Event, bool)>) -> Seq<Command>
    decreases evs.len(),
{
    if evs.len() == 0 {
        Seq::empty()
    } else {
        let (next, c) = step(m, ph, evs[0].0, evs[0].1);
        seq![c] + commands(m, next, evs.drop_first())
    }
}

/// The patterns of the overwrites among `cs`, in order.
pub open spec fn overwrites(cs: Seq<Command>) -> Seq<Pattern>
    decreases cs.len(),
{
    if cs.len() == 0 {
        Seq::empty()
    } else {
        match cs[0] {
            Command::Overwrite { pattern, .. } => seq![pattern] + overwrites(cs.drop_first()),
            _ => overwrites(cs.drop_first()),
        }
    }
}

/// The overwrite passes of rotational media, in order.
pub open spec fn pass_sequence() -> Seq<Pattern> {
    seq![Pattern::Random, Pattern::Zero, Pattern::Random]
}

pub open spec fn is_prefix(a: Seq<Pattern>, b: Seq<Pattern>) -> bool {
    a.len() <= b.len() && forall|i: int| 0 <= i < a.len() ==> a[i] == b[i]
}

/// The number of overwrites issued before an erasure by overwriting reaches
/// phase `ph`, or the whole number of passes where it has ended.
pub open spec fn passes_issued(ph: Phase) -> int {
    match ph {
        Phase::AwaitCapacity { pass } => pass as int,
        Phase::AwaitWrite { pass } => pass + 1,
        Phase::Ready => 0,
        _ => OVERWRITE_PASSES as int,
    }
}

/// An erasure that has ended issues nothing but `Stop`, whatever happens
/// after: its result is set once and never changes.
pub proof fn lemma_finished_stays(m: Method, ph: Phase, evs: Seq<(Event, bool)>)
    requires
        is_terminal(ph),
    ensures
        commands(m, ph, evs).len() == evs.len(),
        forall|i: int| 0 <= i < evs.len() ==> #[trigger] commands(m, ph, evs)[i] == Command::Stop,
    decreases evs.len(),
{
    if evs.len() > 0 {
        lemma_finished_stays(m, ph, evs.drop_first());
        assert forall|i: int| 0 <= i < evs.len() implies #[trigger] commands(m, ph, evs)[i]
            == Command::Stop by {
            if i > 0 {
                assert(commands(m, ph, evs)[i] == commands(m, ph, evs.drop_first())[i - 1]);
            }
        }
    }
}

/// A device of unknown media type is never erased: the dispatcher gives it
/// a failed erasure, which issues no destructive command whatever it is fed.
pub proof fn lemma_unknown_media_untouched(d: DiskView, evs: Seq<(Event, bool)>)
    requires
        d.media == MediaType::Unknown,
    ensures
        status_of(dispatched(d).phase) == (Status::Failed { error: EraseError::UnknownMediaType }),
        forall|i: int|
            0 <= i < evs.len() ==> !is_destructive(
                #[trigger] commands(dispatched(d).method, dispatched(d).phase, evs)[i],
            ),
{
    lemma_finished_stays(dispatched(d).method, dispatched(d).phase, evs);
}

proof fn lemma_overwrites_follow(ph: Phase, evs: Seq<(Event, bool)>)
    requires
        reachable(Method::Overwrite, ph),
    ensures
        is_prefix(
            overwrites(commands(Method::Overwrite, ph, evs)),
            pass_sequence().skip(passes_issued(ph)),
        ),
    decreases evs.len(),
{
    let m = Method::Overwrite;
    if evs.len() > 0 {
        let (next, c) = step(m, ph, evs[0].0, evs[0].1);
        let rest = commands(m, next, evs.drop_first());
        lemma_overwrites_follow(next, evs.drop_first());
        let cs = commands(m, ph, evs);
        assert(cs.drop_first() =~= rest);
        assert(cs[0] == c);
        if is_terminal(next) {
            assert(pass_sequence().skip(passes_issued(next)).len() == 0);
        }
        if let Command::Overwrite { pattern, .. } = c {
            let k = passes_issued(ph);
            assert(pattern == pass_sequence()[k]);
            assert(pass_sequence().skip(k) =~= seq![pass_sequence()[k]] + pass_sequence().skip(
                k + 1,
            ));
        }
    }
}

/// The overwrite passes of rotational media come in the order random, zero,
/// random, and there are no more than three of them.
pub proof fn lemma_overwrite_order(evs: Seq<(Event, bool)>)
    ensures
        is_prefix(overwrites(commands(Method::Overwrite, Phase::Ready, evs)), pass_sequence()),
{
    lemma_overwrites_follow(Phase::Ready, evs);
    assert(pass_sequence().skip(0) =~= pass_sequence());
}

/// A failed overwrite pass ends the erasure with that pass's error: no
/// later pass is ever started.
pub proof fn lemma_failed_pass_ends(pass: u8, evs: Seq<(Event, bool)>)
    requires
        pass < OVERWRITE_PASSES,
        evs.len() > 0,
        !completed_ok(evs[0].0),
    ensures
        step(Method::Overwrite, Phase::AwaitWrite { pass }, evs[0].0, evs[0].1).0 == (Phase::Failed {
            error: EraseError::PassFailed { pass },
        }),
        forall|i: int|
            0 <= i < evs.len() ==> #[trigger] commands(
                Method::Overwrite,
                Phase::AwaitWrite { pass },
                evs,
            )[i] == Command::Stop,
{
    let m = Method::Overwrite;
    let next = Phase::Failed { error: EraseError::PassFailed { pass } };
    lemma_finished_stays(m, next, evs.drop_first());
    let cs = commands(m, Phase::AwaitWrite { pass }, evs);
    assert forall|i: int| 0 <= i < evs.len() implies #[trigger] cs[i] == Command::Stop by {
        if i > 0 {
            assert(cs[i] == commands(m, next, evs.drop_first())[i - 1]);
        }
    }
}

/// Where the security password cannot be set, the erasure fails at that
/// step and neither erase command is ever issued.
pub proof fn lemma_password_failure_ends(evs: Seq<(Event, bool)>)
    requires
        evs.len() > 0,
        !completed_ok(evs[0].0),
    ensures
        step(Method::AtaSecureErase, Phase::AwaitPassword, evs[0].0, evs[0].1).0 == (Phase::Failed {
            error: EraseError::ChainStepFailed { step: ChainStep::SetPassword },
        }),
        forall|i: int|
            0 <= i < evs.len() ==> #[trigger] commands(
                Method::AtaSecureErase,
                Phase::AwaitPassword,
                evs,
            )[i] == Command::Stop,
{
    let m = Method::AtaSecureErase;
    let next = Phase::Failed { error: EraseError::ChainStepFailed { step: ChainStep::SetPassword } };
    lemma_finished_stays(m, next, evs.drop_first());
    let cs = commands(m, Phase::AwaitPassword, evs);
    assert forall|i: int| 0 <= i < evs.len() implies #[trigger] cs[i] == Command::Stop by {
        if i > 0 {
            assert(cs[i] == commands(m, next, evs.drop_first())[i - 1]);
        }
    }
}

/// Where the enhanced erase succeeds, the erasure has succeeded and the
/// standard erase is never issued.
pub proof fn lemma_enhanced_success_ends(evs: Seq<(Event, bool)>)
    requires
        evs.len() > 0,
        completed_ok(evs[0].0),
    ensures
        step(Method::AtaSecureErase, Phase::AwaitEnhanced, evs[0].0, evs[0].1).0
            == Phase::Succeeded,
        forall|i: int|
            0 <= i < evs.len() ==> #[trigger] commands(
                Method::AtaSecureErase,
                Phase::AwaitEnhanced,
                evs,
            )[i] == Command::Stop,
{
    let m = Method::AtaSecureErase;
    lemma_finished_stays(m, Phase::Succeeded, evs.drop_first());
    let cs = commands(m, Phase::AwaitEnhanced, evs);
    assert forall|i: int| 0 <= i < evs.len() implies #[trigger] cs[i] == Command::Stop by {
        if i > 0 {
            assert(cs[i] == commands(m, Phase::Succeeded, evs.drop_first())[i - 1]);
        }
    }
}

/// Once cancellation is requested, no destructive command is issued; a
/// command already under way is left to finish on its own terms.
pub proof fn lemma_cancel_stops_destruction(m: Method, ph: Phase, ev: Event)
    ensures
        !is_destructive(step(m, ph, ev, true).1),
{
}

/// A cancellation that ends an ATA erasure after its password was set, and
/// before any erase succeeded, says so in its error; a cancellation before
/// the password step says the opposite.
pub proof fn lemma_cancel_reports_password(ph: Phase, ev: Event)
    requires
        reachable(Method::AtaSecureErase, ph),
        !is_terminal(ph),
        step(Method::AtaSecureErase, ph, ev, true).0 is Failed,
        step(Method::AtaSecureErase, ph, ev, true).0->error is Cancelled,
    ensures
        step(Method::AtaSecureErase, ph, ev, true).0->error == (EraseError::Cancelled {
            password_left_set: ph is AwaitPassword || ph is AwaitEnhanced,
        }),
{
}

/// An overwrite covers the whole device, its last partial block included.
pub proof fn lemma_overwrite_covers(pattern: Pattern, bytes: u64)
    ensures
        overwrite(pattern, bytes) matches Command::Overwrite { block_size, block_count, tail_bytes, .. }
            && block_count * block_size + tail_bytes == bytes && tail_bytes < block_size,
{
    assert((bytes / BLOCK_SIZE) * BLOCK_SIZE + bytes % BLOCK_SIZE == bytes) by (nonlinear_arith);
}

} // verus!
