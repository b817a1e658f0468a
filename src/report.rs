//! The orchestration around the erasures: resolving each requested path to
//! its device and folding the per-device results into one report.

use vstd::prelude::*;
use crate::classify::{disk_views, distinct_paths};
use crate::disk::{DiskInfo, DiskView, MediaType, Origin};
use crate::erase::{
    EraseError, EraseTask, Event, Status, commands, dispatched, is_destructive, lemma_finished_stays,
    status_of,
};

verus! {

/// The first detected descriptor with the given path. Stand-in descriptors
/// are passed over, so that made-up hardware never reaches an erasure.
pub open spec fn lookup(disks: Seq<DiskView>, path: Seq<char>) -> Option<DiskView>
    decreases disks.len(),
{
    if disks.len() == 0 {
        None
    } else if disks[0].path == path && disks[0].origin == Origin::Detected {
        Some(disks[0])
    } else {
        lookup(disks.drop_first(), path)
    }
}

/// The erasure planned for a requested path: the dispatched erasure of its
/// device, or `DeviceNotFound` where no descriptor has that path.
pub open spec fn planned(disks: Seq<DiskView>, path: Seq<char>) -> Result<EraseTask, EraseError> {
    match lookup(disks, path) {
        Some(d) => Ok(dispatched(d)),
        None => Err(EraseError::DeviceNotFound),
    }
}

pub open spec fn string_views(v: Seq<String>) -> Seq<Seq<char>> {
    v.map_values(|s: String| s@)
}

fn find_disk(disks: &Vec<DiskInfo>, path: &String) -> (r: Option<usize>)
    ensures
        match lookup(disk_views(disks@), path@) {
            Some(d) => r is Some && r->0 < disks@.len() && disks@[r->0 as int]@ == d,
            None => r is None,
        },
{
    let ghost dv = disk_views(disks@);
    let mut j: usize = 0;
    assert(dv.subrange(0, dv.len() as int) =~= dv);
    while j < disks.len()
        invariant
            j <= disks@.len(),
            dv == disk_views(disks@),
            lookup(dv, path@) == lookup(dv.subrange(j as int, dv.len() as int), path@),
        decreases disks.len() - j,
    {
        let ghost rest = dv.subrange(j as int, dv.len() as int);
        assert(rest[0] == disks@[j as int]@);
        assert(rest.drop_first() =~= dv.subrange(j + 1, dv.len() as int));
        if disks[j].device_name == *path && disks[j].origin == Origin::Detected {
            return Some(j);
        }
        j = j + 1;
    }
    None
}

/// Plans the erasure of each requested path against the descriptors of the
/// current detection pass. Each plan depends on its own path alone: a path
/// with no descriptor fails by itself, and leaves the others untouched.
pub fn plan_erasure(targets: &Vec<String>, disks: &Vec<DiskInfo>) -> (r: Vec<
    Result<EraseTask, EraseError>,
>)
    ensures
        r@.len() == targets@.len(),
        forall|i: int|
            0 <= i < targets@.len() ==> #[trigger] r@[i] == planned(
                disk_views(disks@),
                targets@[i]@,
            ),
{
    let mut out: Vec<Result<EraseTask, EraseError>> = Vec::new();
    let mut i: usize = 0;
    while i < targets.len()
        invariant
            i <= targets@.len(),
            out@.len() == i,
            forall|k: int|
                0 <= k < i ==> #[trigger] out@[k] == planned(disk_views(disks@), targets@[k]@),
        decreases targets.len() - i,
    {
        let plan = match find_disk(disks, &targets[i]) {
            Some(j) => Ok(EraseTask::for_disk(&disks[j])),
            None => Err(EraseError::DeviceNotFound),
        };
        out.push(plan);
        i = i + 1;
    }
    out
}

/// The result of erasing one requested device.
#[derive(Debug)]
pub struct DeviceOutcome {
    pub path: String,
    pub result: Result<(), EraseError>,
}

impl View for DeviceOutcome {
    type V = (Seq<char>, Result<(), EraseError>);

    open spec fn view(&self) -> (Seq<char>, Result<(), EraseError>) {
        (self.path@, self.result)
    }
}

pub open spec fn outcome_views(v: Seq<DeviceOutcome>) -> Seq<(Seq<char>, Result<(), EraseError>)> {
    v.map_values(|o: DeviceOutcome| o@)
}

/// The entries of a report: each requested path with its own result, in
/// the order of the request.
pub open spec fn report_entries(
    targets: Seq<Seq<char>>,
    results: Seq<Result<(), EraseError>>,
) -> Seq<(Seq<char>, Result<(), EraseError>)> {
    Seq::new(targets.len(), |i: int| (targets[i], results[i]))
}

pub open spec fn is_failure() -> spec_fn((Seq<char>, Result<(), EraseError>)) -> bool {
    |e: (Seq<char>, Result<(), EraseError>)| e.1 is Err
}

/// The outcome of an erasure run over several devices.
#[derive(Debug)]
pub struct Report {
    pub entries: Vec<DeviceOutcome>,
}

/// Folds the results of the erasures, one for each requested path and in
/// the same order, into a report.
pub fn build_report(targets: &Vec<String>, results: &Vec<Result<(), EraseError>>) -> (r: Report)
    requires
        targets@.len() == results@.len(),
    ensures
        outcome_views(r.entries@) == report_entries(string_views(targets@), results@),
{
    let mut entries: Vec<DeviceOutcome> = Vec::new();
    let mut i: usize = 0;
    while i < targets.len()
        invariant
            i <= targets@.len() == results@.len(),
            outcome_views(entries@) == report_entries(string_views(targets@), results@).take(
                i as int,
            ),
        decreases targets.len() - i,
    {
        let ghost before = entries@;
        let path = targets[i].clone();
        assert(string_views(targets@)[i as int] == path@);
        let ghost e = (path@, results@[i as int]);
        entries.push(DeviceOutcome { path, result: results[i] });
        assert(outcome_views(entries@) =~= outcome_views(before).push(e));
        assert(outcome_views(entries@) =~= report_entries(string_views(targets@), results@).take(
            i + 1,
        ));
        i = i + 1;
    }
    assert(outcome_views(entries@) =~= report_entries(string_views(targets@), results@));
    Report { entries }
}

impl Report {
    /// Whether every requested device was erased.
    pub fn is_success(&self) -> (r: bool)
        ensures
            r == forall|i: int| 0 <= i < self.entries@.len() ==> (#[trigger] self.entries@[i]).result is Ok,
    {
        let mut i: usize = 0;
        while i < self.entries.len()
            invariant
                i <= self.entries@.len(),
                forall|k: int| 0 <= k < i ==> (#[trigger] self.entries@[k]).result is Ok,
            decreases self.entries.len() - i,
        {
            if self.entries[i].result.is_err() {
                return false;
            }
            i = i + 1;
        }
        true
    }

    /// The devices whose erasure failed, each with its error, in report
    /// order.
    pub fn failures(&self) -> (r: Vec<DeviceOutcome>)
        ensures
            outcome_views(r@) == outcome_views(self.entries@).filter(is_failure()),
    {
        let ghost all = outcome_views(self.entries@);
        let mut out: Vec<DeviceOutcome> = Vec::new();
        let mut i: usize = 0;
        while i < self.entries.len()
            invariant
                i <= self.entries@.len(),
                all == outcome_views(self.entries@),
                outcome_views(out@) == all.take(i as int).filter(is_failure()),
            decreases self.entries.len() - i,
        {
            assert(all.take(i + 1).drop_last() =~= all.take(i as int));
            assert(all.take(i + 1).last() == self.entries@[i as int]@);
            reveal(Seq::filter);
            let e = &self.entries[i];
            if e.result.is_err() {
                let ghost before = out@;
                out.push(DeviceOutcome { path: e.path.clone(), result: e.result });
                assert(outcome_views(out@) =~= outcome_views(before).push(e@));
            }
            i = i + 1;
        }
        assert(all.take(all.len() as int) =~= all);
        out
    }
}

/// Erasures are isolated: a report has one entry for each requested device,
/// and a change in one device's result leaves every other entry as it was.
pub proof fn lemma_failure_isolated(
    targets: Seq<Seq<char>>,
    results: Seq<Result<(), EraseError>>,
    changed: Seq<Result<(), EraseError>>,
    i: int,
)
    requires
        results.len() == targets.len(),
        changed.len() == targets.len(),
        0 <= i < targets.len(),
        forall|j: int| 0 <= j < targets.len() && j != i ==> changed[j] == results[j],
    ensures
        report_entries(targets, results).len() == targets.len(),
        report_entries(targets, changed).len() == targets.len(),
        report_entries(targets, changed)[i] == (targets[i], changed[i]),
        forall|j: int|
            0 <= j < targets.len() && j != i ==> #[trigger] report_entries(targets, changed)[j]
                == report_entries(targets, results)[j],
{
}

/// Among descriptors with distinct paths, a requested path resolves to the
/// one detected descriptor that has it.
pub proof fn lemma_lookup_finds(disks: Seq<DiskView>, j: int)
    requires
        distinct_paths(disks),
        0 <= j < disks.len(),
        disks[j].origin == Origin::Detected,
    ensures
        lookup(disks, disks[j].path) == Some(disks[j]),
    decreases disks.len(),
{
    if j > 0 {
        let rest = disks.drop_first();
        assert(rest[j - 1] == disks[j]);
        assert(distinct_paths(rest)) by {
            assert forall|a: int, b: int| 0 <= a < b < rest.len() implies rest[a].path
                != rest[b].path by {
                assert(rest[a] == disks[a + 1] && rest[b] == disks[b + 1]);
            }
        }
        assert(disks[0].path != disks[j].path);
        lemma_lookup_finds(rest, j - 1);
    }
}

/// A requested device of unknown media type is refused: its plan is an
/// erasure that has already failed for that reason, and it issues no
/// destructive command whatever it is fed.
pub proof fn lemma_unknown_media_refused(
    disks: Seq<DiskView>,
    path: Seq<char>,
    evs: Seq<(Event, bool)>,
)
    requires
        lookup(disks, path) matches Some(d) && d.media == MediaType::Unknown,
    ensures
        planned(disks, path) is Ok,
        status_of(planned(disks, path)->Ok_0.phase) == (Status::Failed {
            error: EraseError::UnknownMediaType,
        }),
        forall|i: int|
            0 <= i < evs.len() ==> !is_destructive(
                #[trigger] commands(
                    planned(disks, path)->Ok_0.method,
                    planned(disks, path)->Ok_0.phase,
                    evs,
                )[i],
            ),
{
    let t = planned(disks, path)->Ok_0;
    lemma_finished_stays(t.method, t.phase, evs);
}

} // verus!
