//! Reporting and deletion policy over a finished detection run, and the
//! whole run as one linear pipeline.
//!
//! After both passes the run reports: a summary line giving the duplicate
//! count and a "files scanned" figure defined as duplicate count plus master
//! index size (an approximation of distinct identifiers seen, kept for
//! compatibility — it does not count input files that matched nothing);
//! optionally one output line per duplicate path; optionally the deletion of
//! every duplicate path. The caller performs the printing, writing and
//! deleting; this module fixes exactly what is counted, written and deleted.

use vstd::prelude::*;

use crate::scan::Detection;
use crate::scan::DuplicateSet;
use crate::scan::MasterIndex;
use crate::scan::ScanEntry;
use crate::scan::announced_paths;
use crate::scan::build_master_index;
use crate::scan::dup_paths;
use crate::scan::lemma_dup_paths_bounds;
use crate::scan::lemma_master_ids_bounds;
use crate::scan::master_ids;
use crate::scan::run_detection;

verus! {

/// Everything the reporting stage decides: the two summary figures, the
/// paths to delete, and the lines to write to the output file. The caller
/// carries the plan out; an empty list means the flag was off.
pub struct ReportPlan {
    pub dup_count: usize,
    pub files_scanned: usize,
    pub to_delete: Vec<String>,
    pub output_lines: Vec<String>,
}

/// What a correct report plan says, given the duplicate records `dups`, the
/// master identifiers `master` and the two flags:
/// - the summary figures are the duplicate count and that count plus the
///   master index size;
/// - nothing outside `dups` is ever deleted or written, whatever the flags;
/// - with a flag on, the respective list holds each duplicate path exactly
///   once; with it off, the list is empty.
pub open spec fn plan_obeys(
    p: ReportPlan,
    dups: Set<Seq<char>>,
    master: Set<Seq<char>>,
    delete: bool,
    write_output: bool,
) -> bool {
    &&& p.dup_count == dups.len()
    &&& p.files_scanned == dups.len() + master.len()
    &&& forall|j: int|
        0 <= j < p.to_delete.deep_view().len() ==> dups.contains(
            #[trigger] p.to_delete.deep_view()[j],
        )
    &&& forall|j: int|
        0 <= j < p.output_lines.deep_view().len() ==> dups.contains(
            #[trigger] p.output_lines.deep_view()[j],
        )
    &&& (delete ==> p.to_delete.deep_view().to_set() == dups
        && p.to_delete.deep_view().no_duplicates())
    &&& (!delete ==> p.to_delete.deep_view().len() == 0)
    &&& (write_output ==> p.output_lines.deep_view().to_set() == dups
        && p.output_lines.deep_view().no_duplicates())
    &&& (!write_output ==> p.output_lines.deep_view().len() == 0)
}

/// The summary figures: the duplicate count, and "files scanned" defined as
/// duplicate count plus master index size.
pub fn summary_counts(dups: &DuplicateSet, master: &MasterIndex) -> (c: (usize, usize))
    requires
        dups.wf(),
        master.wf(),
        dups@.len() + master@.len() <= usize::MAX,
    ensures
        c.0 == dups@.len(),
        c.1 == dups@.len() + master@.len(),
{
    let d = dups.len();
    let m = master.len();
    (d, d + m)
}

/// The reporting stage's whole decision: the summary figures and, for each
/// flag that is on, the list of duplicate paths to act on.
pub fn plan_report(dups: &DuplicateSet, master: &MasterIndex, delete: bool, write_output: bool) -> (p:
    ReportPlan)
    requires
        dups.wf(),
        master.wf(),
        dups@.len() + master@.len() <= usize::MAX,
    ensures
        plan_obeys(p, dups@, master@, delete, write_output),
{
    let counts = summary_counts(dups, master);
    let to_delete: Vec<String> = if delete {
        dups.to_vec()
    } else {
        Vec::new()
    };
    let output_lines: Vec<String> = if write_output {
        dups.to_vec()
    } else {
        Vec::new()
    };
    proof {
        if delete {
            assert(forall|j: int|
                0 <= j < to_delete.deep_view().len() ==> dups@.contains(
                    #[trigger] to_delete.deep_view()[j],
                ));
        } else {
            assert(to_delete.deep_view() =~= Seq::<Seq<char>>::empty());
        }
        if write_output {
            assert(forall|j: int|
                0 <= j < output_lines.deep_view().len() ==> dups@.contains(
                    #[trigger] output_lines.deep_view()[j],
                ));
        } else {
            assert(output_lines.deep_view() =~= Seq::<Seq<char>>::empty());
        }
    }
    ReportPlan { dup_count: counts.0, files_scanned: counts.1, to_delete, output_lines }
}

/// Everything one run produces: the master index, the detection pass's
/// records and announcements, and the report plan.
pub struct RunOutcome {
    pub master: MasterIndex,
    pub detection: Detection,
    pub plan: ReportPlan,
}

/// One whole run, as the strict linear sequence build, then detect, then
/// plan the report — no branching back, no retries, and the master index
/// unchanged once detection starts. The caller walks the two trees
/// beforehand and carries the plan out afterwards. The length bound keeps
/// the summary's sum within the machine's reach; the listings themselves
/// satisfy it whenever both fit in memory together.
pub fn run_scan(
    matcher: &crate::extract::Matcher,
    master_entries: &Vec<ScanEntry>,
    input_entries: &Vec<ScanEntry>,
    quiet: bool,
    delete: bool,
    write_output: bool,
) -> (r: RunOutcome)
    requires
        master_entries@.len() + input_entries@.len() <= usize::MAX,
    ensures
        r.master.wf(),
        r.master@ == master_ids(master_entries@),
        r.detection.duplicates.wf(),
        r.detection.duplicates@ == dup_paths(input_entries@, master_ids(master_entries@)),
        quiet ==> r.detection.announcements@.len() == 0,
        !quiet ==> r.detection.announcements.deep_view() == announced_paths(
            input_entries@,
            master_ids(master_entries@),
        ),
        plan_obeys(
            r.plan,
            dup_paths(input_entries@, master_ids(master_entries@)),
            master_ids(master_entries@),
            delete,
            write_output,
        ),
{
    let master = build_master_index(matcher, master_entries);
    let detection = run_detection(matcher, &master, input_entries, quiet);
    proof {
        lemma_master_ids_bounds(master_entries@);
        lemma_dup_paths_bounds(input_entries@, master@);
    }
    let plan = plan_report(&detection.duplicates, &master, delete, write_output);
    RunOutcome { master, detection, plan }
}

} // verus!
