use vstd::prelude::*;
use vstd::string::*;

use crate::error::VmError;
use crate::store::{has_vm, RecordStore, VmStatus};
use crate::text::{decimal, decimal_text};

verus! {

/// What the single liveness check after the grace interval saw of a freshly spawned
/// hypervisor.
pub enum LaunchProbe {
    /// Still running.
    Alive { pid: u32, log_path: String },
    /// Already gone, with its exit code (if it had one), what it wrote to its log, and
    /// where that log is.
    Exited { exit_code: Option<i32>, log: String, log_path: String },
    /// Its state could not be read; it is taken to be running, with a note.
    Unchecked { pid: u32, note: String },
}

/// The state a VM is left in once its launch was probed.
pub open spec fn status_after_launch(probe: LaunchProbe) -> VmStatus {
    match probe {
        LaunchProbe::Exited { .. } => VmStatus::Stopped,
        _ => VmStatus::Running,
    }
}

/// The state that a launch with this probe leaves the VM in.
pub fn status_after_launch_of(probe: &LaunchProbe) -> (r: VmStatus)
    ensures
        r == status_after_launch(*probe),
{
    match probe {
        LaunchProbe::Exited { .. } => VmStatus::Stopped,
        _ => VmStatus::Running,
    }
}

/// The status recorded for `id`, if it has a record.
pub open spec fn status_of(store: RecordStore, id: Seq<char>) -> Option<VmStatus> {
    if has_vm(store.vms@, id) {
        Some(
            store.vms@[choose|i: int| 0 <= i < store.vms@.len() && (#[trigger] store.vms@[i]).smac@ == id].status,
        )
    } else {
        None
    }
}

/// A start may go ahead: the VM exists and is not running.
pub fn check_startable(store: &RecordStore, id: &str) -> (r: Result<(), VmError>)
    requires
        store.wf(),
    ensures
        match status_of(*store, id@) {
            None => r matches Err(VmError::NotFound),
            Some(VmStatus::Running) => r matches Err(VmError::Conflict),
            Some(VmStatus::Stopped) => r is Ok,
        },
{
    match store.find_vm(id) {
        None => Err(VmError::NotFound),
        Some(k) => {
            let ghost c = choose|i: int| 0 <= i < store.vms@.len() && (#[trigger] store.vms@[i]).smac@ == id@;
            assert(c == k as int) by {
                if c != k as int {
                    if c < k as int {
                        assert(store.vms@[c].smac@ != store.vms@[k as int].smac@);
                    } else {
                        assert(store.vms@[k as int].smac@ != store.vms@[c].smac@);
                    }
                }
            }
            match store.vms[k].status {
                VmStatus::Running => Err(VmError::Conflict),
                VmStatus::Stopped => Ok(()),
            }
        },
    }
}

pub open spec fn started_text(pid: u32, log: Seq<char>) -> Seq<char> {
    "QEMU started (PID "@ + decimal_text(pid as nat) + ")\n"@ + "QEMU log: "@ + log + "\n"@
}

/// What settling a launch of `id` with `probe` leaves: the same records with the state of
/// `id` set from the probe, and the result that the probe calls for.
pub open spec fn launch_settled(
    before: RecordStore,
    after: RecordStore,
    id: Seq<char>,
    probe: LaunchProbe,
    r: Result<String, VmError>,
) -> bool {
    &&& after.wf()
    &&& after.disks@ == before.disks@
    &&& after.vms@.len() == before.vms@.len()
    &&& forall|j: int|
            0 <= j < before.vms@.len() ==> {
                &&& (#[trigger] after.vms@[j]).smac == before.vms@[j].smac
                &&& after.vms@[j].config == before.vms@[j].config
                &&& after.vms@[j].status == if before.vms@[j].smac@ == id {
                    status_after_launch(probe)
                } else {
                    before.vms@[j].status
                }
            }
    &&& match probe {
            LaunchProbe::Exited { exit_code, log, log_path } => r matches Err(
                VmError::ProcessCrashed { exit_code: c, log_tail: t, log_path: p },
            ) && c == exit_code && t == log && p == log_path,
            LaunchProbe::Alive { pid, log_path } => r matches Ok(s) && s@ == started_text(
                pid,
                log_path@,
            ),
            LaunchProbe::Unchecked { pid, note } => r matches Ok(s) && s@ == started_text(
                pid,
                note@,
            ),
        }
}

/// Settles a launch of `id` from the liveness probe: a hypervisor that already exited is a
/// crash, reported with its exit code, its log and the log's path, and leaves the VM stopped; one that survived
/// (or could not be checked) leaves it running. No other record changes.
pub fn finish_start(store: &mut RecordStore, id: &str, probe: LaunchProbe) -> (r: Result<
    String,
    VmError,
>)
    requires
        old(store).wf(),
        has_vm(old(store).vms@, id@),
    ensures
        launch_settled(*old(store), *final(store), id@, probe, r),
{
    let status = match &probe {
        LaunchProbe::Exited { .. } => VmStatus::Stopped,
        _ => VmStatus::Running,
    };
    let _ = store.set_vm_status(id, status);
    match probe {
        LaunchProbe::Exited { exit_code, log, log_path } => Err(
            VmError::ProcessCrashed { exit_code, log_tail: log, log_path },
        ),
        LaunchProbe::Alive { pid, log_path } => Ok(started_text_of(pid, log_path.as_str())),
        LaunchProbe::Unchecked { pid, note } => Ok(started_text_of(pid, note.as_str())),
    }
}

fn started_text_of(pid: u32, log: &str) -> (r: String)
    ensures
        r@ == started_text(pid, log@),
{
    let mut s = String::from_str("QEMU started (PID ");
    s.append(decimal(pid as u64).as_str());
    s.append(")\n");
    s.append("QEMU log: ");
    s.append(log);
    s.append("\n");
    s
}

/// Records that a stop or a power-down left the VM stopped. (A reset changes no state.)
pub fn finish_stop(store: &mut RecordStore, id: &str) -> (r: Result<(), VmError>)
    requires
        old(store).wf(),
    ensures
        final(store).wf(),
        final(store).disks@ == old(store).disks@,
        !has_vm(old(store).vms@, id@) ==> (r matches Err(VmError::NotFound)) && *final(store) == *old(
            store,
        ),
        final(store).vms@.len() == old(store).vms@.len(),
        has_vm(old(store).vms@, id@) ==> r is Ok && forall|j: int|
            0 <= j < old(store).vms@.len() ==> {
                &&& (#[trigger] final(store).vms@[j]).smac == old(store).vms@[j].smac
                &&& final(store).vms@[j].config == old(store).vms@[j].config
                &&& final(store).vms@[j].status == if old(store).vms@[j].smac@ == id@ {
                    VmStatus::Stopped
                } else {
                    old(store).vms@[j].status
                }
            },
        has_vm(old(store).vms@, id@) ==> status_of(*final(store), id@) == Some(VmStatus::Stopped),
{
    let r = store.set_vm_status(id, VmStatus::Stopped);
    proof {
        if has_vm(old(store).vms@, id@) {
            lemma_status_after_update(*old(store), *store, id@, VmStatus::Stopped);
        }
    }
    r
}

/// When a store keeps its records (count, identifiers) and the record of `id` now holds
/// `st`, the status read for `id` is `st`.
pub proof fn lemma_status_after_update(before: RecordStore, after: RecordStore, id: Seq<char>, st: VmStatus)
    requires
        before.wf(),
        after.wf(),
        has_vm(before.vms@, id),
        after.vms@.len() == before.vms@.len(),
        forall|j: int|
            0 <= j < before.vms@.len() ==> (#[trigger] after.vms@[j]).smac == before.vms@[j].smac,
        forall|j: int|
            0 <= j < after.vms@.len() && (#[trigger] after.vms@[j]).smac@ == id ==> after.vms@[j].status
                == st,
    ensures
        status_of(after, id) == Some(st),
{
    let k = choose|i: int| 0 <= i < before.vms@.len() && (#[trigger] before.vms@[i]).smac@ == id;
    assert(after.vms@[k].smac@ == id);
    assert(has_vm(after.vms@, id));
}

/// A launch settles the VM's recorded state: stopped, with a crash reported, when the
/// hypervisor exited within the grace window; running when it survived (or could not be
/// checked).
pub proof fn lemma_launch_settles_status(
    before: RecordStore,
    after: RecordStore,
    id: Seq<char>,
    probe: LaunchProbe,
    r: Result<String, VmError>,
)
    requires
        before.wf(),
        has_vm(before.vms@, id),
        launch_settled(before, after, id, probe, r),
    ensures
        status_of(after, id) == Some(status_after_launch(probe)),
        probe is Exited ==> r matches Err(VmError::ProcessCrashed { .. }),
        !(probe is Exited) ==> r is Ok,
{
    lemma_status_after_update(before, after, id, status_after_launch(probe));
}

} // verus!
