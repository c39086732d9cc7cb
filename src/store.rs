use vstd::prelude::*;
use vstd::string::*;

use crate::error::VmError;
use crate::text::{contains_text, holds_text, same_text};

verus! {

/// The persisted lifecycle state of a VM.
#[derive(Debug, Clone, Copy, PartialEq, Eq, Structural)]
pub enum VmStatus {
    Stopped,
    Running,
}

impl VmStatus {
    /// The word the record store keeps for this state.
    pub fn as_text(&self) -> (r: &'static str)
        ensures
            r@ == match *self {
                VmStatus::Stopped => "stopped"@,
                VmStatus::Running => "running"@,
            },
    {
        match self {
            VmStatus::Stopped => "stopped",
            VmStatus::Running => "running",
        }
    }
}

/// A stored VM: its identifier, its serialized configuration and its lifecycle state.
#[derive(Debug)]
pub struct VmRecord {
    pub smac: String,
    pub mac: String,
    pub disk_size: String,
    pub config: String,
    pub status: VmStatus,
    pub created_at: String,
}

/// A stored disk and the VM that owns it; an empty owner means the disk is free.
#[derive(Debug)]
pub struct DiskRecord {
    pub name: String,
    pub size: String,
    pub owner: String,
    pub created_at: String,
}

/// A snapshot of the record store: VMs and disks in the order they were created.
pub struct RecordStore {
    pub vms: Vec<VmRecord>,
    pub disks: Vec<DiskRecord>,
}

pub open spec fn has_vm(vms: Seq<VmRecord>, id: Seq<char>) -> bool {
    exists|i: int| 0 <= i < vms.len() && (#[trigger] vms[i]).smac@ == id
}

pub open spec fn owner_after_release(owner: Seq<char>, id: Seq<char>) -> Seq<char> {
    if owner == id {
        seq![]
    } else {
        owner
    }
}

/// `after` is `before` with the disks of `id` released: same disks in the same order, only
/// owners equal to `id` are cleared.
pub open spec fn disks_released(before: Seq<DiskRecord>, after: Seq<DiskRecord>, id: Seq<char>) -> bool {
    &&& after.len() == before.len()
    &&& forall|j: int|
        0 <= j < before.len() ==> {
            &&& (#[trigger] after[j]).name == before[j].name
            &&& after[j].size == before[j].size
            &&& after[j].created_at == before[j].created_at
            &&& after[j].owner@ == owner_after_release(before[j].owner@, id)
        }
}

/// Some disk named in `names` belongs to a VM other than `id`.
pub open spec fn disk_taken_by_other(disks: Seq<DiskRecord>, id: Seq<char>, names: Seq<String>) -> bool {
    exists|j: int|
        0 <= j < disks.len() && holds_text(names, (#[trigger] disks[j]).name@) && disks[j].owner@.len()
            > 0 && disks[j].owner@ != id
}

/// The owner of disk `d` once `id` claims exactly the disks named in `names`.
pub open spec fn owner_after_claim(d: DiskRecord, id: Seq<char>, names: Seq<String>) -> Seq<char> {
    if holds_text(names, d.name@) {
        id
    } else if d.owner@ == id {
        seq![]
    } else {
        d.owner@
    }
}

/// `after` is `before` with `id` owning exactly the disks named in `names`: same disks in
/// the same order, the named ones given to `id`, the others of `id` released.
pub open spec fn disks_claimed(
    before: Seq<DiskRecord>,
    after: Seq<DiskRecord>,
    id: Seq<char>,
    names: Seq<String>,
) -> bool {
    &&& after.len() == before.len()
    &&& forall|j: int|
        0 <= j < before.len() ==> {
            &&& (#[trigger] after[j]).name == before[j].name
            &&& after[j].size == before[j].size
            &&& after[j].created_at == before[j].created_at
            &&& after[j].owner@ == owner_after_claim(before[j], id, names)
        }
}

/// What a successful delete of `id` leaves: its record gone, the others kept in order, and
/// its disks released.
pub open spec fn deleted(before: RecordStore, after: RecordStore, id: Seq<char>) -> bool {
    &&& exists|k: int|
        0 <= k < before.vms@.len() && (#[trigger] before.vms@[k]).smac@ == id && after.vms@
            == before.vms@.remove(k)
    &&& disks_released(before.disks@, after.disks@, id)
}

impl RecordStore {
    /// VM identifiers and disk names are unique.
    pub open spec fn wf(&self) -> bool {
        &&& forall|i: int, j: int|
            0 <= i < j < self.vms@.len() ==> (#[trigger] self.vms@[i]).smac@ != (
            #[trigger] self.vms@[j]).smac@
        &&& forall|i: int, j: int|
            0 <= i < j < self.disks@.len() ==> (#[trigger] self.disks@[i]).name@ != (
            #[trigger] self.disks@[j]).name@
    }

    pub fn new() -> (r: RecordStore)
        ensures
            r.wf(),
            r.vms@.len() == 0,
            r.disks@.len() == 0,
    {
        RecordStore { vms: Vec::new(), disks: Vec::new() }
    }

    /// The position of the VM called `id`.
    pub fn find_vm(&self, id: &str) -> (r: Option<usize>)
        ensures
            match r {
                Some(k) => k < self.vms@.len() && self.vms@[k as int].smac@ == id@,
                None => !has_vm(self.vms@, id@),
            },
    {
        let mut i: usize = 0;
        while i < self.vms.len()
            invariant
                i <= self.vms@.len(),
                forall|j: int| 0 <= j < i ==> (#[trigger] self.vms@[j]).smac@ != id@,
            decreases self.vms@.len() - i,
        {
            if same_text(self.vms[i].smac.as_str(), id) {
                return Some(i);
            }
            i += 1;
        }
        None
    }

    /// Adds a VM record; an identifier already present is a conflict and changes nothing.
    pub fn insert_vm(&mut self, rec: VmRecord) -> (r: Result<(), VmError>)
        requires
            old(self).wf(),
        ensures
            final(self).wf(),
            has_vm(old(self).vms@, rec.smac@) ==> (r matches Err(VmError::Conflict)) && *final(self)
                == *old(self),
            !has_vm(old(self).vms@, rec.smac@) ==> r is Ok && final(self).vms@ == old(self).vms@.push(
                rec,
            ) && final(self).disks@ == old(self).disks@,
    {
        match self.find_vm(rec.smac.as_str()) {
            Some(_) => Err(VmError::Conflict),
            None => {
                self.vms.push(rec);
                assert(forall|j: int| 0 <= j < old(self).vms@.len() ==> self.vms@[j] == old(self).vms@[j]);
                Ok(())
            },
        }
    }

    /// Records the lifecycle state of the VM called `id`.
    pub fn set_vm_status(&mut self, id: &str, status: VmStatus) -> (r: Result<(), VmError>)
        requires
            old(self).wf(),
        ensures
            final(self).wf(),
            final(self).disks@ == old(self).disks@,
            final(self).vms@.len() == old(self).vms@.len(),
            !has_vm(old(self).vms@, id@) ==> (r matches Err(VmError::NotFound)) && *final(self) == *old(
                self,
            ),
            has_vm(old(self).vms@, id@) ==> r is Ok && forall|j: int|
                0 <= j < old(self).vms@.len() ==> {
                    &&& (#[trigger] final(self).vms@[j]).smac == old(self).vms@[j].smac
                    &&& final(self).vms@[j].config == old(self).vms@[j].config
                    &&& final(self).vms@[j].status == if old(self).vms@[j].smac@ == id@ {
                        status
                    } else {
                        old(self).vms@[j].status
                    }
                },
    {
        match self.find_vm(id) {
            None => Err(VmError::NotFound),
            Some(k) => {
                let old_rec = self.vms.remove(k);
                let rec = VmRecord {
                    smac: old_rec.smac,
                    mac: old_rec.mac,
                    disk_size: old_rec.disk_size,
                    config: old_rec.config,
                    status,
                    created_at: old_rec.created_at,
                };
                self.vms.insert(k, rec);
                assert forall|j: int| 0 <= j < old(self).vms@.len() && j != k implies (
                #[trigger] self.vms@[j]) == old(self).vms@[j] by {}
                Ok(())
            },
        }
    }

    /// Frees every disk owned by `id`.
    pub fn clear_disk_owner_by_vm(&mut self, id: &str)
        requires
            old(self).wf(),
        ensures
            final(self).wf(),
            final(self).vms@ == old(self).vms@,
            disks_released(old(self).disks@, final(self).disks@, id@),
    {
        let ghost before = self.disks@;
        let mut released: Vec<DiskRecord> = Vec::new();
        let mut j: usize = 0;
        while j < self.disks.len()
            invariant
                j <= self.disks@.len(),
                self.disks@ == before,
                released@.len() == j,
                forall|q: int|
                    0 <= q < j ==> {
                        &&& (#[trigger] released@[q]).name == before[q].name
                        &&& released@[q].size == before[q].size
                        &&& released@[q].created_at == before[q].created_at
                        &&& released@[q].owner@ == owner_after_release(before[q].owner@, id@)
                    },
            decreases self.disks@.len() - j,
        {
            let d = &self.disks[j];
            let owner = if same_text(d.owner.as_str(), id) {
                String::new()
            } else {
                d.owner.clone()
            };
            released.push(
                DiskRecord {
                    name: d.name.clone(),
                    size: d.size.clone(),
                    owner,
                    created_at: d.created_at.clone(),
                },
            );
            j += 1;
        }
        self.disks = released;
        assert(disks_released(before, self.disks@, id@));
    }

    /// Whether a disk named in `names` belongs to a VM other than `id`.
    pub fn check_disks_free(&self, id: &str, names: &Vec<String>) -> (r: Result<(), VmError>)
        ensures
            r is Err <==> disk_taken_by_other(self.disks@, id@, names@),
            r matches Err(e) ==> e matches VmError::Conflict,
    {
        let mut j: usize = 0;
        while j < self.disks.len()
            invariant
                j <= self.disks@.len(),
                forall|q: int|
                    0 <= q < j ==> !(holds_text(names@, (#[trigger] self.disks@[q]).name@)
                        && self.disks@[q].owner@.len() > 0 && self.disks@[q].owner@ != id@),
            decreases self.disks@.len() - j,
        {
            let d = &self.disks[j];
            if contains_text(names, &d.name) && d.owner.as_str().unicode_len() > 0 && !same_text(
                d.owner.as_str(),
                id,
            ) {
                return Err(VmError::Conflict);
            }
            j += 1;
        }
        Ok(())
    }

    /// Lets `id` own exactly the disks named in `names`.
    fn claim_disks(&mut self, id: &str, names: &Vec<String>)
        requires
            old(self).wf(),
        ensures
            final(self).wf(),
            final(self).vms@ == old(self).vms@,
            disks_claimed(old(self).disks@, final(self).disks@, id@, names@),
    {
        let ghost before = self.disks@;
        let mut claimed: Vec<DiskRecord> = Vec::new();
        let mut j: usize = 0;
        while j < self.disks.len()
            invariant
                j <= self.disks@.len(),
                self.disks@ == before,
                claimed@.len() == j,
                forall|q: int|
                    0 <= q < j ==> {
                        &&& (#[trigger] claimed@[q]).name == before[q].name
                        &&& claimed@[q].size == before[q].size
                        &&& claimed@[q].created_at == before[q].created_at
                        &&& claimed@[q].owner@ == owner_after_claim(before[q], id@, names@)
                    },
            decreases self.disks@.len() - j,
        {
            let d = &self.disks[j];
            let owner = if contains_text(names, &d.name) {
                String::from_str(id)
            } else if same_text(d.owner.as_str(), id) {
                String::new()
            } else {
                d.owner.clone()
            };
            claimed.push(
                DiskRecord {
                    name: d.name.clone(),
                    size: d.size.clone(),
                    owner,
                    created_at: d.created_at.clone(),
                },
            );
            j += 1;
        }
        self.disks = claimed;
        assert(disks_claimed(before, self.disks@, id@, names@));
    }

    /// Creates the record `rec` of a new, stopped VM and gives it the disks named in
    /// `disks`. An existing identifier, or a named disk that another VM owns, is a conflict
    /// and changes nothing.
    pub fn create_vm(&mut self, rec: VmRecord, disks: &Vec<String>) -> (r: Result<(), VmError>)
        requires
            old(self).wf(),
            rec.status == VmStatus::Stopped,
        ensures
            final(self).wf(),
            r is Err <==> has_vm(old(self).vms@, rec.smac@) || disk_taken_by_other(
                old(self).disks@,
                rec.smac@,
                disks@,
            ),
            r is Err ==> (r matches Err(VmError::Conflict)) && *final(self) == *old(self),
            r is Ok ==> final(self).vms@ == old(self).vms@.push(rec) && disks_claimed(
                old(self).disks@,
                final(self).disks@,
                rec.smac@,
                disks@,
            ),
    {
        if self.find_vm(rec.smac.as_str()).is_some() {
            return Err(VmError::Conflict);
        }
        match self.check_disks_free(rec.smac.as_str(), disks) {
            Err(e) => {
                return Err(e);
            },
            Ok(()) => {},
        }
        let id = rec.smac.clone();
        self.claim_disks(id.as_str(), disks);
        let ghost mid = *self;
        let _ = self.insert_vm(rec);
        assert(!has_vm(mid.vms@, id@));
        Ok(())
    }

    /// Replaces the configuration of the VM called `id` and lets it own exactly the disks
    /// named in `disks`. An unknown VM is not found; a named disk that another VM owns is
    /// a conflict; either way nothing changes.
    pub fn update_vm_config(&mut self, id: &str, config: String, disks: &Vec<String>) -> (r: Result<
        (),
        VmError,
    >)
        requires
            old(self).wf(),
        ensures
            final(self).wf(),
            !has_vm(old(self).vms@, id@) ==> (r matches Err(VmError::NotFound)),
            has_vm(old(self).vms@, id@) && disk_taken_by_other(old(self).disks@, id@, disks@) ==> (
            r matches Err(VmError::Conflict)),
            r is Err <==> !has_vm(old(self).vms@, id@) || disk_taken_by_other(
                old(self).disks@,
                id@,
                disks@,
            ),
            r is Err ==> *final(self) == *old(self),
            r is Ok ==> has_vm(old(self).vms@, id@) && !disk_taken_by_other(
                old(self).disks@,
                id@,
                disks@,
            ),
            r is Ok ==> final(self).vms@.len() == old(self).vms@.len() && disks_claimed(
                old(self).disks@,
                final(self).disks@,
                id@,
                disks@,
            ) && forall|j: int|
                0 <= j < old(self).vms@.len() ==> {
                    &&& (#[trigger] final(self).vms@[j]).smac == old(self).vms@[j].smac
                    &&& final(self).vms@[j].status == old(self).vms@[j].status
                    &&& final(self).vms@[j].config@ == if old(self).vms@[j].smac@ == id@ {
                        config@
                    } else {
                        old(self).vms@[j].config@
                    }
                },
    {
        let k = match self.find_vm(id) {
            None => {
                return Err(VmError::NotFound);
            },
            Some(k) => k,
        };
        match self.check_disks_free(id, disks) {
            Err(e) => {
                return Err(e);
            },
            Ok(()) => {},
        }
        let ghost cfg = config@;
        self.claim_disks(id, disks);
        let old_rec = self.vms.remove(k);
        let rec = VmRecord {
            smac: old_rec.smac,
            mac: old_rec.mac,
            disk_size: old_rec.disk_size,
            config,
            status: old_rec.status,
            created_at: old_rec.created_at,
        };
        self.vms.insert(k, rec);
        assert forall|j: int| 0 <= j < old(self).vms@.len() && j != k implies (
        #[trigger] self.vms@[j]) == old(self).vms@[j] by {}
        assert forall|j: int| 0 <= j < old(self).vms@.len() && old(self).vms@[j].smac@ == id@ implies j
            == k by {
            if j != k {
                if j < k {
                    assert(old(self).vms@[j].smac@ != old(self).vms@[k as int].smac@);
                } else {
                    assert(old(self).vms@[k as int].smac@ != old(self).vms@[j].smac@);
                }
            }
        }
        Ok(())
    }

    /// Gives the disk called `name` to `owner`; an unknown disk is not found.
    pub fn set_disk_owner(&mut self, name: &str, owner: &str) -> (r: Result<(), VmError>)
        requires
            old(self).wf(),
        ensures
            final(self).wf(),
            final(self).vms@ == old(self).vms@,
            final(self).disks@.len() == old(self).disks@.len(),
            r is Ok <==> exists|j: int|
                0 <= j < old(self).disks@.len() && (#[trigger] old(self).disks@[j]).name@ == name@,
            r is Err ==> (r matches Err(VmError::NotFound)) && *final(self) == *old(self),
            forall|j: int|
                0 <= j < old(self).disks@.len() ==> {
                    &&& (#[trigger] final(self).disks@[j]).name == old(self).disks@[j].name
                    &&& final(self).disks@[j].owner@ == if old(self).disks@[j].name@ == name@ {
                        owner@
                    } else {
                        old(self).disks@[j].owner@
                    }
                },
    {
        let mut j: usize = 0;
        while j < self.disks.len()
            invariant
                j <= self.disks@.len(),
                *self == *old(self),
                old(self).wf(),
                forall|q: int| 0 <= q < j ==> (#[trigger] self.disks@[q]).name@ != name@,
            decreases self.disks@.len() - j,
        {
            if same_text(self.disks[j].name.as_str(), name) {
                let d = self.disks.remove(j);
                let rec = DiskRecord {
                    name: d.name,
                    size: d.size,
                    owner: String::from_str(owner),
                    created_at: d.created_at,
                };
                self.disks.insert(j, rec);
                assert forall|q: int| 0 <= q < old(self).disks@.len() && q != j implies (
                #[trigger] self.disks@[q]) == old(self).disks@[q] by {}
                return Ok(());
            }
            j += 1;
        }
        Err(VmError::NotFound)
    }

    /// A disk may be deleted unless a VM owns it.
    pub fn check_disk_deletable(&self, name: &str) -> (r: Result<(), VmError>)
        ensures
            r is Err <==> exists|j: int|
                0 <= j < self.disks@.len() && (#[trigger] self.disks@[j]).name@ == name@
                    && self.disks@[j].owner@.len() > 0,
            r matches Err(e) ==> e matches VmError::Conflict,
    {
        let mut j: usize = 0;
        while j < self.disks.len()
            invariant
                j <= self.disks@.len(),
                forall|q: int|
                    0 <= q < j ==> !((#[trigger] self.disks@[q]).name@ == name@
                        && self.disks@[q].owner@.len() > 0),
            decreases self.disks@.len() - j,
        {
            if same_text(self.disks[j].name.as_str(), name) && self.disks[j].owner.as_str().unicode_len()
                > 0 {
                return Err(VmError::Conflict);
            }
            j += 1;
        }
        Ok(())
    }

    /// Removes the VM called `id` and releases its disks; an unknown VM is not found, and then
    /// nothing changes. A running VM's process is not touched.
    pub fn delete_vm(&mut self, id: &str) -> (r: Result<(), VmError>)
        requires
            old(self).wf(),
        ensures
            final(self).wf(),
            !has_vm(old(self).vms@, id@) ==> (r matches Err(VmError::NotFound)) && *final(self) == *old(
                self,
            ),
            has_vm(old(self).vms@, id@) ==> r is Ok && deleted(*old(self), *final(self), id@),
    {
        match self.find_vm(id) {
            None => Err(VmError::NotFound),
            Some(k) => {
                self.clear_disk_owner_by_vm(id);
                let _gone = self.vms.remove(k);
                assert(forall|i: int| 0 <= i < self.vms@.len() ==> #[trigger] self.vms@[i]
                    == old(self).vms@[if i < k { i } else { i + 1 }]);
                Ok(())
            },
        }
    }
}

/// After a delete of `id`, every disk that `id` owned is free (its owner is empty), no
/// record of `id` is left, and so a second delete of the same id reports it not found.
pub proof fn lemma_delete_round_trip(before: RecordStore, after: RecordStore, id: Seq<char>)
    requires
        before.wf(),
        deleted(before, after, id),
    ensures
        forall|j: int|
            0 <= j < before.disks@.len() && (#[trigger] before.disks@[j]).owner@ == id
                ==> after.disks@[j].owner@.len() == 0,
        forall|j: int| 0 <= j < after.disks@.len() && id.len() > 0 ==> (#[trigger] after.disks@[j]).owner@ != id,
        !has_vm(after.vms@, id),
{
    let k = choose|k: int|
        0 <= k < before.vms@.len() && (#[trigger] before.vms@[k]).smac@ == id && after.vms@
            == before.vms@.remove(k);
    assert forall|i: int| 0 <= i < after.vms@.len() implies (#[trigger] after.vms@[i]).smac@ != id by {
        if i < k {
            assert(after.vms@[i] == before.vms@[i]);
        } else {
            assert(after.vms@[i] == before.vms@[i + 1]);
        }
    }
}

/// The VMs, newest first.
pub fn list_vms(store: &RecordStore) -> (r: Vec<&VmRecord>)
    ensures
        r@.len() == store.vms@.len(),
        forall|i: int| 0 <= i < r@.len() ==> *(#[trigger] r@[i]) == store.vms@[store.vms@.len() - 1 - i],
{
    let n = store.vms.len();
    let mut out: Vec<&VmRecord> = Vec::new();
    let mut i: usize = 0;
    while i < n
        invariant
            i <= n,
            n == store.vms@.len(),
            out@.len() == i,
            forall|q: int| 0 <= q < i ==> *(#[trigger] out@[q]) == store.vms@[n - 1 - q],
        decreases n - i,
    {
        out.push(&store.vms[n - 1 - i]);
        i += 1;
    }
    out
}

/// The disks, newest first.
pub fn list_disks(store: &RecordStore) -> (r: Vec<&DiskRecord>)
    ensures
        r@.len() == store.disks@.len(),
        forall|i: int|
            0 <= i < r@.len() ==> *(#[trigger] r@[i]) == store.disks@[store.disks@.len() - 1 - i],
{
    let n = store.disks.len();
    let mut out: Vec<&DiskRecord> = Vec::new();
    let mut i: usize = 0;
    while i < n
        invariant
            i <= n,
            n == store.disks@.len(),
            out@.len() == i,
            forall|q: int| 0 <= q < i ==> *(#[trigger] out@[q]) == store.disks@[n - 1 - q],
        decreases n - i,
    {
        out.push(&store.disks[n - 1 - i]);
        i += 1;
    }
    out
}

} // verus!
