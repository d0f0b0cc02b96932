//! Golden-snapshot management: locating the pre-baked snapshot pair and
//! planning the request that restores a microVM from it.

use vstd::prelude::*;

use crate::firecracker::{snapshot_load_request, ApiBodyView, ApiRequest, HttpMethod};

verus! {

broadcast use vstd::string::group_string_axioms;

/// Locates the golden memory/state snapshot pair under a configured
/// snapshot directory and plans restores from it.
pub struct SnapshotManager {
    pub fc_bin: String,
    pub snapshot_dir: String,
}

pub open spec fn spec_golden_snap(dir: Seq<char>) -> Seq<char> {
    dir + "/golden/vm.snap"@
}

pub open spec fn spec_golden_mem(dir: Seq<char>) -> Seq<char> {
    dir + "/golden/vm.mem"@
}

impl SnapshotManager {
    pub fn new(fc_bin: String, snapshot_dir: String) -> (r: Self)
        ensures
            r.fc_bin@ == fc_bin@,
            r.snapshot_dir@ == snapshot_dir@,
    {
        SnapshotManager { fc_bin, snapshot_dir }
    }

    /// The fixed paths of the golden snapshot pair:
    /// `<snapshot_dir>/golden/vm.snap` and `<snapshot_dir>/golden/vm.mem`.
    pub fn golden_snapshot_path(&self) -> (r: (String, String))
        ensures
            r.0@ == spec_golden_snap(self.snapshot_dir@),
            r.1@ == spec_golden_mem(self.snapshot_dir@),
    {
        let mut snap = self.snapshot_dir.clone();
        snap.append("/golden/vm.snap");
        let mut mem = self.snapshot_dir.clone();
        mem.append("/golden/vm.mem");
        (snap, mem)
    }

    /// Whether both files of the golden pair currently exist. The answer
    /// reflects the live filesystem, so no more can be stated of it.
    pub fn has_golden_snapshot(&self) -> bool {
        let (snap, mem) = self.golden_snapshot_path();
        crate::host::path_exists(snap.as_str()) && crate::host::path_exists(mem.as_str())
    }

    /// The request that loads the given snapshot pair and resumes the
    /// microVM.
    pub fn restore_request(&self, snapshot_path: &str, mem_path: &str) -> (r: ApiRequest)
        ensures
            r@.method == HttpMethod::Put,
            r@.path == "/snapshot/load"@,
            r@.body == (ApiBodyView::SnapshotLoad {
                snapshot_path: snapshot_path@,
                mem_backend_path: mem_path@,
                mem_backend_type: "File"@,
                enable_diff_snapshots: false,
                resume_vm: true,
            }),
    {
        snapshot_load_request(snapshot_path, mem_path)
    }
}

} // verus!
