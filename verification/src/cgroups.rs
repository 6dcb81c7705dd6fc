//! One cpuset cgroup and the filesystem operations that make up its life.
//!
//! Nothing here touches the filesystem. Each step in the life of a cgroup is
//! handed out as an [`FsOp`], a plain description of one operation, for a
//! driver to carry out.

use vstd::prelude::*;
use vstd::string::*;
use crate::cpulist::{encoding, format_cpu_list};
use crate::decimal::{decimal, decimal_string};
use crate::error::InvalidInput;
use crate::path::{child_path, is_safe_name, is_safe_segment, join, lemma_child_of_safe};

verus! {

/// Where the cpuset controller is mounted.
pub const CPUSET_ROOT: &'static str = "/sys/fs/cgroup/cpuset";

/// The file whose lines are the process ids that belong to a cgroup.
pub const PROCS_FILE: &'static str = "cgroup.procs";

/// The file that holds the exclusivity flag of a cgroup.
pub const EXCLUSIVE_FILE: &'static str = "cpuset.cpu_exclusive";

/// The file that holds the CPU list of a cgroup.
pub const CPUS_FILE: &'static str = "cpuset.cpus";

/// One operation on the filesystem.
#[derive(Debug, PartialEq, Eq)]
pub enum FsOp {
    /// Create the directory at `path` and every missing parent of it. A
    /// directory that is there already is left as it is.
    CreateDirAll { path: String },
    /// Replace what the file at `path` holds by `contents`.
    Write { path: String, contents: String },
    /// Remove the directory at `path` with all that is in it.
    RemoveDirAll { path: String },
}

/// What an [`FsOp`] says, over sequences of characters.
pub enum FsOpView {
    CreateDirAll { path: Seq<char> },
    Write { path: Seq<char>, contents: Seq<char> },
    RemoveDirAll { path: Seq<char> },
}

impl View for FsOp {
    type V = FsOpView;

    open spec fn view(&self) -> FsOpView {
        match self {
            FsOp::CreateDirAll { path } => FsOpView::CreateDirAll { path: path@ },
            FsOp::Write { path, contents } => FsOpView::Write {
                path: path@,
                contents: contents@,
            },
            FsOp::RemoveDirAll { path } => FsOpView::RemoveDirAll { path: path@ },
        }
    }
}

/// What identifies a cgroup: the mount point of its controller and its name.
pub struct CgroupView {
    pub root: Seq<char>,
    pub name: Seq<char>,
}

impl CgroupView {
    /// The directory of the cgroup.
    pub open spec fn dir(self) -> Seq<char> {
        child_path(self.root, self.name)
    }

    /// The path of a control file of the cgroup.
    pub open spec fn file(self, file: Seq<char>) -> Seq<char> {
        self.dir() + seq!['/'] + file
    }

    /// The operation that makes the cgroup exist.
    pub open spec fn provision(self) -> FsOpView {
        FsOpView::CreateDirAll { path: self.dir() }
    }

    /// The operation that sets or clears the exclusivity flag.
    pub open spec fn set_cpu_exclusive(self, exclusive: bool) -> FsOpView {
        FsOpView::Write {
            path: self.file(EXCLUSIVE_FILE@),
            contents: if exclusive {
                seq!['1']
            } else {
                seq!['0']
            },
        }
    }

    /// The operation that restricts the cgroup to `cpus`.
    pub open spec fn set_cpus(self, cpus: Seq<u32>) -> FsOpView {
        FsOpView::Write { path: self.file(CPUS_FILE@), contents: encoding(cpus) }
    }

    /// The operation that puts the process `pid` under the cgroup.
    pub open spec fn add_process(self, pid: u32) -> FsOpView {
        FsOpView::Write { path: self.file(PROCS_FILE@), contents: decimal(pid as nat) }
    }

    /// The operation that removes the cgroup.
    pub open spec fn delete(self) -> FsOpView {
        FsOpView::RemoveDirAll { path: self.dir() }
    }
}

/// A cpuset cgroup, known by the name of its directory below the mount
/// point of the cpuset controller. The name is a safe path segment, so the
/// directory is a child of the mount point and of nothing else.
#[derive(Debug)]
pub struct CpusetCgroup {
    root: String,
    name: String,
}

impl View for CpusetCgroup {
    type V = CgroupView;

    closed spec fn view(&self) -> CgroupView {
        CgroupView { root: self.root@, name: self.name@ }
    }
}

impl CpusetCgroup {
    #[verifier::type_invariant]
    spec fn well_formed(self) -> bool {
        is_safe_segment(self.name@)
    }

    /// The cgroup `name` of the cpuset controller at its usual mount point.
    /// A name that is no safe path segment is refused.
    pub fn create(name: &str) -> (result: Result<CpusetCgroup, InvalidInput>)
        ensures
            match result {
                Ok(cgroup) => {
                    &&& is_safe_segment(name@)
                    &&& cgroup@ == CgroupView { root: CPUSET_ROOT@, name: name@ }
                    &&& cgroup@.dir() == CPUSET_ROOT@ + seq!['/'] + name@
                },
                Err(error) => !is_safe_segment(name@) && error == InvalidInput::UnsafeName,
            },
    {
        proof {
            reveal_strlit("/sys/fs/cgroup/cpuset");
        }
        CpusetCgroup::create_under(CPUSET_ROOT, name)
    }

    /// The cgroup `name` of a cpuset controller that is mounted at `root`.
    /// A name that is no safe path segment is refused.
    pub fn create_under(root: &str, name: &str) -> (result: Result<CpusetCgroup, InvalidInput>)
        ensures
            match result {
                Ok(cgroup) => {
                    &&& is_safe_segment(name@)
                    &&& cgroup@ == CgroupView { root: root@, name: name@ }
                },
                Err(error) => !is_safe_segment(name@) && error == InvalidInput::UnsafeName,
            },
    {
        if is_safe_name(name) {
            Ok(CpusetCgroup { root: String::from_str(root), name: String::from_str(name) })
        } else {
            Err(InvalidInput::UnsafeName)
        }
    }

    /// The name of the cgroup, which is a safe path segment.
    pub fn name(&self) -> (name: &str)
        ensures
            name@ == self@.name,
            is_safe_segment(name@),
    {
        proof {
            use_type_invariant(self);
        }
        self.name.as_str()
    }

    /// The directory of the cgroup.
    pub fn path(&self) -> (path: String)
        ensures
            path@ == self@.dir(),
    {
        join(self.root.as_str(), self.name.as_str())
    }

    /// The path of the control file `file` of the cgroup.
    fn file(&self, file: &str) -> (path: String)
        ensures
            path@ == self@.file(file@),
    {
        proof {
            use_type_invariant(self);
            lemma_child_of_safe(self.root@, self.name@, file@);
        }
        let dir = self.path();
        join(dir.as_str(), file)
    }

    /// The operation that makes the cgroup exist: its directory is created
    /// with every missing parent, and left as it is if it exists.
    pub fn provision(&self) -> (op: FsOp)
        ensures
            op@ == self@.provision(),
    {
        FsOp::CreateDirAll { path: self.path() }
    }

    /// The operation that puts the process `pid` under the cgroup and so
    /// under its CPU restriction.
    pub fn add_process(&self, pid: u32) -> (op: FsOp)
        ensures
            op@ == self@.add_process(pid),
    {
        FsOp::Write { path: self.file(PROCS_FILE), contents: decimal_string(pid) }
    }

    /// The operation that removes the cgroup. A controller refuses it while
    /// a process is left in the cgroup.
    pub fn delete(&self) -> (op: FsOp)
        ensures
            op@ == self@.delete(),
    {
        FsOp::RemoveDirAll { path: self.path() }
    }

    /// The operation that sets or clears the exclusivity flag of the cgroup.
    pub fn set_cpu_exclusive(&self, exclusive: bool) -> (op: FsOp)
        ensures
            op@ == self@.set_cpu_exclusive(exclusive),
    {
        proof {
            reveal_strlit("1");
            reveal_strlit("0");
            assert("1"@ =~= seq!['1']);
            assert("0"@ =~= seq!['0']);
        }
        let flag = if exclusive {
            "1"
        } else {
            "0"
        };
        FsOp::Write { path: self.file(EXCLUSIVE_FILE), contents: String::from_str(flag) }
    }

    /// The operation that restricts the cgroup to the cores `cpus`. An empty
    /// list is refused: no controller accepts it.
    pub fn set_cpus(&self, cpus: &[u32]) -> (result: Result<FsOp, InvalidInput>)
        ensures
            match result {
                Ok(op) => cpus@.len() > 0 && op@ == self@.set_cpus(cpus@),
                Err(error) => cpus@.len() == 0 && error == InvalidInput::EmptyCpuList,
            },
    {
        if cpus.len() == 0 {
            return Err(InvalidInput::EmptyCpuList);
        }
        Ok(self.restrict(cpus))
    }

    /// The operation that restricts the cgroup to the cores `cpus`, of
    /// which there is at least one.
    pub(crate) fn restrict(&self, cpus: &[u32]) -> (op: FsOp)
        requires
            cpus@.len() > 0,
        ensures
            op@ == self@.set_cpus(cpus@),
    {
        FsOp::Write { path: self.file(CPUS_FILE), contents: format_cpu_list(cpus) }
    }
}

} // verus!
