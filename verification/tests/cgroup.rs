use cleanroom::cgroups::{CpusetCgroup, FsOp, CPUSET_ROOT};
use cleanroom::error::InvalidInput;
use cleanroom::path::{is_safe_name, join};
use std::path::PathBuf;

fn cleanroom_cgroup() -> CpusetCgroup {
    CpusetCgroup::create("cleanroom").unwrap()
}

#[test]
fn create_fixes_the_directory() {
    let cgroup = cleanroom_cgroup();
    assert_eq!(cgroup.name(), "cleanroom");
    assert_eq!(cgroup.path(), "/sys/fs/cgroup/cpuset/cleanroom");
    assert_eq!(CPUSET_ROOT, "/sys/fs/cgroup/cpuset");
}

#[test]
fn provision_creates_the_directory() {
    assert_eq!(
        cleanroom_cgroup().provision(),
        FsOp::CreateDirAll { path: "/sys/fs/cgroup/cpuset/cleanroom".to_string() }
    );
}

#[test]
fn create_twice_gives_the_same_cgroup() {
    let first = CpusetCgroup::create("cleanroom").unwrap();
    let second = CpusetCgroup::create("cleanroom").unwrap();
    assert_eq!(first.path(), second.path());
    assert_eq!(first.provision(), second.provision());
}

#[test]
fn add_process_writes_the_pid() {
    assert_eq!(
        cleanroom_cgroup().add_process(1234),
        FsOp::Write {
            path: "/sys/fs/cgroup/cpuset/cleanroom/cgroup.procs".to_string(),
            contents: "1234".to_string(),
        }
    );
    assert_eq!(
        cleanroom_cgroup().add_process(u32::MAX),
        FsOp::Write {
            path: "/sys/fs/cgroup/cpuset/cleanroom/cgroup.procs".to_string(),
            contents: "4294967295".to_string(),
        }
    );
}

#[test]
fn set_cpu_exclusive_writes_the_flag() {
    assert_eq!(
        cleanroom_cgroup().set_cpu_exclusive(true),
        FsOp::Write {
            path: "/sys/fs/cgroup/cpuset/cleanroom/cpuset.cpu_exclusive".to_string(),
            contents: "1".to_string(),
        }
    );
    assert_eq!(
        cleanroom_cgroup().set_cpu_exclusive(false),
        FsOp::Write {
            path: "/sys/fs/cgroup/cpuset/cleanroom/cpuset.cpu_exclusive".to_string(),
            contents: "0".to_string(),
        }
    );
}

#[test]
fn set_cpus_writes_the_cpu_list() {
    assert_eq!(
        cleanroom_cgroup().set_cpus(&[0, 1, 2, 4, 6, 7, 8]),
        Ok(FsOp::Write {
            path: "/sys/fs/cgroup/cpuset/cleanroom/cpuset.cpus".to_string(),
            contents: "0-2,4,6-8".to_string(),
        })
    );
    assert_eq!(
        cleanroom_cgroup().set_cpus(&[1, 0]),
        Ok(FsOp::Write {
            path: "/sys/fs/cgroup/cpuset/cleanroom/cpuset.cpus".to_string(),
            contents: "0-1".to_string(),
        })
    );
}

#[test]
fn set_cpus_refuses_the_empty_list() {
    assert_eq!(cleanroom_cgroup().set_cpus(&[]), Err(InvalidInput::EmptyCpuList));
}

#[test]
fn delete_removes_the_directory() {
    assert_eq!(
        cleanroom_cgroup().delete(),
        FsOp::RemoveDirAll { path: "/sys/fs/cgroup/cpuset/cleanroom".to_string() }
    );
}

#[test]
fn unsafe_names_are_refused() {
    for name in ["", ".", "..", "a/b", "/abs", "../up", "down/", "/", "a\0b", "\0"] {
        assert!(!is_safe_name(name), "{:?}", name);
        assert_eq!(CpusetCgroup::create(name).unwrap_err(), InvalidInput::UnsafeName);
        assert_eq!(
            CpusetCgroup::create_under("/tmp/scratch", name).unwrap_err(),
            InvalidInput::UnsafeName
        );
    }
}

#[test]
fn safe_names_are_accepted() {
    for name in ["cleanroom", "a", "...", "..a", "a..", ".hidden", "a.b", "with space", "zelle-ß"] {
        assert!(is_safe_name(name), "{:?}", name);
        let cgroup = CpusetCgroup::create(name).unwrap();
        assert_eq!(cgroup.name(), name);
        assert_eq!(cgroup.path(), format!("/sys/fs/cgroup/cpuset/{}", name));
    }
}

#[test]
fn the_mount_point_can_be_given() {
    let cgroup = CpusetCgroup::create_under("/tmp/scratch", "box").unwrap();
    assert_eq!(cgroup.path(), "/tmp/scratch/box");
    assert_eq!(
        cgroup.add_process(7),
        FsOp::Write { path: "/tmp/scratch/box/cgroup.procs".to_string(), contents: "7".to_string() }
    );
    let cgroup = CpusetCgroup::create_under("/tmp/scratch/", "box").unwrap();
    assert_eq!(cgroup.path(), "/tmp/scratch/box");
    let cgroup = CpusetCgroup::create_under("", "box").unwrap();
    assert_eq!(cgroup.path(), "box");
    assert_eq!(cgroup.delete(), FsOp::RemoveDirAll { path: "box".to_string() });
}

#[test]
fn join_agrees_with_the_standard_library() {
    for base in ["", "/", "/sys/fs/cgroup/cpuset", "/sys/fs/cgroup/cpuset/", "relative", "a/b/"] {
        for segment in ["cleanroom", "cgroup.procs", "...", "x"] {
            let expected = PathBuf::from(base).join(segment);
            assert_eq!(PathBuf::from(join(base, segment)), expected);
            assert_eq!(join(base, segment), expected.to_str().unwrap());
        }
    }
}

#[test]
fn errors_describe_themselves() {
    assert_eq!(InvalidInput::EmptyCpuList.message(), "CPU list cannot be empty");
    assert_eq!(
        InvalidInput::UnsafeName.message(),
        "cgroup name must be a single path segment"
    );
}
