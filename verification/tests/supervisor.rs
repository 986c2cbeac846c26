use jobruntime::error::ErrorKind;
use jobruntime::ids::JobId;
use jobruntime::limits::{Cgroup, FileWrite, ResourceLimits};
use jobruntime::logbuf::LogPoll;
use jobruntime::status::{ExitStatus, JobStatus};
use jobruntime::supervisor::{StopAction, Supervisor};

fn supervisor() -> Supervisor {
    Supervisor::new(Cgroup::new("jobdaemon"))
}

fn begin(sup: &mut Supervisor, value: u128, owner: &str, args: &[&str]) -> JobId {
    let id = JobId { value };
    let rest: Vec<String> = args[1..].iter().map(|a| a.to_string()).collect();
    let plan = sup
        .begin_start(id, args[0].to_string(), rest, owner.to_string(), ResourceLimits::default(), 1)
        .unwrap();
    assert_eq!(plan.path, args[0]);
    id
}

fn run(sup: &mut Supervisor, value: u128, owner: &str, args: &[&str], pid: u32) -> JobId {
    let id = begin(sup, value, owner, args);
    sup.commit_start(id, pid).unwrap();
    id
}

fn finish(sup: &mut Supervisor, id: JobId, exit: ExitStatus) -> Option<Cgroup> {
    assert_eq!(sup.pipe_closed(id), None);
    assert_eq!(sup.pipe_closed(id), None);
    sup.child_exited(id, exit)
}

fn drain(sup: &Supervisor, id: JobId, owner: &str) -> (Vec<u8>, bool) {
    let mut cursor = sup.fetch_logs(id, owner).unwrap();
    let mut seen = Vec::new();
    loop {
        match sup.read_logs(id, owner, &mut cursor).unwrap() {
            LogPoll::Chunk(chunk) => seen.extend(chunk),
            LogPoll::Pending => return (seen, false),
            LogPoll::End => return (seen, true),
        }
    }
}

#[test]
fn echo_logs_hello_and_finishes() {
    let mut sup = supervisor();
    let id = run(&mut sup, 1, "alice", &["/bin/echo", "hello"], 100);
    assert!(sup.append_output(id, b"hello\n"));
    assert!(finish(&mut sup, id, ExitStatus::Exited { code: 0 }).is_some());
    assert_eq!(drain(&sup, id, "alice"), (b"hello\n".to_vec(), true));
    assert_eq!(sup.status(id, "alice").unwrap().status, JobStatus::Finished { exit_code: 0 });
}

#[test]
fn long_runner_is_stopped_and_killed() {
    let mut sup = supervisor();
    let id = run(&mut sup, 2, "alice", &["/bin/sleep", "30"], 4711);
    assert_eq!(sup.status(id, "alice").unwrap().status, JobStatus::Running { pid: 4711 });
    assert_eq!(sup.stop(id, "alice").unwrap(), StopAction::Kill { pid: 4711 });
    assert_eq!(sup.status(id, "alice").unwrap().status, JobStatus::Running { pid: 4711 });
    finish(&mut sup, id, ExitStatus::Signaled { signal: 9 });
    assert_eq!(sup.status(id, "alice").unwrap().status, JobStatus::Killed { signal: 9 });
    assert_eq!(drain(&sup, id, "alice"), (Vec::new(), true));
}

#[test]
fn memory_limit_is_planned_and_cgroup_returned_at_exit() {
    let mut sup = supervisor();
    let id = JobId { value: 0xabc };
    let limits = ResourceLimits {
        memory_high: None,
        memory_max: Some(100 * 1024 * 1024),
        cpu_max: None,
        cpu_weight: None,
        io_weight: None,
    };
    let plan = sup
        .begin_start(id, "/path/to/allocator".to_string(), vec!["200MB".to_string()], "alice".to_string(), limits, 5)
        .unwrap();
    let dir = "/sys/fs/cgroup/jobdaemon/00000000000000000000000000000abc";
    assert_eq!(plan.cgroup.path(), dir);
    assert_eq!(plan.args, vec!["200MB".to_string()]);
    assert_eq!(
        plan.limit_writes,
        vec![FileWrite { path: format!("{}/memory.max", dir), data: "104857600".to_string() }]
    );
    assert_eq!(
        sup.commit_start(id, 77),
        Ok(FileWrite { path: format!("{}/cgroup.procs", dir), data: "77".to_string() })
    );
    let gone = finish(&mut sup, id, ExitStatus::Signaled { signal: 9 }).unwrap();
    assert_eq!(gone.path(), dir);
    assert_eq!(sup.status(id, "alice").unwrap().status, JobStatus::Killed { signal: 9 });
    assert_eq!(sup.child_exited(id, ExitStatus::Exited { code: 0 }), None);
    assert_eq!(sup.status(id, "alice").unwrap().status, JobStatus::Killed { signal: 9 });
}

#[test]
fn concurrent_tails_agree() {
    let mut sup = supervisor();
    let id = run(&mut sup, 3, "alice", &["/bin/printer"], 5);
    let mut first = sup.fetch_logs(id, "alice").unwrap();
    let mut seen_first: Vec<u8> = Vec::new();
    let mut second = None;
    let mut seen_second: Vec<u8> = Vec::new();
    for n in 1..=20 {
        assert!(sup.append_output(id, format!("line-{}\n", n).as_bytes()));
        if let LogPoll::Chunk(c) = sup.read_logs(id, "alice", &mut first).unwrap() {
            seen_first.extend(c);
        }
        if n == 6 {
            second = Some(sup.fetch_logs(id, "alice").unwrap());
        }
    }
    finish(&mut sup, id, ExitStatus::Exited { code: 0 });
    let mut second = second.unwrap();
    while let LogPoll::Chunk(c) = sup.read_logs(id, "alice", &mut second).unwrap() {
        seen_second.extend(c);
    }
    assert_eq!(sup.read_logs(id, "alice", &mut first).unwrap(), LogPoll::End);
    assert_eq!(sup.read_logs(id, "alice", &mut second).unwrap(), LogPoll::End);
    assert_eq!(seen_first, seen_second);
    assert!(seen_first.ends_with(b"line-20\n"));
    assert!(seen_first.starts_with(b"line-1\nline-2\n"));
}

#[test]
fn wrong_owner_is_denied_and_job_keeps_running() {
    let mut sup = supervisor();
    let id = run(&mut sup, 4, "alice", &["/bin/sleep", "30"], 9);
    let denied = sup.stop(id, "bob").unwrap_err();
    assert_eq!(denied.kind, ErrorKind::PermissionDenied);
    assert_eq!(denied.message, "permission denied");
    assert_eq!(sup.status(id, "bob").unwrap_err().kind, ErrorKind::PermissionDenied);
    assert_eq!(sup.fetch_logs(id, "bob").unwrap_err().kind, ErrorKind::PermissionDenied);
    let mut cursor = sup.fetch_logs(id, "alice").unwrap();
    assert_eq!(
        sup.read_logs(id, "bob", &mut cursor).unwrap_err().kind,
        ErrorKind::PermissionDenied
    );
    assert_eq!(sup.status(id, "alice").unwrap().status, JobStatus::Running { pid: 9 });
    assert_eq!(sup.stop(id, "alice"), Ok(StopAction::Kill { pid: 9 }));
}

#[test]
fn second_stop_asks_nothing_of_the_system() {
    let mut sup = supervisor();
    let id = run(&mut sup, 5, "alice", &["/bin/sleep", "30"], 10);
    assert_eq!(sup.stop(id, "alice"), Ok(StopAction::Kill { pid: 10 }));
    assert_eq!(sup.stop(id, "alice"), Ok(StopAction::Nothing));
    finish(&mut sup, id, ExitStatus::Signaled { signal: 9 });
    assert_eq!(sup.stop(id, "alice"), Ok(StopAction::Nothing));
}

#[test]
fn unknown_id_is_not_found() {
    let mut sup = supervisor();
    let id = JobId { value: 99 };
    assert!(!sup.contains(id));
    let e = sup.stop(id, "alice").unwrap_err();
    assert_eq!(e.kind, ErrorKind::NotFound);
    assert_eq!(e.to_text(), "job not found");
    assert_eq!(sup.status(id, "alice").unwrap_err().kind, ErrorKind::NotFound);
    assert_eq!(sup.fetch_logs(id, "alice").unwrap_err().kind, ErrorKind::NotFound);
    assert_eq!(sup.commit_start(id, 1).unwrap_err().kind, ErrorKind::NotFound);
    assert!(!sup.append_output(id, b"x"));
    assert_eq!(sup.pipe_closed(id), None);
    assert_eq!(sup.child_exited(id, ExitStatus::Exited { code: 0 }), None);
    assert_eq!(sup.fail_start(id, "x".to_string()), None);
}

#[test]
fn duplicate_id_is_refused() {
    let mut sup = supervisor();
    let id = begin(&mut sup, 6, "alice", &["/bin/true"]);
    let again = sup.begin_start(
        id,
        "/bin/false".to_string(),
        vec![],
        "bob".to_string(),
        ResourceLimits::default(),
        2,
    );
    assert_eq!(again.unwrap_err().kind, ErrorKind::Internal);
    assert_eq!(sup.status(id, "alice").unwrap().status, JobStatus::Pending);
    assert_eq!(sup.status(id, "bob").unwrap_err().kind, ErrorKind::PermissionDenied);
}

#[test]
fn start_gives_out_fresh_ids() {
    let mut sup = supervisor();
    let (a, _) = sup
        .start("/bin/true".to_string(), vec![], "alice".to_string(), ResourceLimits::default(), 1)
        .unwrap();
    let (b, plan) = sup
        .start("/bin/true".to_string(), vec![], "alice".to_string(), ResourceLimits::default(), 2)
        .unwrap();
    assert_ne!(a, b);
    assert!(sup.contains(a) && sup.contains(b));
    assert_eq!(plan.cgroup.path(), format!("/sys/fs/cgroup/jobdaemon/{}", b.to_simple_string()));
}

#[test]
fn failed_start_leaves_no_entry() {
    let mut sup = supervisor();
    let id = begin(&mut sup, 7, "alice", &["/no/such/program"]);
    let e = sup.fail_start(id, "No such file or directory (os error 2)".to_string()).unwrap();
    assert_eq!(e.kind, ErrorKind::ResourceError);
    assert_eq!(e.message, "No such file or directory (os error 2)");
    assert!(!sup.contains(id));
    assert_eq!(sup.status(id, "alice").unwrap_err().kind, ErrorKind::NotFound);
}

#[test]
fn running_job_cannot_be_failed_or_committed_again() {
    let mut sup = supervisor();
    let id = run(&mut sup, 8, "alice", &["/bin/sleep", "1"], 11);
    assert_eq!(sup.fail_start(id, "late".to_string()), None);
    assert_eq!(sup.commit_start(id, 12).unwrap_err().kind, ErrorKind::Internal);
    assert_eq!(sup.status(id, "alice").unwrap().status, JobStatus::Running { pid: 11 });
}

#[test]
fn pending_job_cannot_be_stopped() {
    let mut sup = supervisor();
    let id = begin(&mut sup, 9, "alice", &["/bin/true"]);
    assert_eq!(sup.stop(id, "alice").unwrap_err().kind, ErrorKind::Internal);
    assert_eq!(sup.child_exited(id, ExitStatus::Exited { code: 0 }), None);
    assert_eq!(sup.status(id, "alice").unwrap().status, JobStatus::Pending);
}

#[test]
fn pipe_error_closes_the_log_but_not_the_job() {
    let mut sup = supervisor();
    let id = run(&mut sup, 10, "alice", &["/bin/cat"], 13);
    assert!(sup.append_output(id, b"par"));
    assert_eq!(sup.pipe_closed(id), None);
    assert!(sup.append_output(id, b"tial"));
    assert_eq!(sup.pipe_closed(id), None);
    assert!(!sup.append_output(id, b"lost"));
    assert_eq!(sup.pipe_closed(id), None);
    assert_eq!(sup.status(id, "alice").unwrap().status, JobStatus::Running { pid: 13 });
    assert_eq!(drain(&sup, id, "alice"), (b"partial".to_vec(), true));
}

#[test]
fn status_snapshot_names_job_and_owner() {
    let mut sup = supervisor();
    let id = run(&mut sup, 11, "alice", &["/bin/true"], 14);
    let info = sup.status(id, "alice").unwrap();
    assert_eq!(info.job, id);
    assert_eq!(info.owner, "alice");
    finish(&mut sup, id, ExitStatus::Exited { code: 3 });
    assert_eq!(sup.status(id, "alice").unwrap().status, JobStatus::Finished { exit_code: 3 });
}

#[test]
fn statuses_only_move_forward() {
    assert!(!JobStatus::Pending.is_terminal());
    assert!(!JobStatus::Running { pid: 1 }.is_terminal());
    assert!(JobStatus::Finished { exit_code: 0 }.is_terminal());
    assert!(JobStatus::Killed { signal: 15 }.is_terminal());
    assert_eq!(
        JobStatus::from_exit(ExitStatus::Exited { code: -1 }),
        JobStatus::Finished { exit_code: -1 }
    );
    assert_eq!(
        JobStatus::from_exit(ExitStatus::Signaled { signal: 15 }),
        JobStatus::Killed { signal: 15 }
    );
}

#[test]
fn exit_waits_for_the_pipes_to_drain() {
    let mut sup = supervisor();
    let id = run(&mut sup, 12, "alice", &["/bin/echo", "late"], 15);
    assert_eq!(sup.child_exited(id, ExitStatus::Exited { code: 0 }), None);
    assert_eq!(sup.status(id, "alice").unwrap().status, JobStatus::Running { pid: 15 });
    assert_eq!(sup.stop(id, "alice"), Ok(StopAction::Nothing));
    assert_eq!(sup.child_exited(id, ExitStatus::Signaled { signal: 9 }), None);
    assert!(sup.append_output(id, b"late\n"));
    assert_eq!(sup.pipe_closed(id), None);
    assert_eq!(drain(&sup, id, "alice"), (b"late\n".to_vec(), false));
    let gone = sup.pipe_closed(id).unwrap();
    assert_eq!(gone.path(), "/sys/fs/cgroup/jobdaemon/0000000000000000000000000000000c");
    assert_eq!(sup.status(id, "alice").unwrap().status, JobStatus::Finished { exit_code: 0 });
    assert_eq!(drain(&sup, id, "alice"), (b"late\n".to_vec(), true));
    assert_eq!(sup.pipe_closed(id), None);
}
