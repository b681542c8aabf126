use procns::{KernelVersion, LinkOutcome, Namespaces, OsErrorKind, ResolveError, Resolver, Step};

fn target(s: &str) -> LinkOutcome {
    LinkOutcome::Target(s.to_string())
}

/// One successful outcome per kind, in the fixed kind order.
fn ten_targets() -> Vec<LinkOutcome> {
    vec![
        target("cgroup:[4026531835]"),
        target("ipc:[4026531839]"),
        target("mnt:[4026531840]"),
        target("net:[4026531992]"),
        target("pid:[4026531836]"),
        target("user:[4026531837]"),
        target("uts:[4026531838]"),
        target("pid_for_children:[4026531836]"),
        target("time:[4026531834]"),
        target("time_for_children:[4026531834]"),
    ]
}

#[test]
fn test_task() {
    let pid = 1;
    let outcomes = ten_targets();
    let namespace = Namespaces::namespaces(pid, KernelVersion::new(5, 10, 0), &outcomes).unwrap();
    println!("/proc/{}/ns:\n {:?}", pid, namespace);
}

#[test]
fn all_ten_present_at_5_10_0() {
    let outcomes = ten_targets();
    let ns = Namespaces::namespaces(1, KernelVersion::new(5, 10, 0), &outcomes).unwrap();
    assert_eq!(ns.cgroup, Some("cgroup:[4026531835]".to_string()));
    assert_eq!(ns.ipc, Some("ipc:[4026531839]".to_string()));
    assert_eq!(ns.mnt, Some("mnt:[4026531840]".to_string()));
    assert_eq!(ns.net, Some("net:[4026531992]".to_string()));
    assert_eq!(ns.pid, Some("pid:[4026531836]".to_string()));
    assert_eq!(ns.user, Some("user:[4026531837]".to_string()));
    assert_eq!(ns.uts, Some("uts:[4026531838]".to_string()));
    assert_eq!(ns.pid_for_children, Some("pid_for_children:[4026531836]".to_string()));
    assert_eq!(ns.time, Some("time:[4026531834]".to_string()));
    assert_eq!(ns.time_for_children, Some("time_for_children:[4026531834]".to_string()));
}

#[test]
fn only_ipc_and_net_at_3_2_0() {
    let outcomes = vec![target("ipc:[1]"), target("net:[2]")];
    let ns = Namespaces::namespaces(1, KernelVersion::new(3, 2, 0), &outcomes).unwrap();
    assert_eq!(ns.ipc, Some("ipc:[1]".to_string()));
    assert_eq!(ns.net, Some("net:[2]".to_string()));
    assert_eq!(ns.cgroup, None);
    assert_eq!(ns.mnt, None);
    assert_eq!(ns.pid, None);
    assert_eq!(ns.user, None);
    assert_eq!(ns.uts, None);
    assert_eq!(ns.pid_for_children, None);
    assert_eq!(ns.time, None);
    assert_eq!(ns.time_for_children, None);
}

#[test]
fn boundary_version_counts_as_satisfied() {
    // 4.6.0 is exactly the minimum of cgroup, user and uts: all three are read.
    let outcomes = vec![
        target("cgroup:[1]"),
        target("ipc:[2]"),
        target("mnt:[3]"),
        target("net:[4]"),
        target("pid:[5]"),
        target("user:[6]"),
        target("uts:[7]"),
    ];
    let ns = Namespaces::namespaces(1, KernelVersion::new(4, 6, 0), &outcomes).unwrap();
    assert_eq!(ns.cgroup, Some("cgroup:[1]".to_string()));
    assert_eq!(ns.user, Some("user:[6]".to_string()));
    assert_eq!(ns.uts, Some("uts:[7]".to_string()));
    assert_eq!(ns.pid_for_children, None);
    assert_eq!(ns.time, None);
    assert_eq!(ns.time_for_children, None);
}

#[test]
fn mnt_permission_denied_fails_whole_resolution() {
    let mut outcomes = ten_targets();
    outcomes[2] = LinkOutcome::OsError(OsErrorKind::PermissionDenied);
    let res = Namespaces::namespaces(42, KernelVersion::new(5, 10, 0), &outcomes);
    assert_eq!(
        res,
        Err(ResolveError::Os(OsErrorKind::PermissionDenied, "/proc/42/ns/mnt".to_string()))
    );
}

#[test]
fn unreadable_pid_target_names_its_path() {
    let mut outcomes = ten_targets();
    outcomes[4] = LinkOutcome::NotText;
    let res = Namespaces::namespaces(42, KernelVersion::new(5, 10, 0), &outcomes);
    assert_eq!(res, Err(ResolveError::Unrepresentable("/proc/42/ns/pid".to_string())));
}

#[test]
fn first_failure_wins() {
    let mut outcomes = ten_targets();
    outcomes[1] = LinkOutcome::OsError(OsErrorKind::NotFound);
    outcomes[2] = LinkOutcome::NotText;
    let res = Namespaces::namespaces(9, KernelVersion::new(5, 10, 0), &outcomes);
    assert_eq!(res, Err(ResolveError::Os(OsErrorKind::NotFound, "/proc/9/ns/ipc".to_string())));
}

#[test]
fn other_os_error_is_reported_with_path() {
    let mut outcomes = ten_targets();
    outcomes[0] = LinkOutcome::OsError(OsErrorKind::Other);
    let res = Namespaces::namespaces(5, KernelVersion::new(5, 10, 0), &outcomes);
    assert_eq!(res, Err(ResolveError::Os(OsErrorKind::Other, "/proc/5/ns/cgroup".to_string())));
}

#[test]
fn resolving_twice_gives_equal_records() {
    let outcomes = ten_targets();
    let kernel = KernelVersion::new(5, 10, 0);
    let first = Namespaces::namespaces(1, kernel, &outcomes).unwrap();
    let second = Namespaces::namespaces(1, kernel, &outcomes).unwrap();
    assert_eq!(first, second);
}

#[test]
fn resolver_requests_only_gated_in_links() {
    // Below 3.8 only ipc and net are gated in: the machine must request
    // exactly those two links and touch nothing else.
    let mut r = Resolver::new(7, KernelVersion::new(3, 2, 0));
    let mut requested: Vec<String> = Vec::new();
    loop {
        match r.next_action() {
            Step::Done => break,
            Step::Read(path) => {
                requested.push(path);
                r.supply(&target("x:[1]")).unwrap();
            }
        }
    }
    assert_eq!(requested, vec!["/proc/7/ns/ipc".to_string(), "/proc/7/ns/net".to_string()]);
    let ns = r.finish();
    assert_eq!(ns.ipc, Some("x:[1]".to_string()));
    assert_eq!(ns.net, Some("x:[1]".to_string()));
    assert_eq!(ns.mnt, None);
}

#[test]
fn resolver_requests_nothing_on_an_ancient_kernel() {
    let mut r = Resolver::new(3, KernelVersion::new(2, 6, 32));
    match r.next_action() {
        Step::Done => {}
        Step::Read(path) => panic!("no link may be read on 2.6.32, got {}", path),
    }
    let ns = r.finish();
    assert_eq!(ns, Namespaces::default());
}

#[test]
fn resolver_stops_at_a_failed_read() {
    let mut r = Resolver::new(8, KernelVersion::new(5, 10, 0));
    let first = r.next_action();
    assert_eq!(first, Step::Read("/proc/8/ns/cgroup".to_string()));
    let err = r.supply(&LinkOutcome::OsError(OsErrorKind::NotFound)).unwrap_err();
    assert_eq!(err, ResolveError::Os(OsErrorKind::NotFound, "/proc/8/ns/cgroup".to_string()));
}

#[test]
fn default_record_is_empty() {
    let ns = Namespaces::default();
    assert_eq!(ns.cgroup, None);
    assert_eq!(ns.ipc, None);
    assert_eq!(ns.time_for_children, None);
}

#[test]
fn negative_pid_paths_are_built_as_written() {
    let mut r = Resolver::new(-42, KernelVersion::new(3, 2, 0));
    match r.next_action() {
        Step::Read(path) => assert_eq!(path, "/proc/-42/ns/ipc"),
        Step::Done => panic!("a 3.2.0 kernel has gated-in kinds"),
    }
}
