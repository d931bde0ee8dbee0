use nsexec::Action;
use nsexec::Event;
use nsexec::FailureReason;
use nsexec::NSExecutor;
use nsexec::Orchestrator;
use nsexec::Table;
use nsexec::Volume;

fn vol(s: &str) -> Volume {
    Volume::from_str(s).unwrap()
}

#[test]
fn no_volumes_short_circuits_to_joining() {
    let mut m = Orchestrator::new(42, Vec::new());
    let a = m.step(Event::Begin);
    let paths = match a {
        Action::JoinNamespaces { paths } => paths,
        other => panic!("expected JoinNamespaces, got {:?}", other),
    };
    let paths: Vec<&str> = paths.iter().map(|p| p.as_str()).collect();
    assert_eq!(
        paths,
        [
            "/proc/42/ns/mnt",
            "/proc/42/ns/uts",
            "/proc/42/ns/ipc",
            "/proc/42/ns/pid",
            "/proc/42/ns/net"
        ]
    );
    let a = m.step(Event::Completed);
    assert!(matches!(a, Action::Exec));
}

#[test]
fn validation_reports_every_missing_source() {
    let mut m = Orchestrator::new(1, vec![vol("/x"), vol("/y"), vol("/z")]);
    let a = m.step(Event::Begin);
    let sources = match a {
        Action::CheckSources { sources } => sources,
        other => panic!("expected CheckSources, got {:?}", other),
    };
    let sources: Vec<&str> = sources.iter().map(|p| p.as_str()).collect();
    assert_eq!(sources, ["/x", "/y", "/z"]);
    let a = m.step(Event::SourcesChecked { exists: vec![true, false, false] });
    let missing = match a {
        Action::Abort { reason: FailureReason::MissingSources { missing } } => missing,
        other => panic!("expected a missing-sources abort, got {:?}", other),
    };
    let missing: Vec<&str> = missing.iter().map(|p| p.as_str()).collect();
    assert_eq!(missing, ["/y", "/z"]);
}

#[test]
fn os_failure_aborts_with_the_message() {
    let mut m = Orchestrator::new(1, vec![vol("/data")]);
    m.step(Event::Begin);
    m.step(Event::SourcesChecked { exists: vec![true] });
    let a = m.step(Event::OsFailure { message: "permission denied".to_string() });
    match a {
        Action::Abort { reason: FailureReason::Os { message } } => {
            assert_eq!(message.as_str(), "permission denied");
        },
        other => panic!("expected an OS abort, got {:?}", other),
    }
}

#[test]
fn unexpected_event_is_a_protocol_abort() {
    let mut m = Orchestrator::new(1, vec![vol("/data")]);
    let a = m.step(Event::Completed);
    assert!(matches!(a, Action::Abort { reason: FailureReason::Protocol }));
}

#[test]
fn unparsable_table_aborts() {
    let mut m = Orchestrator::new(1, vec![vol("/data")]);
    m.step(Event::Begin);
    let a = m.step(Event::SourcesChecked { exists: vec![true] });
    assert!(matches!(a, Action::ReadMountTable));
    let a = m.step(Event::TableRead { content: "garbage\n".to_string() });
    assert!(matches!(
        a,
        Action::Abort { reason: FailureReason::UnreadableTable { .. } }
    ));
}

#[test]
fn missing_capture_aborts_with_the_source() {
    let host = "20 1 8:1 / / rw - ext4 /dev/sda1 rw\n";
    let mut m = Orchestrator::new(1, vec![vol("/data")]);
    m.step(Event::Begin);
    m.step(Event::SourcesChecked { exists: vec![true] });
    m.step(Event::TableRead { content: host.to_string() });
    m.step(Event::Completed);
    let a = m.step(Event::Completed);
    assert!(matches!(a, Action::ReadMountTable));
    // the re-snapshot still shows nothing at /data
    let a = m.step(Event::TableRead { content: host.to_string() });
    match a {
        Action::Abort { reason: FailureReason::EntryNotCaptured { source } } => {
            assert_eq!(source.as_str(), "/data");
        },
        other => panic!("expected an entry-not-captured abort, got {:?}", other),
    }
}

/// The full protocol for one volume `/data:/mnt/data` whose source is an
/// ordinary directory, not yet a mount point.
#[test]
fn end_to_end_single_volume() {
    let host = "20 1 8:1 / / rw - ext4 /dev/sda1 rw\n";
    let rebound = "\
20 1 8:1 / / rw - ext4 /dev/sda1 rw\n\
57 20 8:2 /data /data rw - ext4 /dev/sda1 rw\n";

    let mut m = Orchestrator::new(77, vec![vol("/data:/mnt/data")]);

    let a = m.step(Event::Begin);
    match a {
        Action::CheckSources { sources } => {
            assert_eq!(sources.len(), 1);
            assert_eq!(sources[0].as_str(), "/data");
        },
        other => panic!("expected CheckSources, got {:?}", other),
    }

    // the source exists: the host mount table is snapshotted
    let a = m.step(Event::SourcesChecked { exists: vec![true] });
    assert!(matches!(a, Action::ReadMountTable));

    // /data is no mount point in the host view: isolate, then self-bind it
    let a = m.step(Event::TableRead { content: host.to_string() });
    assert!(matches!(a, Action::UnshareMount));
    let a = m.step(Event::Completed);
    match a {
        Action::BindMounts { paths } => {
            assert_eq!(paths.len(), 1);
            assert_eq!(paths[0].as_str(), "/data");
        },
        other => panic!("expected BindMounts, got {:?}", other),
    }

    // re-snapshot: the new entry for /data is captured, with a device
    // number distinct from its parent filesystem's
    let a = m.step(Event::Completed);
    assert!(matches!(a, Action::ReadMountTable));
    let a = m.step(Event::TableRead { content: rebound.to_string() });
    let unmount_paths = match a {
        Action::Unmounts { paths } => paths,
        other => panic!("expected Unmounts, got {:?}", other),
    };
    assert_eq!(unmount_paths.len(), 1);
    assert_eq!(unmount_paths[0].as_str(), "/data");

    // teardown done: join the target's namespaces in the fixed order
    let a = m.step(Event::Completed);
    let join_paths = match a {
        Action::JoinNamespaces { paths } => paths,
        other => panic!("expected JoinNamespaces, got {:?}", other),
    };
    assert_eq!(join_paths[0].as_str(), "/proc/77/ns/mnt");
    assert_eq!(join_paths[4].as_str(), "/proc/77/ns/net");

    // re-isolate inside the target, then replay the captured identity
    let a = m.step(Event::Completed);
    assert!(matches!(a, Action::UnshareMount));
    let a = m.step(Event::Completed);
    let mounts = match a {
        Action::ApplyMounts { mounts } => mounts,
        other => panic!("expected ApplyMounts, got {:?}", other),
    };
    assert_eq!(mounts.len(), 1);
    let fs = mounts[0].fs().unwrap();
    let parent = {
        let t = Table::from_text(host).unwrap();
        t.find_target("/").unwrap().clone()
    };
    assert_eq!(fs.devno(), 8 * 0x1_0000_0000 + 2);
    assert_ne!(fs.devno(), parent.devno());
    assert_eq!(fs.fstype().as_str(), "ext4");
    assert_eq!(fs.root().as_str(), "/data");
    assert_eq!(mounts[0].target().unwrap().as_str(), "/mnt/data");

    // everything applied: hand over
    let a = m.step(Event::Completed);
    assert!(matches!(a, Action::Exec));

    // afterwards a fresh snapshot of the target's table shows the mount
    let target_view = "\
90 89 8:2 /data /mnt/data rw - ext4 /dev/sda1 rw\n";
    let t = Table::from_text(target_view).unwrap();
    let seen = t.find_target("/mnt/data").unwrap();
    assert_eq!(seen.devno(), fs.devno());
    assert_eq!(seen.fstype().as_str(), "ext4");
}

#[test]
fn already_mounted_source_is_not_self_bound() {
    // /data is already a mount point in the host view
    let host = "\
20 1 8:1 / / rw - ext4 /dev/sda1 rw\n\
30 20 8:9 / /data rw - xfs /dev/sdc1 rw\n";
    let mut m = Orchestrator::new(5, vec![vol("/data:/mnt/data")]);
    m.step(Event::Begin);
    m.step(Event::SourcesChecked { exists: vec![true] });
    m.step(Event::TableRead { content: host.to_string() });
    let a = m.step(Event::Completed);
    match a {
        Action::BindMounts { paths } => assert!(paths.is_empty()),
        other => panic!("expected BindMounts, got {:?}", other),
    }
    let a = m.step(Event::Completed);
    assert!(matches!(a, Action::ReadMountTable));
    let a = m.step(Event::TableRead { content: host.to_string() });
    match a {
        Action::Unmounts { paths } => assert!(paths.is_empty()),
        other => panic!("expected Unmounts, got {:?}", other),
    }
}

#[test]
fn executor_defaults_the_command_to_a_shell() {
    let e = NSExecutor::new(9, vec![vol("/data")], Vec::new());
    assert_eq!(e.command_args.len(), 1);
    assert_eq!(e.command_args[0].as_str(), "sh");
    assert_eq!(e.volumes().len(), 1);
    let e = NSExecutor::new(9, Vec::new(), vec!["ls".to_string(), "-l".to_string()]);
    assert_eq!(e.command_args.len(), 2);
    let m = e.orchestrator();
    assert_eq!(m.pid, 9);
    assert!(matches!(m.phase, nsexec::Phase::Start));
}
