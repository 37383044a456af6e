use karasync::project::{
    copy_message, CloneAction, CloneEntry, CloneEvent, CloneRun, CopyOutcome, PushAction,
    PushEvent, PushRun,
};
use karasync::structs::{AsyncGitClone, Project, SSHLoginType};
use karasync::text::is_ipv4;

fn clone_conf() -> AsyncGitClone {
    AsyncGitClone {
        host: "10.0.0.1:22".to_string(),
        path: "/srv/proj".to_string(),
        save_dir: "/data".to_string(),
        user: "u".to_string(),
        password: "pw".to_string(),
    }
}

fn entry(name: &str, is_dir: bool) -> CloneEntry {
    CloneEntry { name: name.to_string(), is_dir }
}

fn notify(msg: &str, index: u32, count: u32) -> CloneAction {
    CloneAction::Notify { msg: msg.to_string(), index, count }
}

#[test]
fn copy_messages() {
    assert_eq!(copy_message(&CopyOutcome::OpenFailed("no such file".to_string()), "/d/a", "a"), "faild: no such file");
    assert_eq!(
        copy_message(&CopyOutcome::CreateFailed("denied".to_string()), "/d/a", "a"),
        "faild: create file /d/a => denied"
    );
    assert_eq!(copy_message(&CopyOutcome::WriteFailed, "/d/a", "a"), "faild: write file /d/a");
    assert_eq!(copy_message(&CopyOutcome::Copied, "/d/a", "a"), "sucessfully: downloaded file a");
}

#[test]
fn clone_walks_reports_and_records() {
    let conf = clone_conf();
    let (mut run, first) = CloneRun::start(&conf);
    assert_eq!(first, CloneAction::ParseHost { text: "10.0.0.1:22".to_string() });
    assert_eq!(
        run.step(CloneEvent::HostParsed(Ok(("10.0.0.1".to_string(), 22)))),
        CloneAction::Connect {
            ip: "10.0.0.1".to_string(),
            port: 22,
            user: "u".to_string(),
            login: SSHLoginType::SSHPASSWORD("pw".to_string()),
        }
    );
    assert_eq!(run.step(CloneEvent::Done), CloneAction::OpenSftp);
    assert_eq!(run.step(CloneEvent::Done), CloneAction::MakeDir { path: "/data/proj".to_string() });
    assert_eq!(run.step(CloneEvent::Done), CloneAction::List { path: "/srv/proj".to_string() });
    assert_eq!(
        run.step(CloneEvent::Listed(vec![entry("a", false), entry("d", true)])),
        CloneAction::CopyFile { src: "/srv/proj/a".to_string(), dst: "/data/proj/a".to_string() }
    );
    assert_eq!(
        run.step(CloneEvent::Copied(CopyOutcome::WriteFailed)),
        notify("faild: write file /data/proj/a", 1, 2)
    );
    assert_eq!(run.step(CloneEvent::Done), CloneAction::MakeDir { path: "/data/proj/d".to_string() });
    assert_eq!(run.step(CloneEvent::Done), CloneAction::List { path: "/srv/proj/d".to_string() });
    assert_eq!(
        run.step(CloneEvent::Listed(vec![entry("x", false), entry("e", true)])),
        CloneAction::CopyFile { src: "/srv/proj/d/x".to_string(), dst: "/data/proj/d/x".to_string() }
    );
    assert_eq!(
        run.step(CloneEvent::Copied(CopyOutcome::OpenFailed("gone".to_string()))),
        CloneAction::MakeDir { path: "/data/proj/d/e".to_string() }
    );
    assert_eq!(run.step(CloneEvent::Done), CloneAction::List { path: "/srv/proj/d/e".to_string() });
    assert_eq!(run.step(CloneEvent::Listed(vec![])), notify("sucessfully: downloaded file d", 2, 2));
    assert_eq!(
        run.step(CloneEvent::Done),
        CloneAction::WriteRecord {
            path: "/data/proj/.project.json".to_string(),
            project: Project {
                user: "u".to_string(),
                remote: "10.0.0.1:22".to_string(),
                login: SSHLoginType::SSHPASSWORD("pw".to_string()),
            },
        }
    );
    assert_eq!(run.step(CloneEvent::Done), CloneAction::Finish(Ok(())));
    assert!(run.is_finished());
    assert_eq!(run.step(CloneEvent::Done), CloneAction::Finish(Ok(())));
}

#[test]
fn clone_failures_before_the_walk() {
    let conf = clone_conf();
    let (mut run, _) = CloneRun::start(&conf);
    assert_eq!(
        run.step(CloneEvent::HostParsed(Err("invalid socket address syntax".to_string()))),
        CloneAction::Finish(Err("invalid socket address syntax".to_string()))
    );
    let (mut run, _) = CloneRun::start(&conf);
    run.step(CloneEvent::HostParsed(Ok(("10.0.0.1".to_string(), 22))));
    run.step(CloneEvent::Done);
    run.step(CloneEvent::Done);
    run.step(CloneEvent::Done);
    assert_eq!(
        run.step(CloneEvent::Failed("no such dir".to_string())),
        CloneAction::Finish(Err("no such dir".to_string()))
    );
    let (mut run, _) = CloneRun::start(&conf);
    run.step(CloneEvent::HostParsed(Ok(("10.0.0.1".to_string(), 22))));
    run.step(CloneEvent::Done);
    run.step(CloneEvent::Done);
    run.step(CloneEvent::Done);
    assert!(matches!(run.step(CloneEvent::Listed(vec![])), CloneAction::WriteRecord { .. }));
    assert_eq!(
        run.step(CloneEvent::Failed("read-only".to_string())),
        CloneAction::Finish(Err("read-only".to_string()))
    );
}

#[test]
fn clone_of_a_path_without_a_name_fails_after_sftp() {
    let mut conf = clone_conf();
    conf.path = "/".to_string();
    let (mut run, first) = CloneRun::start(&conf);
    assert_eq!(first, CloneAction::ParseHost { text: conf.host.clone() });
    run.step(CloneEvent::HostParsed(Ok(("10.0.0.1".to_string(), 22))));
    assert_eq!(run.step(CloneEvent::Done), CloneAction::OpenSftp);
    assert_eq!(
        run.step(CloneEvent::Done),
        CloneAction::Finish(Err("faild: the remote path has no file name".to_string()))
    );
    assert!(run.is_finished());
}

fn project() -> Project {
    Project {
        user: "u".to_string(),
        remote: "10.0.0.2:2222".to_string(),
        login: SSHLoginType::SSHKEY("k".to_string()),
    }
}

#[test]
fn push_reports_each_entry() {
    let (mut run, first) = PushRun::start(&project(), "/work/p");
    assert_eq!(first, PushAction::ParseHost { text: "10.0.0.2:2222".to_string() });
    assert_eq!(
        run.step(PushEvent::HostParsed(Ok(("10.0.0.2".to_string(), 2222)))),
        PushAction::Connect {
            ip: "10.0.0.2".to_string(),
            port: 2222,
            user: "u".to_string(),
            login: SSHLoginType::SSHKEY("k".to_string()),
        }
    );
    assert_eq!(run.step(PushEvent::Done), PushAction::OpenSftp);
    assert_eq!(run.step(PushEvent::Done), PushAction::ListLocal { path: "/work/p".to_string() });
    let entries = vec![Ok("/work/p/a".to_string()), Ok("/work/p/b".to_string())];
    assert_eq!(
        run.step(PushEvent::LocalListed { entries, count: 2 }),
        PushAction::PushEntry { path: "/work/p/a".to_string(), to: "/work/p".to_string() }
    );
    assert_eq!(
        run.step(PushEvent::Pushed(String::new())),
        PushAction::Notify { msg: String::new(), index: 1, count: 2 }
    );
    assert_eq!(
        run.step(PushEvent::Done),
        PushAction::PushEntry { path: "/work/p/b".to_string(), to: "/work/p".to_string() }
    );
    assert_eq!(
        run.step(PushEvent::Pushed("x".to_string())),
        PushAction::Notify { msg: "x".to_string(), index: 2, count: 2 }
    );
    assert_eq!(run.step(PushEvent::Done), PushAction::Notify { msg: String::new(), index: 100, count: 100 });
    assert_eq!(run.step(PushEvent::Done), PushAction::Finish(Ok(())));
    assert!(run.is_finished());
}

#[test]
fn push_stops_at_an_unreadable_entry() {
    let (mut run, _) = PushRun::start(&project(), "/work/p");
    run.step(PushEvent::HostParsed(Ok(("10.0.0.2".to_string(), 2222))));
    run.step(PushEvent::Done);
    run.step(PushEvent::Done);
    let entries = vec![Ok("/work/p/a".to_string()), Err("bad entry".to_string()), Ok("/work/p/c".to_string())];
    run.step(PushEvent::LocalListed { entries, count: 3 });
    run.step(PushEvent::Pushed(String::new()));
    assert_eq!(run.step(PushEvent::Done), PushAction::Finish(Err("bad entry".to_string())));
    let (mut run, _) = PushRun::start(&project(), "/work/p");
    assert_eq!(
        run.step(PushEvent::HostParsed(Err("invalid socket address syntax".to_string()))),
        PushAction::Finish(Err("invalid socket address syntax".to_string()))
    );
}

#[test]
fn ipv4_texts() {
    let accepted = ["127.0.0.1", "0.0.0.0", "255.255.255.255", "10.0.0.10"];
    let refused = [
        "256.0.0.1", "01.2.3.4", "1.2.3", "1.2.3.4.5", "1..3.4", "", "a.b.c.d", "1.2.3.4 ",
        "+1.2.3.4", "1.2.3.0004",
    ];
    for c in accepted {
        assert!(is_ipv4(c), "{}", c);
    }
    for c in refused {
        assert!(!is_ipv4(c), "{}", c);
    }
}
