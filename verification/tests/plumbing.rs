use std::cell::Cell;

use karasync::config::{get_config, Config};
use karasync::hub::{InitClient, RPCErrorKind};
use karasync::logging::HandleResult;
use karasync::registry::Registry;
use karasync::session::{Session, SessionAction, SessionEvent};
use karasync::ssh_error::{ErrorCode, SSHError};
use karasync::text::{decimal_text, file_name, join_path_text, parse_port, same_text};
use karasync::transfer::{
    Auth, Direction, Entry, Password, ProjectUnify, TransferAction, TransferEvent,
};

#[test]
fn decimal_texts() {
    assert_eq!(decimal_text(0), "0");
    assert_eq!(decimal_text(10), "10");
    assert_eq!(decimal_text(4294967295), "4294967295");
}

#[test]
fn port_parsing() {
    assert_eq!(parse_port("22"), Some(22));
    assert_eq!(parse_port("+80"), Some(80));
    assert_eq!(parse_port("0080"), Some(80));
    assert_eq!(parse_port("65535"), Some(65535));
    assert_eq!(parse_port("65536"), None);
    assert_eq!(parse_port("99999999999999"), None);
    assert_eq!(parse_port(""), None);
    assert_eq!(parse_port("+"), None);
    assert_eq!(parse_port("-1"), None);
    assert_eq!(parse_port("8a"), None);
    assert_eq!(parse_port(" 8"), None);
    for p in ["22", "+22", "0", "65535", "65536", "", "x"] {
        assert_eq!(parse_port(p), p.parse::<u16>().ok());
    }
}

#[test]
fn port_text_round_trip() {
    for p in [0u16, 1, 22, 8080, 65535] {
        assert_eq!(parse_port(&decimal_text(p as u32)), Some(p));
    }
}

#[test]
fn file_names() {
    let cases = ["a/b", "a/b/", "a/b/.", "/", "..", "a/..", ".", "abc", "", "./", "a//b", "/x/.y"];
    for c in cases {
        let expected = std::path::Path::new(c).file_name().map(|s| s.to_str().unwrap().to_string());
        assert_eq!(file_name(c), expected, "{}", c);
    }
}

#[test]
fn path_joins() {
    let cases = [("a", "b"), ("a/", "b"), ("", "b"), ("a", "/b"), ("/r/x", "y.txt")];
    for (base, name) in cases {
        let expected = std::path::Path::new(base).join(name).to_str().unwrap().to_string();
        assert_eq!(join_path_text(base, name), expected);
    }
}

#[test]
fn text_equality() {
    assert!(same_text("abc", "abc"));
    assert!(!same_text("abc", "abd"));
    assert!(!same_text("ab", "abc"));
}

fn sample_args(port: &str) -> Vec<String> {
    vec!["/data".to_string(), "127.0.0.1".to_string(), port.to_string(), "me".to_string(), "me@x".to_string()]
}

#[test]
fn config_from_args_and_host() {
    let c = Config::from_args(&sample_args("8080")).unwrap();
    assert_eq!(c.data_dir, "/data");
    assert_eq!(c.port, 8080);
    assert_eq!(c.name, "me");
    assert_eq!(c.email, "me@x");
    assert_eq!(c.host(), "127.0.0.1:8080");
    assert_eq!(c.log_file(), "/data/karasync.log");
    let copy = get_config(&c);
    assert_eq!(copy.host(), c.host());
    assert!(Config::from_args(&sample_args("70000")).is_none());
    let mut short = sample_args("1");
    short.pop();
    assert!(Config::from_args(&short).is_none());
}

#[test]
fn ssh_errors() {
    let e = SSHError::sinp(ErrorCode::ReadExec, "no output");
    assert_eq!(e.code, ErrorCode::ReadExec);
    assert_eq!(e.msg, "no output");
    assert_eq!(e.text(), "Failed: no output");
    assert_eq!(ErrorCode::Exec.name(), "Exec");
}

#[test]
fn expect_log_calls_one_handler() {
    let oks = Cell::new(0);
    let errs = Cell::new(0);
    let r: Result<i32, String> = Ok(3);
    r.expect_log(|v| oks.set(oks.get() + v), |_e| errs.set(errs.get() + 1));
    let r: Result<i32, String> = Err("x".to_string());
    r.expect_log(|v| oks.set(oks.get() + v), |_e| errs.set(errs.get() + 1));
    assert_eq!(oks.get(), 3);
    assert_eq!(errs.get(), 1);
}

#[test]
fn registry_read_after_write() {
    let mut r: Registry<u32> = Registry::new();
    let a = "a".to_string();
    let b = "b".to_string();
    assert_eq!(r.insert(a.clone(), 1), None);
    assert_eq!(r.insert(b.clone(), 2), None);
    assert_eq!(r.get(&a), Some(&1));
    assert_eq!(r.insert(a.clone(), 3), Some(1));
    assert_eq!(r.get(&a), Some(&3));
    assert_eq!(r.get(&b), Some(&2));
    assert_eq!(r.remove(&a), Some(3));
    assert!(!r.contains(&a));
    assert_eq!(r.remove(&a), None);
    assert!(r.contains(&b));
}

#[test]
fn session_logs_in_forwards_and_unregisters() {
    let (mut s, first) = Session::start();
    assert_eq!(first, SessionAction::Greet);
    assert_eq!(s.step(SessionEvent::GreetingSent(true)), SessionAction::ReadLogin);
    let login = InitClient { id: "c1".to_string(), path: "/p".to_string() };
    assert_eq!(
        s.step(SessionEvent::LoginFrame(Ok(Some(login)))),
        SessionAction::Register { id: "c1".to_string(), path: "/p".to_string() }
    );
    let frame = "{\"code\":\"UploadProject\"}".to_string();
    assert_eq!(
        s.step(SessionEvent::Frame(Ok(frame.clone()))),
        SessionAction::Forward { id: "c1".to_string(), frame: frame.clone() }
    );
    assert_eq!(s.step(SessionEvent::Forwarded(true)), SessionAction::ReadFrame);
    assert_eq!(
        s.step(SessionEvent::Frame(Ok("[1,2]".to_string()))),
        SessionAction::Forward { id: "c1".to_string(), frame: "[1,2]".to_string() }
    );
    assert_eq!(s.step(SessionEvent::Forwarded(true)), SessionAction::ReadFrame);
    assert_eq!(s.step(SessionEvent::Frame(Err(RPCErrorKind::Parse))), SessionAction::ReadFrame);
    assert_eq!(
        s.step(SessionEvent::Frame(Err(RPCErrorKind::ReadZero))),
        SessionAction::Unregister { id: "c1".to_string() }
    );
    assert!(s.is_closed());
    assert_eq!(s.step(SessionEvent::Frame(Ok("{}".to_string()))), SessionAction::Idle);
}

#[test]
fn session_failed_logins_close() {
    let (mut s, _) = Session::start();
    assert_eq!(s.step(SessionEvent::GreetingSent(false)), SessionAction::Close);
    let (mut s, _) = Session::start();
    s.step(SessionEvent::GreetingSent(true));
    assert_eq!(s.step(SessionEvent::LoginTimedOut), SessionAction::Close);
    let (mut s, _) = Session::start();
    s.step(SessionEvent::GreetingSent(true));
    assert_eq!(s.step(SessionEvent::LoginFrame(Ok(None))), SessionAction::Close);
    let (mut s, _) = Session::start();
    s.step(SessionEvent::GreetingSent(true));
    assert_eq!(s.step(SessionEvent::Frame(Ok("{}".to_string()))), SessionAction::ReadLogin);
    assert_eq!(
        s.step(SessionEvent::LoginFrame(Err(RPCErrorKind::Disconnect))),
        SessionAction::Close
    );
    let (mut s, _) = Session::start();
    s.step(SessionEvent::GreetingSent(true));
    s.step(SessionEvent::LoginFrame(Ok(Some(InitClient { id: "z".to_string(), path: String::new() }))));
    s.step(SessionEvent::Frame(Ok("{}".to_string())));
    assert_eq!(s.step(SessionEvent::Forwarded(false)), SessionAction::Unregister { id: "z".to_string() });
}

fn item(name: &str, is_dir: bool) -> Entry {
    Entry::Item { name: Some(name.to_string()), is_dir }
}

#[test]
fn upload_walks_depth_first() {
    let auth = Auth { addr: "127.0.0.1:22", user: "root", auth: Password::Password("pw".to_string()) };
    let (mut t, first) = ProjectUnify::upload(&auth, "/local", "/remote");
    assert_eq!(first, TransferAction::Connect { addr: "127.0.0.1:22".to_string() });
    assert_eq!(t.direction(), Direction::Upload);
    assert_eq!(t.step(TransferEvent::Done), TransferAction::Handshake);
    assert_eq!(
        t.step(TransferEvent::Done),
        TransferAction::AuthPassword { user: "root".to_string(), password: "pw".to_string() }
    );
    assert_eq!(t.step(TransferEvent::Done), TransferAction::OpenSftp);
    assert_eq!(t.step(TransferEvent::Done), TransferAction::MakeDir { path: "/remote".to_string() });
    assert_eq!(t.step(TransferEvent::Failed("exists".to_string())), TransferAction::List { path: "/local".to_string() });
    assert_eq!(
        t.step(TransferEvent::Listed(vec![item("a", false), item("d", true), item("b", false)])),
        TransferAction::Copy { src: "/local/a".to_string(), dst: "/remote/a".to_string() }
    );
    assert_eq!(t.step(TransferEvent::Done), TransferAction::MakeDir { path: "/remote/d".to_string() });
    assert_eq!(t.step(TransferEvent::Done), TransferAction::List { path: "/local/d".to_string() });
    assert_eq!(
        t.step(TransferEvent::Listed(vec![item("x", false)])),
        TransferAction::Copy { src: "/local/d/x".to_string(), dst: "/remote/d/x".to_string() }
    );
    assert_eq!(
        t.step(TransferEvent::Done),
        TransferAction::Copy { src: "/local/b".to_string(), dst: "/remote/b".to_string() }
    );
    assert_eq!(t.step(TransferEvent::Done), TransferAction::Finish(Ok(())));
    assert!(t.is_finished());
    assert_eq!(t.step(TransferEvent::Done), TransferAction::Finish(Ok(())));
}

#[test]
fn download_skips_nameless_and_stops_on_errors() {
    let auth = Auth { addr: "h:22", user: "u", auth: Password::Sshkey };
    let (mut t, _) = ProjectUnify::download(&auth, "/srv", "/home");
    assert_eq!(t.direction(), Direction::Download);
    t.step(TransferEvent::Done);
    assert_eq!(t.step(TransferEvent::Done), TransferAction::AuthAgent { user: "u".to_string() });
    t.step(TransferEvent::Done);
    assert_eq!(t.step(TransferEvent::Done), TransferAction::List { path: "/srv".to_string() });
    let entries = vec![
        Entry::Item { name: None, is_dir: false },
        item("f", false),
        Entry::Broken("bad entry".to_string()),
        item("g", false),
    ];
    assert_eq!(
        t.step(TransferEvent::Listed(entries)),
        TransferAction::Copy { src: "/srv/f".to_string(), dst: "/home/f".to_string() }
    );
    assert_eq!(t.step(TransferEvent::Done), TransferAction::Finish(Err("bad entry".to_string())));
    assert!(t.is_finished());
}

#[test]
fn transfer_failure_ends_it() {
    let auth = Auth { addr: "h:22", user: "u", auth: Password::Sshkey };
    let (mut t, _) = ProjectUnify::download(&auth, "/srv", "/home");
    assert_eq!(t.step(TransferEvent::Done), TransferAction::Handshake);
    assert_eq!(
        t.step(TransferEvent::Failed("handshake failed".to_string())),
        TransferAction::Finish(Err("handshake failed".to_string()))
    );
    assert_eq!(t.step(TransferEvent::Done), TransferAction::Finish(Err("handshake failed".to_string())));
    let (mut t, _) = ProjectUnify::upload(&auth, "/l", "/r");
    for _ in 0..3 {
        t.step(TransferEvent::Done);
    }
    t.step(TransferEvent::Done);
    t.step(TransferEvent::Done);
    assert_eq!(
        t.step(TransferEvent::Failed("read_dir".to_string())),
        TransferAction::Finish(Err("read_dir".to_string()))
    );
}
