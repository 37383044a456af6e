use karasync::code::{route, MessageCode};
use karasync::hub;
use karasync::processing::{
    clone_finished, clone_request_rejected, faild_process, not_json_reply, project_record_path,
    repr_message, welcome_message,
};
use karasync::rpc::{classify_frame, Inbound, RPCErrorKind as ServerErrorKind};
use karasync::structs::{Message, ReprMessage, ReprMessageMsg};
use karasync::tasks::{download_reply, invalid_param_reply, route_request, upload_reply, Dispatch};

const ALL_CODES: [MessageCode; 6] = [
    MessageCode::ConnectedOk,
    MessageCode::InvalidCode,
    MessageCode::PushProjected,
    MessageCode::CloneProjected,
    MessageCode::ReprMessage,
    MessageCode::ExitServer,
];

#[test]
fn test_stirng_to_enum() {
    let code = "CloneProjected";
    let parsed = route(code);
    match parsed {
        MessageCode::CloneProjected => println!("Ok"),
        _ => panic!("Error"),
    }
}

#[test]
fn test_repr_message() {
    let text = repr_message("asd", MessageCode::CloneProjected, "test", 109);
    assert_eq!(
        text,
        r#"{"code":"ReprMessage","id":"asd","msg":{"code":"CloneProjected","process":109,"body":"test"}}"#
    );
}

#[test]
fn code_names_round_trip() {
    for c in ALL_CODES {
        assert_eq!(MessageCode::from_name(c.name()), Some(c));
        assert_eq!(route(c.name()), c);
    }
    assert_eq!(MessageCode::from_name("cloneprojected"), None);
}

#[test]
fn route_unknown_and_escaped_codes() {
    assert_eq!(route("Nope"), MessageCode::InvalidCode);
    assert_eq!(route(""), MessageCode::InvalidCode);
    assert_eq!(route("Exit\"Server"), MessageCode::InvalidCode);
    // the code text is read as the body of a JSON string, so escapes count
    assert_eq!(route("Exit\\u0053erver"), MessageCode::ExitServer);
}

#[test]
fn reply_bodies_are_escaped() {
    let text = repr_message("a\"b", MessageCode::ConnectedOk, "line\nnext\\\u{1}", 0);
    assert_eq!(
        text,
        "{\"code\":\"ReprMessage\",\"id\":\"a\\\"b\",\"msg\":{\"code\":\"ConnectedOk\",\"process\":0,\"body\":\"line\\nnext\\\\\\u0001\"}}"
    );
}

#[test]
fn repr_message_large_progress() {
    let text = repr_message("", MessageCode::ExitServer, "", 4294967295);
    assert_eq!(
        text,
        r#"{"code":"ReprMessage","id":"","msg":{"code":"ExitServer","process":4294967295,"body":""}}"#
    );
}

#[test]
fn structs_render_as_serde_does() {
    let m = Message { msg: "hi".to_string(), code: MessageCode::InvalidCode };
    assert_eq!(m.to_json(), r#"{"msg":"hi","code":"InvalidCode"}"#);
    let r = ReprMessage {
        code: MessageCode::PushProjected,
        id: "7".to_string(),
        msg: ReprMessageMsg { code: MessageCode::ConnectedOk, process: 5, body: "b".to_string() },
    };
    assert_eq!(
        r.to_json(),
        r#"{"code":"PushProjected","id":"7","msg":{"code":"ConnectedOk","process":5,"body":"b"}}"#
    );
}

#[test]
fn faild_process_reply() {
    assert_eq!(
        faild_process("Upload", "42"),
        r#"{"code":"ReprMessage","id":"42","msg":{"code":"InvalidCode","process":100,"body":"faild: not find `Upload` processing task"}}"#
    );
}

#[test]
fn welcome_and_not_json_replies() {
    assert_eq!(
        welcome_message(),
        r#"{"code":"ReprMessage","id":"nil","msg":{"code":"ConnectedOk","process":100,"body":"Welcome to Karasync"}}"#
    );
    assert_eq!(
        not_json_reply(17),
        r#"{"msg":"failed to parse JSON from received data, length = 17","code":"InvalidCode"}"#
    );
}

#[test]
fn clone_replies() {
    assert_eq!(clone_request_rejected("missing field"), "Faile: json to AsyncTask<AsyncGitClone> missing field");
    assert_eq!(
        clone_finished("9", MessageCode::CloneProjected, "proj", &Ok(())),
        r#"{"code":"ReprMessage","id":"9","msg":{"code":"CloneProjected","process":100,"body":"Sucessfully: clone project proj"}}"#
    );
    assert_eq!(
        clone_finished("9", MessageCode::CloneProjected, "proj", &Err("disk full".to_string())),
        r#"{"code":"ReprMessage","id":"9","msg":{"code":"CloneProjected","process":100,"body":"faild: update project conf disk full"}}"#
    );
    assert_eq!(project_record_path("/data", "root", "proj"), "/data/root/proj");
}

#[test]
fn hub_messages() {
    assert_eq!(hub::repr_message("1", "Code", "m"), r#"{"code":"Code","msgid":"1","msg":"m"}"#);
    assert_eq!(
        hub::ok_message(),
        r#"{"code":"ConnectedOk","msgid":"nil","msg":"Welcome to Karasync"}"#
    );
}

fn padded(text: &str, size: usize) -> Vec<u8> {
    let mut buf = text.as_bytes().to_vec();
    buf.resize(size, 0);
    buf
}

#[test]
fn read_frame_outcomes() {
    let buf = padded("{\"id\":\"c1\",\"path\":\"/p\"}", 64);
    let n = "{\"id\":\"c1\",\"path\":\"/p\"}".len();
    assert_eq!(hub::read_frame(&buf, Some(n)).unwrap(), "{\"id\":\"c1\",\"path\":\"/p\"}");

    let e = hub::read_frame(&buf, None).unwrap_err();
    assert_eq!(e.kind, hub::RPCErrorKind::Disconnect);
    assert_eq!(e.text(), "connection is Disconnect");

    let e = hub::read_frame(&buf, Some(0)).unwrap_err();
    assert_eq!(e.kind, hub::RPCErrorKind::ReadZero);
    assert_eq!(e.msg, "filad: Read socket fd is zero");

    let mut bad = padded("{}", 8);
    bad[6] = 0xff;
    let e = hub::read_frame(&bad, Some(2)).unwrap_err();
    assert_eq!(e.kind, hub::RPCErrorKind::ReadZero);
    assert_eq!(e.msg, "faild: socket buffer is not parse");

    let text = padded("{not json", 16);
    let e = hub::read_frame(&text, Some(9)).unwrap_err();
    assert_eq!(e.kind, hub::RPCErrorKind::Parse);
    assert_eq!(e.msg, "message parse json");
}

#[test]
fn classify_frame_outcomes() {
    let buf = padded("{\"code\":\"X\"}", 32);
    match classify_frame(&buf, Some(12)) {
        Inbound::Task(t) => assert_eq!(t, "{\"code\":\"X\"}"),
        other => panic!("{:?}", other),
    }
    match classify_frame(&buf, None) {
        Inbound::Quit(e) => {
            assert_eq!(e.kind, ServerErrorKind::Disconnect);
            assert_eq!(e.msg, "failed to read from socket");
        },
        other => panic!("{:?}", other),
    }
    match classify_frame(&buf, Some(0)) {
        Inbound::Quit(e) => assert_eq!(e.msg, "client quit"),
        other => panic!("{:?}", other),
    }
    let mut bad = buf.clone();
    bad[20] = 0xc3;
    assert!(matches!(classify_frame(&bad, Some(12)), Inbound::Skip));
    let text = padded("hello", 8);
    match classify_frame(&text, Some(5)) {
        Inbound::Reply(r) => assert_eq!(
            r,
            r#"{"msg":"failed to parse JSON from received data, length = 5","code":"InvalidCode"}"#
        ),
        other => panic!("{:?}", other),
    }
}

#[test]
fn hub_request_routing() {
    let upload = hub::ReprMessage {
        code: "UploadProject".to_string(),
        msgid: "3".to_string(),
        msg: "/p/.project.json".to_string(),
    };
    assert_eq!(route_request(&Ok(upload)), Dispatch::Upload("/p/.project.json".to_string()));
    let other = hub::ReprMessage {
        code: "Other".to_string(),
        msgid: "4".to_string(),
        msg: String::new(),
    };
    assert_eq!(
        route_request(&Ok(other)),
        Dispatch::Reply(r#"{"code":"InvalidCode","msgid":"4","msg":"not find code handle"}"#.to_string())
    );
    assert_eq!(
        route_request(&Err("missing field `code`".to_string())),
        Dispatch::Reply(r#"{"code":"InvalidCode","msgid":"nil","msg":"missing field `code`"}"#.to_string())
    );
}

#[test]
fn transfer_replies() {
    assert_eq!(
        upload_reply(&Ok(())),
        r#"{"code":"UploadProject","msgid":"nil","msg":"{\"code\":\"Ok\"}"}"#
    );
    assert_eq!(
        upload_reply(&Err("no route".to_string())),
        r#"{"code":"UploadProject","msgid":"nil","msg":"{\"code\":\"Failed\",\"msg\":\"no route\"}"}"#
    );
    assert_eq!(
        download_reply("5", "DownloadProject", &Ok(())),
        r#"{"code":"DownloadProject","msgid":"5","msg":"{\"code\":\"OK\"}"}"#
    );
    assert_eq!(
        invalid_param_reply(),
        r#"{"code":"nil","msgid":"InvalidParam","msg":"Instruction parameter error"}"#
    );
}

#[test]
fn reply_fields_read_back() {
    let id = "a\"b\n\\c\u{1}";
    let body = "x\ty\u{1f}z\u{7f}é";
    let text = repr_message(id, MessageCode::CloneProjected, body, 42);
    let v: serde_json::Value = serde_json::from_str(&text).unwrap();
    assert_eq!(v["code"], "ReprMessage");
    assert_eq!(v["id"], id);
    assert_eq!(v["msg"]["code"], "CloneProjected");
    assert_eq!(v["msg"]["process"], 42);
    assert_eq!(v["msg"]["body"], body);
    let hub_text = hub::repr_message(id, "ConnectedOk", body);
    let h: serde_json::Value = serde_json::from_str(&hub_text).unwrap();
    assert_eq!(h["code"], "ConnectedOk");
    assert_eq!(h["msgid"], id);
    assert_eq!(h["msg"], body);
    assert_eq!(serde_json::from_str::<String>(&serde_json::to_string(id).unwrap()).unwrap(), id);
}
