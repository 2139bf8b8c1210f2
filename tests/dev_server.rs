use vite_rs::dev::{
    artifact_from_dev_response, dev_server_args, dev_server_url, set_dev_server, stop_dev_server,
    unset_dev_server, unset_if_current, DevResponseError, DevServerSlot,
};

#[test]
fn second_start_replaces_first() {
    let mut slot: DevServerSlot<u32> = DevServerSlot::new();
    assert!(!slot.is_running());
    assert_eq!(set_dev_server(&mut slot, 1), (0, None));
    assert_eq!(set_dev_server(&mut slot, 2), (1, Some(1)));
    assert_eq!(slot.active, Some((1, 2)));
    assert!(slot.is_running());
}

#[test]
fn releasing_a_replaced_registration_keeps_the_new_one() {
    let mut slot: DevServerSlot<u32> = DevServerSlot::new();
    let (first, _) = set_dev_server(&mut slot, 10);
    let (second, killed) = set_dev_server(&mut slot, 20);
    assert_eq!(killed, Some(10));
    assert_eq!(unset_if_current(&mut slot, first), None);
    assert_eq!(slot.active, Some((second, 20)));
    assert_eq!(unset_if_current(&mut slot, second), Some(20));
    assert!(!slot.is_running());
    assert_eq!(unset_if_current(&mut slot, second), None);
}

#[test]
fn tokens_wrap_at_the_top() {
    let mut slot: DevServerSlot<u8> = DevServerSlot { active: None, issued: u64::MAX };
    assert_eq!(set_dev_server(&mut slot, 1), (u64::MAX, None));
    assert_eq!(slot.issued, 0);
}

#[test]
fn stop_is_idempotent() {
    let mut slot: DevServerSlot<&str> = DevServerSlot::new();
    set_dev_server(&mut slot, "proc");
    assert_eq!(stop_dev_server(&mut slot), Some("proc"));
    assert_eq!(stop_dev_server(&mut slot), None);
    assert_eq!(unset_dev_server(&mut slot), None);
    assert!(!slot.is_running());
}

#[test]
fn dev_command_line() {
    assert_eq!(
        dev_server_args("localhost", 21012),
        vec!["vite", "--host", "localhost", "--port", "21012", "--strictPort", "--clearScreen", "false"]
    );
}

#[test]
fn dev_fetch_url() {
    assert_eq!(dev_server_url("127.0.0.1", 5173, "src/app.ts"), "http://127.0.0.1:5173/src/app.ts");
    assert_eq!(dev_server_url("localhost", 80, ""), "http://localhost:80/");
}

#[test]
fn dev_response_translation() {
    let ok = artifact_from_dev_response(
        200,
        Some("text/javascript".to_string()),
        Some(3),
        Some("W/\"abc\"".to_string()),
        b"abc".to_vec(),
    )
    .unwrap()
    .unwrap();
    assert_eq!(ok.content_type, "text/javascript");
    assert_eq!(ok.content_length, 3);
    assert_eq!(ok.content_hash.as_deref(), Some("W/\"abc\""));
    assert_eq!(ok.last_modified, None);
    assert_eq!(*ok.bytes, b"abc".to_vec());

    assert_eq!(artifact_from_dev_response(404, None, None, None, vec![]), Ok(None));
    assert_eq!(
        artifact_from_dev_response(200, None, Some(1), Some("e".to_string()), vec![1]),
        Err(DevResponseError::MissingContentType)
    );
    assert_eq!(
        artifact_from_dev_response(200, Some("t".to_string()), None, Some("e".to_string()), vec![1]),
        Err(DevResponseError::MissingContentLength)
    );
    assert_eq!(
        artifact_from_dev_response(500, Some("t".to_string()), Some(1), None, vec![1]),
        Err(DevResponseError::MissingETag)
    );
}
