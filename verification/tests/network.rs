use simple_chat::network::{
    client_on_read, decode_received, frame_line, plan_send, remove_failed, server_on_read,
    ClientReaction, ReadResult, SendPlan, ServerReaction,
};
use simple_chat::ui_manager::UIEvent;

#[test]
fn received_bytes_are_decoded_and_trimmed() {
    assert_eq!(decode_received(b"  hello world \n"), "hello world");
    assert_eq!(decode_received("héllo\n".as_bytes()), "héllo");
    assert_eq!(decode_received(b"\n"), "");
}

#[test]
fn ill_formed_utf8_is_replaced() {
    assert_eq!(decode_received(&[0x66, 0xff, 0x6f]), "f\u{fffd}o");
}

#[test]
fn lines_end_with_newline() {
    assert_eq!(frame_line("hi"), "hi\n");
    assert_eq!(frame_line(""), "\n");
}

#[test]
fn a_sent_line_is_received_as_its_text() {
    for t in ["hello", "with space inside", "ünïcödé"] {
        let wire = frame_line(t);
        assert_eq!(decode_received(wire.as_bytes()), t);
    }
}

#[test]
fn server_relays_received_text() {
    let r = server_on_read(ReadResult::Data(b" hey \r\n".to_vec()));
    assert_eq!(
        r,
        ServerReaction::Relay {
            event: UIEvent::MessageReceived { text: "hey".into() },
            line: "hey\n".into()
        }
    );
}

#[test]
fn server_drops_closed_or_failed_clients() {
    assert_eq!(server_on_read(ReadResult::Closed), ServerReaction::Disconnect);
    assert_eq!(server_on_read(ReadResult::Failed("reset".into())), ServerReaction::Disconnect);
    assert_eq!(server_on_read(ReadResult::Data(Vec::new())), ServerReaction::Disconnect);
}

#[test]
fn client_shows_received_text() {
    assert_eq!(
        client_on_read(ReadResult::Data(b"msg\n".to_vec())),
        ClientReaction::Show(UIEvent::MessageReceived { text: "msg".into() })
    );
}

#[test]
fn client_stops_on_close_and_reports_errors() {
    assert_eq!(client_on_read(ReadResult::Closed), ClientReaction::Stop(None));
    assert_eq!(
        client_on_read(ReadResult::Failed("connection reset".into())),
        ClientReaction::Stop(Some(UIEvent::Error { message: "Connection error: connection reset".into() }))
    );
}

#[test]
fn client_sends_to_server() {
    assert_eq!(plan_send(true, "hi".into()), SendPlan::ToServer { line: "hi\n".into() });
}

#[test]
fn server_broadcasts_and_echoes() {
    assert_eq!(
        plan_send(false, "hi".into()),
        SendPlan::Broadcast { line: "hi\n".into(), echo: UIEvent::MessageReceived { text: "hi".into() } }
    );
}

#[test]
fn failed_writers_are_removed_in_order() {
    let mut w = vec![1, 2, 3, 4, 5];
    remove_failed(&mut w, &vec![false, true, false, true, true]);
    assert_eq!(w, vec![1, 3]);
}

#[test]
fn no_failures_keeps_all_writers() {
    let mut w = vec!["a", "b", "c"];
    remove_failed(&mut w, &vec![false, false, false]);
    assert_eq!(w, vec!["a", "b", "c"]);
    let mut w = vec!["a", "b"];
    remove_failed(&mut w, &vec![true, true]);
    assert!(w.is_empty());
    let mut w: Vec<u8> = Vec::new();
    remove_failed(&mut w, &Vec::new());
    assert!(w.is_empty());
}
