use fp::monitor::{monitor_messages, ClientMessage, MonitorArguments};

#[test]
fn monitor_sends_auth_subscriptions_then_debug() {
    let args = MonitorArguments {
        endpoint: "ws://localhost:3030/api/ws".to_string(),
        token: "tok".to_string(),
        notebooks: vec!["n1".to_string(), "n2".to_string()],
    };
    let msgs = monitor_messages(&args);
    assert_eq!(msgs.len(), 4);
    assert!(matches!(&msgs[0], ClientMessage::Authenticate { op_id, token } if op_id == "auth" && token == "tok"));
    assert!(matches!(&msgs[1], ClientMessage::Subscribe { op_id, notebook_id } if op_id == "sub_\"n1\"" && notebook_id == "n1"));
    assert!(matches!(&msgs[2], ClientMessage::Subscribe { notebook_id, .. } if notebook_id == "n2"));
    assert!(matches!(&msgs[3], ClientMessage::DebugRequest { op_id } if op_id == "debug_request"));
}
