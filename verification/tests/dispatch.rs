use echo_add_server::messages::{
    dispatch, AddRequest, AddResponse, ClientPayload, EchoMessage, ServerPayload,
};

#[test]
fn test_echo_returns_content_unchanged() {
    let resp = dispatch(ClientPayload::EchoMessage(EchoMessage {
        content: "Hello, World!".to_string(),
    }));
    assert_eq!(
        resp,
        ServerPayload::EchoMessage(EchoMessage {
            content: "Hello, World!".to_string(),
        })
    );
}

#[test]
fn test_echo_empty_content() {
    let resp = dispatch(ClientPayload::EchoMessage(EchoMessage {
        content: String::new(),
    }));
    assert_eq!(
        resp,
        ServerPayload::EchoMessage(EchoMessage {
            content: String::new(),
        })
    );
}

#[test]
fn test_add_exact_sum() {
    let resp = dispatch(ClientPayload::AddRequest(AddRequest { a: 10, b: 20 }));
    assert_eq!(resp, ServerPayload::AddResponse(AddResponse { result: 30 }));
}

#[test]
fn test_add_negative_operands() {
    let resp = dispatch(ClientPayload::AddRequest(AddRequest { a: -5, b: 3 }));
    assert_eq!(resp, ServerPayload::AddResponse(AddResponse { result: -2 }));
}

#[test]
fn test_add_wraps_past_max() {
    let resp = dispatch(ClientPayload::AddRequest(AddRequest { a: i32::MAX, b: 1 }));
    assert_eq!(
        resp,
        ServerPayload::AddResponse(AddResponse { result: i32::MIN })
    );
}

#[test]
fn test_add_wraps_past_min() {
    let resp = dispatch(ClientPayload::AddRequest(AddRequest { a: i32::MIN, b: -1 }));
    assert_eq!(
        resp,
        ServerPayload::AddResponse(AddResponse { result: i32::MAX })
    );
}
