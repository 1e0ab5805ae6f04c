use echo_add_server::handler::{handler_step, HandlerAction, ReadEvent};
use echo_add_server::lifecycle::{accept_step, run_acceptor, AcceptAction, AcceptEvent, ServerCore};
use echo_add_server::messages::{
    AddRequest, AddResponse, ClientMessage, ClientPayload, ServerMessage, ServerPayload,
};

#[test]
fn test_new_server_is_running_and_empty() {
    let core = ServerCore::new();
    assert!(core.is_running());
    assert_eq!(core.client_count(), 0);
}

#[test]
fn test_stop_drains_every_connection_in_order() {
    let mut core = ServerCore::new();
    core.register(1);
    core.register(2);
    core.register(3);
    assert_eq!(core.client_count(), 3);
    let drained = core.stop();
    assert_eq!(drained, vec![1, 2, 3]);
    assert!(!core.is_running());
    assert_eq!(core.client_count(), 0);
}

#[test]
fn test_stop_twice_is_a_no_op() {
    let mut core = ServerCore::new();
    core.register(7);
    let first = core.stop();
    assert_eq!(first, vec![7]);
    let second = core.stop();
    assert!(second.is_empty());
    assert!(!core.is_running());
}

#[test]
fn test_start_sets_flag_again() {
    let mut core = ServerCore::new();
    let _ = core.stop();
    assert!(!core.is_running());
    core.start();
    assert!(core.is_running());
    assert_eq!(core.client_count(), 0);
}

#[test]
fn test_accept_step_decisions() {
    assert_eq!(accept_step(true, AcceptEvent::Accepted), AcceptAction::Admit);
    assert_eq!(accept_step(true, AcceptEvent::WouldBlock), AcceptAction::Wait);
    assert_eq!(accept_step(true, AcceptEvent::Failed), AcceptAction::Continue);
    assert_eq!(accept_step(false, AcceptEvent::Accepted), AcceptAction::Exit);
    assert_eq!(accept_step(false, AcceptEvent::WouldBlock), AcceptAction::Exit);
}

#[test]
fn test_accept_loop_registers_in_order_until_shutdown() {
    let mut core = ServerCore::new();
    run_acceptor(
        &mut core,
        vec![
            (true, AcceptEvent::Accepted, 1),
            (true, AcceptEvent::WouldBlock, 0),
            (true, AcceptEvent::Failed, 0),
            (true, AcceptEvent::Accepted, 2),
            (false, AcceptEvent::Accepted, 99),
            (true, AcceptEvent::Accepted, 3),
        ],
    );
    assert_eq!(core.client_count(), 2);
    assert!(core.is_running());
    let drained = core.stop();
    assert_eq!(drained, vec![1, 2]);
}

#[test]
fn test_scenario_add_request_then_clean_stop() {
    let mut core = ServerCore::new();
    core.register(1);

    let action = handler_step(
        core.is_running(),
        ReadEvent::Received(ClientMessage {
            message: Some(ClientPayload::AddRequest(AddRequest { a: 10, b: 20 })),
        }),
    );
    assert_eq!(
        action,
        HandlerAction::Reply(ServerMessage {
            message: Some(ServerPayload::AddResponse(AddResponse { result: 30 })),
        })
    );

    let disconnect = handler_step(core.is_running(), ReadEvent::Closed);
    assert_eq!(disconnect, HandlerAction::Exit);

    let drained = core.stop();
    assert_eq!(drained, vec![1]);
    assert_eq!(accept_step(core.is_running(), AcceptEvent::WouldBlock), AcceptAction::Exit);
}

#[test]
fn test_peer_close_leaves_other_connections_alone() {
    let mut core = ServerCore::new();
    core.register(1);
    core.register(2);

    let one_closes = handler_step(core.is_running(), ReadEvent::Closed);
    assert_eq!(one_closes, HandlerAction::Exit);

    assert!(core.is_running());
    assert_eq!(accept_step(core.is_running(), AcceptEvent::WouldBlock), AcceptAction::Wait);
    let other = handler_step(core.is_running(), ReadEvent::WouldBlock);
    assert_eq!(other, HandlerAction::Wait);
}
