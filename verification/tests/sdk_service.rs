use rootware::sdk::syscall::{receive_buffer, receive_result};
use rootware::sdk::capability::{Capability, CapabilityProvider, InMemoryCapabilities};
use rootware::sdk::error::{Error, ErrorCode};
use rootware::sdk::ipc::{message_type, Message, Transport, PAYLOAD_SIZE};
use rootware::sdk::service::{EchoService, Service, ServiceRegistry, ServiceState};
use rootware::sdk::simulator::Simulator;
use rootware::sdk::syscall::{status_result, SyscallTransport};

fn request() -> Message {
    Message::new(1, 2, message_type::REQUEST, Capability { id: 1 }, [7; PAYLOAD_SIZE])
}

#[test]
fn registry_manages_service_lifecycle() {
    let mut registry = ServiceRegistry::new();
    registry
        .register(std::boxed::Box::new(EchoService::new()))
        .unwrap();
    assert_eq!(registry.state(), ServiceState::Stopped);
    assert!(registry.dispatch("echo", &request()).is_err());
    registry.start().unwrap();
    let response = registry.dispatch("echo", &request()).unwrap().unwrap();
    assert_eq!(response.sender, 2);
    assert_eq!(response.receiver, 1);
    assert_eq!(response.message_type, message_type::RESPONSE);
    registry.stop();
    assert_eq!(registry.state(), ServiceState::Stopped);
}

#[test]
fn registry_rejects_duplicate_names() {
    let mut registry = ServiceRegistry::new();
    registry.register(std::boxed::Box::new(EchoService::new())).unwrap();
    assert_eq!(
        registry.register(std::boxed::Box::new(EchoService::new())),
        Err(Error::new(ErrorCode::InvalidArgument))
    );
}

#[test]
fn registry_errors_by_state_and_name() {
    let mut registry = ServiceRegistry::new();
    registry.register(std::boxed::Box::new(EchoService::new())).unwrap();
    assert_eq!(
        registry.dispatch("echo", &request()),
        Err(Error::new(ErrorCode::Transport))
    );
    registry.start().unwrap();
    assert_eq!(registry.start(), Err(Error::new(ErrorCode::InvalidArgument)));
    assert_eq!(
        registry.dispatch("missing", &request()),
        Err(Error::new(ErrorCode::NotFound))
    );
    assert_eq!(
        registry.register(std::boxed::Box::new(EchoService::new())),
        Err(Error::new(ErrorCode::InvalidArgument))
    );
    registry.stop();
    registry.stop();
    assert_eq!(registry.state(), ServiceState::Stopped);
    assert_eq!(
        registry.dispatch("echo", &request()),
        Err(Error::new(ErrorCode::Transport))
    );
}

#[test]
fn echo_service_answers_only_when_initialized() {
    let mut echo = EchoService::new();
    assert_eq!(echo.name(), "echo");
    assert_eq!(echo.handle(&request()), Err(Error::new(ErrorCode::InvalidArgument)));
    echo.init().unwrap();
    let response = echo.handle(&request()).unwrap().unwrap();
    assert_eq!(
        response,
        Message::new(2, 1, message_type::RESPONSE, Capability { id: 1 }, [7; PAYLOAD_SIZE])
    );
    let bad = Message::new(0, 2, message_type::REQUEST, Capability { id: 1 }, [7; PAYLOAD_SIZE]);
    assert_eq!(echo.handle(&bad), Err(Error::new(ErrorCode::InvalidArgument)));
    echo.stop();
    assert_eq!(echo.handle(&request()), Err(Error::new(ErrorCode::InvalidArgument)));
}

#[test]
fn unsupported_on_host() {
    let mut transport = SyscallTransport::new();
    let message = Message::new(1, 2, 1, Capability { id: 1 }, [0; PAYLOAD_SIZE]);
    assert_eq!(
        transport.send(message),
        Err(Error::new(ErrorCode::Unsupported))
    );
    assert_eq!(
        transport.receive(2),
        Err(Error::new(ErrorCode::Unsupported))
    );
}

#[test]
fn reply_rejects_invalid_routes_before_syscall() {
    let mut transport = SyscallTransport::new();
    let request = Message::new(0, 2, 1, Capability { id: 1 }, [0; PAYLOAD_SIZE]);
    assert_eq!(
        transport.reply(&request, [0; PAYLOAD_SIZE]),
        Err(Error::new(ErrorCode::InvalidArgument))
    );
}

#[test]
fn syscall_reply_with_route_is_unsupported_on_host() {
    let mut transport = SyscallTransport::new();
    let request = Message::new(1, 2, 1, Capability { id: 1 }, [0; PAYLOAD_SIZE]);
    assert_eq!(
        transport.reply(&request, [0; PAYLOAD_SIZE]),
        Err(Error::new(ErrorCode::Unsupported))
    );
}

#[test]
fn status_codes_map_to_errors() {
    assert_eq!(status_result(0), Ok(()));
    assert_eq!(status_result(-1), Err(Error::new(ErrorCode::InvalidArgument)));
    assert_eq!(status_result(-2), Err(Error::new(ErrorCode::PermissionDenied)));
    assert_eq!(status_result(3), Err(Error::new(ErrorCode::QueueFull)));
    assert_eq!(status_result(-4), Err(Error::new(ErrorCode::QueueEmpty)));
    assert_eq!(status_result(-5), Err(Error::new(ErrorCode::NotFound)));
    assert_eq!(status_result(-6), Err(Error::new(ErrorCode::Unsupported)));
    assert_eq!(status_result(-7), Err(Error::new(ErrorCode::Transport)));
    assert_eq!(status_result(6), status_result(-6));
    assert_eq!(status_result((1i64 << 32) + 2), Err(Error::new(ErrorCode::PermissionDenied)));
}

#[test]
fn service_round_trip() {
    let mut simulator = Simulator::default();
    simulator
        .send(Message::new(1, 2, 1, Capability { id: 1 }, [42; 32]))
        .unwrap();
    assert_eq!(simulator.receive(2).unwrap().payload[0], 42);
}

#[test]
fn capabilities_are_granted_on_request() {
    let mut provider = InMemoryCapabilities::default();
    assert!(!provider.check(Capability { id: 5 }));
    assert_eq!(
        provider.request(Capability { id: 0 }),
        Err(Error::new(ErrorCode::InvalidArgument))
    );
    provider.request(Capability { id: 5 }).unwrap();
    provider.request(Capability { id: 5 }).unwrap();
    assert!(provider.check(Capability { id: 5 }));
    assert!(!provider.check(Capability { id: 0 }));
}

#[test]
fn target_receive_result_follows_status() {
    let buffer = receive_buffer(5);
    assert_eq!(buffer, Message::new(0, 5, 0, Capability { id: 0 }, [0; PAYLOAD_SIZE]));
    let written = Message::new(3, 5, 1, Capability { id: 2 }, [4; PAYLOAD_SIZE]);
    assert_eq!(receive_result(0, written), Ok(written));
    assert_eq!(receive_result(-4, written), Err(Error::new(ErrorCode::QueueEmpty)));
}

#[test]
fn registry_start_stop_restart() {
    let mut registry = ServiceRegistry::new();
    registry.start().unwrap();
    assert_eq!(registry.state(), ServiceState::Running);
    registry.stop();
    registry.register(std::boxed::Box::new(EchoService::new())).unwrap();
    registry.start().unwrap();
    assert!(registry.dispatch("echo", &request()).unwrap().is_some());
    registry.stop();
    assert_eq!(
        registry.dispatch("echo", &request()),
        Err(Error::new(ErrorCode::Transport))
    );
}
