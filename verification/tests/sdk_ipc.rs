use rootware::sdk::capability::Capability;
use rootware::sdk::error::{Error, ErrorCode};
use rootware::sdk::ipc::message_type;
use rootware::sdk::ipc::{InMemoryTransport, Message, Transport, ABI_VERSION, BROADCAST_RECEIVER, PAYLOAD_SIZE};

#[test]
fn sends_receives_and_replies() {
    let mut transport = InMemoryTransport::default();
    let request = Message::new(1, 2, 7, Capability { id: 1 }, [1; PAYLOAD_SIZE]);
    transport.send(request).unwrap();
    assert_eq!(transport.receive(2).unwrap(), request);
    transport.reply(&request, [2; PAYLOAD_SIZE]).unwrap();
    assert_eq!(transport.receive(1).unwrap().payload, [2; PAYLOAD_SIZE]);
}

#[test]
fn standard_message_types_are_stable() {
    assert_eq!(message_type::REQUEST, 1);
    assert_eq!(message_type::BROADCAST, 4);
    assert_eq!(BROADCAST_RECEIVER, u16::MAX);
}

#[test]
fn receiver_queues_are_isolated() {
    let mut transport = InMemoryTransport::new(2);
    let first = Message::new(1, 2, message_type::EVENT, Capability { id: 1 }, [2; PAYLOAD_SIZE]);
    let second = Message::new(1, 3, message_type::EVENT, Capability { id: 1 }, [3; PAYLOAD_SIZE]);
    transport.send(first).unwrap();
    transport.send(second).unwrap();
    assert_eq!(transport.receive(3).unwrap(), second);
    assert_eq!(transport.receive(2).unwrap(), first);
}

#[test]
fn reply_rejects_invalid_routes() {
    let mut transport = InMemoryTransport::default();
    let request = Message::new(0, 2, message_type::REQUEST, Capability { id: 1 }, [0; PAYLOAD_SIZE]);
    assert_eq!(
        transport.reply(&request, [0; PAYLOAD_SIZE]),
        Err(Error::new(ErrorCode::InvalidArgument))
    );
}

#[test]
fn throughput_and_no_loss_under_pressure() {
    let mut transport = InMemoryTransport::new(256);
    let total = 10_000;
    for index in 0..total {
        let mut payload = [0; PAYLOAD_SIZE];
        payload[..8].copy_from_slice(&(index as u64).to_le_bytes());
        transport
            .send(Message::new(1, 2, message_type::EVENT, Capability { id: 1 }, payload))
            .unwrap_or_else(|_| panic!("queue rejected message {index}"));
        let received = transport.receive(2).unwrap();
        assert_eq!(
            u64::from_le_bytes(received.payload[..8].try_into().unwrap()),
            index as u64
        );
    }
}

#[test]
fn abi_version_and_message_size_are_frozen() {
    assert_eq!(ABI_VERSION, 3);
    assert_eq!(core::mem::size_of::<Message>(), 44);
}

#[test]
fn send_without_route_is_denied() {
    let mut transport = InMemoryTransport::default();
    for message in [
        Message::new(0, 2, 1, Capability { id: 1 }, [0; PAYLOAD_SIZE]),
        Message::new(1, 0, 1, Capability { id: 1 }, [0; PAYLOAD_SIZE]),
        Message::new(1, 2, 1, Capability { id: 0 }, [0; PAYLOAD_SIZE]),
    ] {
        assert_eq!(transport.send(message), Err(Error::new(ErrorCode::PermissionDenied)));
    }
    assert_eq!(transport.receive(2), Err(Error::new(ErrorCode::QueueEmpty)));
}

#[test]
fn full_transport_refuses_until_drained() {
    let mut transport = InMemoryTransport::new(2);
    let a = Message::new(1, 2, 3, Capability { id: 1 }, [1; PAYLOAD_SIZE]);
    let b = Message::new(1, 5, 3, Capability { id: 1 }, [2; PAYLOAD_SIZE]);
    let c = Message::new(1, 2, 3, Capability { id: 1 }, [3; PAYLOAD_SIZE]);
    transport.send(a).unwrap();
    transport.send(b).unwrap();
    assert_eq!(transport.send(c), Err(Error::new(ErrorCode::QueueFull)));
    assert_eq!(transport.receive(2), Ok(a));
    transport.send(c).unwrap();
    assert_eq!(transport.receive(2), Ok(c));
    assert_eq!(transport.receive(5), Ok(b));
    assert_eq!(transport.receive(5), Err(Error::new(ErrorCode::QueueEmpty)));
}

#[test]
fn zero_capacity_transport_is_always_full() {
    let mut transport = InMemoryTransport::new(0);
    let m = Message::new(1, 2, 3, Capability { id: 1 }, [0; PAYLOAD_SIZE]);
    assert_eq!(transport.send(m), Err(Error::new(ErrorCode::QueueFull)));
}

#[test]
fn queue_is_first_in_first_out() {
    let mut transport = InMemoryTransport::new(8);
    for i in 0..5u8 {
        transport
            .send(Message::new(1, 9, 3, Capability { id: 1 }, [i; PAYLOAD_SIZE]))
            .unwrap();
    }
    for i in 0..5u8 {
        assert_eq!(transport.receive(9).unwrap().payload, [i; PAYLOAD_SIZE]);
    }
}

#[test]
fn reply_swaps_route_and_keeps_type() {
    let mut transport = InMemoryTransport::default();
    let request = Message::new(4, 6, message_type::REQUEST, Capability { id: 9 }, [0; PAYLOAD_SIZE]);
    transport.reply(&request, [5; PAYLOAD_SIZE]).unwrap();
    let answer = transport.receive(4).unwrap();
    assert_eq!(
        answer,
        Message::new(6, 4, message_type::REQUEST, Capability { id: 9 }, [5; PAYLOAD_SIZE])
    );
}
