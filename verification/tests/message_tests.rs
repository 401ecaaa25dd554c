use nethernet::{Message, MessageSegment, NethernetError, MAX_MESSAGE_SIZE};

#[test]
fn test_single_segment() {
    let data = b"Hello, World!".to_vec();
    let segments = Message::split_into_segments(data.clone()).unwrap();

    assert_eq!(segments.len(), 1);
    assert_eq!(segments[0].remaining_segments, 0);
    assert_eq!(segments[0].data, data);
}

#[test]
fn test_multiple_segments() {
    let data = vec![0u8; MAX_MESSAGE_SIZE * 2 + 100];
    let segments = Message::split_into_segments(data.clone()).unwrap();

    assert_eq!(segments.len(), 3);
    assert_eq!(segments[0].remaining_segments, 2);
    assert_eq!(segments[1].remaining_segments, 1);
    assert_eq!(segments[2].remaining_segments, 0);
}

#[test]
fn test_reassembly() {
    let original_data = vec![1u8; MAX_MESSAGE_SIZE * 2 + 100];
    let segments = Message::split_into_segments(original_data.clone()).unwrap();

    let mut message = Message::new();
    for (i, segment) in segments.iter().enumerate() {
        let result = message.add_segment(segment.clone()).unwrap();
        if i < segments.len() - 1 {
            assert!(result.is_none());
        } else {
            assert!(result.is_some());
            assert_eq!(result.unwrap(), original_data);
        }
    }
}

#[test]
fn test_out_of_order_segments_error() {
    let data = vec![42u8; MAX_MESSAGE_SIZE * 2 + 100];
    let segments = Message::split_into_segments(data.clone()).unwrap();

    assert!(segments.len() >= 3);

    let mut message = Message::new();

    let result = message.add_segment(segments[1].clone());
    assert!(result.is_ok());
    assert!(result.unwrap().is_none());

    let result = message.add_segment(segments[0].clone());
    assert!(result.is_err());

    if let Err(NethernetError::MessageParse(msg)) = result {
        assert!(msg.contains("Invalid segment sequence"));
    } else {
        panic!("Expected MessageParse error for out-of-order segment");
    }
}

#[test]
fn test_memory_efficient_allocation() {
    let segment_data = vec![0u8; 100];
    let mut message = Message::new();

    let segment = MessageSegment::new(9, segment_data.clone());
    message.add_segment(segment).unwrap();

    let capacity = message.capacity();
    assert!(capacity >= 1000, "Capacity {} too small", capacity);
    assert!(
        capacity < 100000,
        "Capacity {} too large (over-allocation)",
        capacity
    );
}

#[test]
fn split_at_exact_multiple_has_full_last_segment() {
    let data: Vec<u8> = (0..(MAX_MESSAGE_SIZE * 2)).map(|i| (i % 251) as u8).collect();
    let segments = Message::split_into_segments(data.clone()).unwrap();
    assert_eq!(segments.len(), 2);
    assert_eq!(segments[0].remaining_segments, 1);
    assert_eq!(segments[0].data, data[..MAX_MESSAGE_SIZE].to_vec());
    assert_eq!(segments[1].remaining_segments, 0);
    assert_eq!(segments[1].data, data[MAX_MESSAGE_SIZE..].to_vec());
}

#[test]
fn split_of_empty_is_one_empty_segment() {
    let segments = Message::split_into_segments(Vec::new()).unwrap();
    assert_eq!(segments.len(), 1);
    assert_eq!(segments[0].remaining_segments, 0);
    assert!(segments[0].data.is_empty());
}

#[test]
fn split_refuses_more_than_255_segments() {
    let max = vec![0u8; MAX_MESSAGE_SIZE * 255];
    let segments = Message::split_into_segments(max).unwrap();
    assert_eq!(segments.len(), 255);
    assert_eq!(segments[0].remaining_segments, 254);

    let too_large = vec![0u8; MAX_MESSAGE_SIZE * 255 + 1];
    match Message::split_into_segments(too_large) {
        Err(NethernetError::MessageTooLarge(n)) => assert_eq!(n, MAX_MESSAGE_SIZE * 255 + 1),
        _ => panic!("expected MessageTooLarge"),
    }
}

#[test]
fn reassembly_of_varied_bytes() {
    let data: Vec<u8> = (0..(MAX_MESSAGE_SIZE * 3 + 7)).map(|i| (i * 7 % 256) as u8).collect();
    let segments = Message::split_into_segments(data.clone()).unwrap();
    assert_eq!(segments.len(), 4);
    let mut message = Message::default();
    let mut out = None;
    for segment in segments {
        out = message.add_segment(segment).unwrap();
    }
    assert_eq!(out, Some(data));
    // The message is empty again and takes a single segment.
    let single = MessageSegment::new(0, b"ab".to_vec());
    assert_eq!(message.add_segment(single).unwrap(), Some(b"ab".to_vec()));
}

#[test]
fn out_of_sequence_error_text_and_reset() {
    let mut message = Message::new();
    assert_eq!(message.add_segment(MessageSegment::new(3, vec![1])).unwrap(), None);
    match message.add_segment(MessageSegment::new(1, vec![2])) {
        Err(NethernetError::MessageParse(msg)) => {
            assert_eq!(msg, "Invalid segment sequence: expected 2, got 1")
        }
        _ => panic!("expected MessageParse"),
    }
    // After the error the message starts over.
    assert_eq!(
        message.add_segment(MessageSegment::new(0, vec![9, 9])).unwrap(),
        Some(vec![9, 9])
    );
}

#[test]
fn segment_encode_decode() {
    let segment = MessageSegment::new(4, vec![10, 20, 30]);
    let bytes = segment.encode();
    assert_eq!(bytes, vec![4, 10, 20, 30]);
    let decoded = MessageSegment::decode(bytes).unwrap();
    assert_eq!(decoded.remaining_segments, 4);
    assert_eq!(decoded.data, vec![10, 20, 30]);
}

#[test]
fn segment_decode_refuses_short_input() {
    match MessageSegment::decode(vec![5]) {
        Err(NethernetError::MessageParse(msg)) => {
            assert_eq!(msg, "Message too short, expected at least 2 bytes, got 1")
        }
        _ => panic!("expected MessageParse"),
    }
    match MessageSegment::decode(Vec::new()) {
        Err(NethernetError::MessageParse(msg)) => {
            assert_eq!(msg, "Message too short, expected at least 2 bytes, got 0")
        }
        _ => panic!("expected MessageParse"),
    }
}

#[test]
fn expected_segments_counts_down() {
    let mut message = Message::new();
    assert_eq!(message.expected_segments(), 0);
    message.add_segment(MessageSegment::new(2, vec![1])).unwrap();
    assert_eq!(message.expected_segments(), 2);
    message.add_segment(MessageSegment::new(1, vec![2])).unwrap();
    assert_eq!(message.expected_segments(), 1);
    assert_eq!(message.add_segment(MessageSegment::new(0, vec![3])).unwrap(), Some(vec![1, 2, 3]));
    assert_eq!(message.expected_segments(), 0);
}
