use temper_server::digest::content_digest_of;
use temper_server::ordered::OrdSet;
use temper_server::stream::{Envelope, StreamDescriptor, StreamEntityRef, StreamMutability};
use temper_server::stream_descriptors::{
    live_contract_activated, pinned_contract_activated, read_stream_descriptor_bytes,
    resolve_descriptor_events, resolve_stream_descriptor, BlobReadBounded,
    StreamDescriptorResolutionError, StreamPointer,
};

fn event(sequence: u64, mutability: StreamMutability) -> Envelope {
    let descriptor = StreamDescriptor {
        subject: StreamEntityRef {
            entity_type: "File".to_string(),
            entity_id: "file-1".to_string(),
        },
        authorization_parent: None,
        content_hash: "sha256:abc".to_string(),
        storage_object_id: "streams/abc".to_string(),
        byte_length: 3,
        content_type: Some("text/plain".to_string()),
        content_event_sequence: sequence,
        descriptor_event_sequence: sequence,
        mutability,
    };
    Envelope {
        sequence_nr: sequence,
        event_type: "StreamUpdated".to_string(),
        event: Err("missing field `action`".to_string()),
        descriptor: Some(descriptor),
    }
}

#[test]
fn replay_uses_latest_mutable_descriptor_and_preserves_historical_absence() {
    assert_eq!(
        resolve_descriptor_events("File", "file-1", &vec![], false),
        Err(StreamDescriptorResolutionError::Missing)
    );
    let events = vec![
        event(1, StreamMutability::Mutable),
        event(2, StreamMutability::Mutable),
    ];
    assert_eq!(
        resolve_descriptor_events("File", "file-1", &events, false)
            .unwrap()
            .descriptor_event_sequence,
        2
    );
}

#[test]
fn replay_rejects_immutable_replacement_and_identity_drift() {
    let immutable = vec![
        event(1, StreamMutability::Immutable),
        event(2, StreamMutability::Immutable),
    ];
    assert!(matches!(
        resolve_descriptor_events("File", "file-1", &immutable, false),
        Err(StreamDescriptorResolutionError::Consistency(_))
    ));
    assert!(matches!(
        resolve_descriptor_events(
            "File",
            "another-file",
            &vec![event(1, StreamMutability::Mutable)],
            false
        ),
        Err(StreamDescriptorResolutionError::Consistency(_))
    ));
}

#[test]
fn a_truncated_replay_fails_closed() {
    let events = vec![event(1, StreamMutability::Mutable)];
    assert_eq!(
        resolve_descriptor_events("File", "file-1", &vec![], true),
        Err(StreamDescriptorResolutionError::ReplayBudgetExceeded)
    );
    assert!(resolve_descriptor_events("File", "file-1", &events, true).is_ok());
    assert!(resolve_stream_descriptor("File", "file-1", &events, 1).is_err());
    assert!(resolve_stream_descriptor("File", "file-1", &events, 0).is_ok());
}

#[test]
fn bytes_handed_out_are_the_described_ones() {
    let mut d = event(1, StreamMutability::Mutable).descriptor.unwrap();
    d.content_hash = content_digest_of(b"abc");
    assert_eq!(
        read_stream_descriptor_bytes(&d, 3, Ok(BlobReadBounded::Found(b"abc".to_vec()))),
        Ok(b"abc".to_vec())
    );
    assert!(matches!(
        read_stream_descriptor_bytes(&d, 3, Ok(BlobReadBounded::Found(b"abd".to_vec()))),
        Err(StreamDescriptorResolutionError::Integrity(_))
    ));
    assert!(matches!(
        read_stream_descriptor_bytes(&d, 3, Ok(BlobReadBounded::Found(b"ab".to_vec()))),
        Err(StreamDescriptorResolutionError::Integrity(_))
    ));
    assert_eq!(
        read_stream_descriptor_bytes(&d, 2, Ok(BlobReadBounded::Found(b"abc".to_vec()))),
        Err(StreamDescriptorResolutionError::BudgetExceeded)
    );
    assert!(read_stream_descriptor_bytes(&d, 3, Ok(BlobReadBounded::Missing)).is_err());
    assert!(read_stream_descriptor_bytes(&d, 3, Ok(BlobReadBounded::TooLarge)).is_err());
    assert_eq!(
        read_stream_descriptor_bytes(&d, 3, Err("down".to_string())),
        Err(StreamDescriptorResolutionError::Storage("down".to_string()))
    );
}

#[test]
fn an_undeclared_contract_is_not_active() {
    assert_eq!(live_contract_activated(false, &None), Ok(false));
    assert_eq!(live_contract_activated(true, &Some(Ok(true))), Ok(true));
    assert_eq!(live_contract_activated(true, &Some(Ok(false))), Ok(false));
    assert!(live_contract_activated(true, &Some(Err("down".to_string()))).is_err());
    assert_eq!(
        live_contract_activated(true, &None),
        Err(StreamDescriptorResolutionError::JournalUnavailable)
    );
    assert_eq!(
        pinned_contract_activated(false, &None, "d", "File"),
        Err(StreamDescriptorResolutionError::JournalUnavailable)
    );
    assert_eq!(pinned_contract_activated(true, &None, "d", "File"), Ok(true));
    assert_eq!(pinned_contract_activated(false, &Some(Ok(None)), "d", "File"), Ok(false));
    let mut published_types = OrdSet::new();
    published_types.insert("File".to_string());
    let pointer = StreamPointer {
        predecessor_digest: Some("d".to_string()),
        published_types,
        target_publishes: true,
    };
    assert_eq!(
        pinned_contract_activated(false, &Some(Ok(Some(pointer.clone()))), "d", "File"),
        Ok(true)
    );
    assert_eq!(
        pinned_contract_activated(false, &Some(Ok(Some(pointer))), "e", "File"),
        Ok(false)
    );
}

#[test]
fn errors_have_stable_codes() {
    assert_eq!(
        StreamDescriptorResolutionError::Missing.stable_code(),
        "StreamDescriptorMissing"
    );
}

#[test]
fn an_empty_stream_is_read_within_an_empty_budget() {
    let mut d = event(1, StreamMutability::Mutable).descriptor.unwrap();
    d.byte_length = 0;
    d.content_hash = content_digest_of(b"");
    assert_eq!(
        read_stream_descriptor_bytes(&d, 0, Ok(BlobReadBounded::Found(Vec::new()))),
        Ok(Vec::new())
    );
}

#[test]
fn the_budget_comes_before_the_store() {
    let d = event(1, StreamMutability::Mutable).descriptor.unwrap();
    assert_eq!(
        read_stream_descriptor_bytes(&d, 2, Err("the store was asked".to_string())),
        Err(StreamDescriptorResolutionError::BudgetExceeded)
    );
}
