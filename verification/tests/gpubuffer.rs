use script_dom::gpubuffer::{
    ErrorClass, GPUBuffer, GPUBufferMapInfo, GPUBufferState, MapAsyncOutcome, MapFuture,
    MapFutureState, MapResponse, ValidationError, MAP_MODE_READ, MAP_MODE_WRITE,
};

fn unmapped_buffer(size: u64) -> GPUBuffer {
    GPUBuffer::new(7, 3, GPUBufferState::Unmapped, size, None, String::from("buf"))
}

fn mapped_buffer(size: u64) -> GPUBuffer {
    let mut b = unmapped_buffer(size);
    match b.MapAsync(MAP_MODE_READ, 0, None) {
        MapAsyncOutcome::Pending(_) => {}
        MapAsyncOutcome::Rejected { .. } => panic!("map request refused"),
    }
    let out = b.handle_response(MapResponse::Bytes(vec![0u8; size as usize]));
    assert_eq!(out.settled.unwrap().state, MapFutureState::Fulfilled);
    b
}

#[test]
fn future_settles_at_most_once() {
    let mut f = MapFuture::new();
    assert_eq!(f.state, MapFutureState::Pending);
    f.resolve();
    assert_eq!(f.state, MapFutureState::Fulfilled);
    f.reject(ErrorClass::Abort);
    assert_eq!(f.state, MapFutureState::Fulfilled);

    let mut g = MapFuture::new();
    g.reject(ErrorClass::Operation);
    g.resolve();
    assert_eq!(g.state, MapFutureState::Rejected(ErrorClass::Operation));
}

#[test]
fn map_async_read_success_flow() {
    // A buffer of size 64: request a read mapping of the whole buffer.
    let mut b = unmapped_buffer(64);
    let req = match b.MapAsync(MAP_MODE_READ, 0, None) {
        MapAsyncOutcome::Pending(req) => req,
        MapAsyncOutcome::Rejected { .. } => panic!("expected a pending request"),
    };
    assert_eq!(req.buffer_id, 7);
    assert_eq!(req.device_id, 3);
    assert_eq!(req.mode, MAP_MODE_READ);
    assert_eq!(req.range_start, 0);
    assert_eq!(req.range_end, 64);
    assert_eq!(b.state(), GPUBufferState::MappingPending);

    // The device answers with 64 bytes: the buffer becomes mapped.
    let out = b.handle_response(MapResponse::Bytes(vec![0u8; 64]));
    assert_eq!(out.complete.buffer_id, 7);
    assert_eq!(out.settled.unwrap().state, MapFutureState::Fulfilled);
    assert_eq!(b.state(), GPUBufferState::Mapped);

    // A first view over [0, 32) succeeds; an overlapping one is refused.
    let v0 = b.GetMappedRange(0, Some(32)).unwrap();
    assert_eq!(v0, 0);
    assert_eq!(b.view_range(v0), Some((0, 32)));
    assert_eq!(b.GetMappedRange(16, Some(16)), Err(ErrorClass::Operation));

    // Unmapping detaches the view and reverts the state.
    let unmapped = b.Unmap();
    assert_eq!(b.state(), GPUBufferState::Unmapped);
    assert_eq!(unmapped.detached.len(), 1);
    assert_eq!(unmapped.detached[0].start, 0);
    assert_eq!(unmapped.detached[0].end, 32);
    let notify = unmapped.notify.unwrap();
    assert_eq!(notify.bytes.len(), 64);
    assert!(notify.is_map_read);
    // The retained handle is dead: the mapping that issued it is gone.
    assert_eq!(b.read_view(v0), Err(ErrorClass::Operation));
    assert_eq!(b.write_view(v0, &vec![0u8; 32]), Err(ErrorClass::Operation));
}

#[test]
fn two_disjoint_views_then_overlap_fails() {
    let mut b = mapped_buffer(64);
    let v0 = b.GetMappedRange(0, Some(16)).unwrap();
    let v1 = b.GetMappedRange(32, Some(16)).unwrap();
    assert_eq!(v0, 0);
    assert_eq!(v1, 1);
    // Overlapping the first view:
    assert_eq!(b.GetMappedRange(8, Some(16)), Err(ErrorClass::Operation));
    // Overlapping the second view:
    assert_eq!(b.GetMappedRange(40, Some(8)), Err(ErrorClass::Operation));
    // A third disjoint view still succeeds.
    assert_eq!(b.GetMappedRange(16, Some(16)), Ok(2));
}

#[test]
fn map_async_offset_past_end_rejected_operation() {
    // A buffer of size 10 with offset 12 and no explicit size: refused
    // before any state or protocol activity.
    let mut b = unmapped_buffer(10);
    match b.MapAsync(MAP_MODE_READ, 12, None) {
        MapAsyncOutcome::Rejected { future, validation } => {
            assert_eq!(future.state, MapFutureState::Rejected(ErrorClass::Operation));
            assert!(validation.is_none());
        }
        MapAsyncOutcome::Pending(_) => panic!("expected an immediate rejection"),
    }
    assert_eq!(b.state(), GPUBufferState::Unmapped);
}

#[test]
fn second_map_async_rejected_abort_first_unharmed() {
    let mut b = unmapped_buffer(32);
    match b.MapAsync(MAP_MODE_READ, 0, None) {
        MapAsyncOutcome::Pending(_) => {}
        MapAsyncOutcome::Rejected { .. } => panic!("first map refused"),
    }
    // The second request is rejected right away with an abort-class error
    // and a validation report; the first stays pending.
    match b.MapAsync(MAP_MODE_WRITE, 0, Some(8)) {
        MapAsyncOutcome::Rejected { future, validation } => {
            assert_eq!(future.state, MapFutureState::Rejected(ErrorClass::Abort));
            assert_eq!(validation, Some(ValidationError::NotUnmapped));
            assert_eq!(
                validation.unwrap().message(),
                String::from("Buffer is not Unmapped")
            );
        }
        MapAsyncOutcome::Pending(_) => panic!("second map must not be sent"),
    }
    assert_eq!(b.state(), GPUBufferState::MappingPending);
    // The first request still resolves normally.
    let out = b.handle_response(MapResponse::Bytes(vec![1u8; 32]));
    assert_eq!(out.settled.unwrap().state, MapFutureState::Fulfilled);
    assert_eq!(b.state(), GPUBufferState::Mapped);
}

#[test]
fn invalid_mode_rejected_with_validation() {
    let mut b = unmapped_buffer(16);
    match b.MapAsync(3, 0, Some(4)) {
        MapAsyncOutcome::Rejected { future, validation } => {
            assert_eq!(future.state, MapFutureState::Rejected(ErrorClass::Abort));
            assert_eq!(validation, Some(ValidationError::InvalidMapMode));
            assert_eq!(
                validation.unwrap().message(),
                String::from("Invalid MapModeFlags")
            );
        }
        MapAsyncOutcome::Pending(_) => panic!("invalid mode must not be sent"),
    }
    assert_eq!(b.state(), GPUBufferState::Unmapped);
}

#[test]
fn write_roundtrip_bytes_delivered_on_unmap() {
    // Map for writing, write through a view, and unmap: the notification
    // carries exactly the storage content and exactly the mapped range.
    let mut b = unmapped_buffer(16);
    match b.MapAsync(MAP_MODE_WRITE, 0, None) {
        MapAsyncOutcome::Pending(_) => {}
        MapAsyncOutcome::Rejected { .. } => panic!("map request refused"),
    }
    b.handle_response(MapResponse::Bytes(vec![0u8; 16]));
    let v = b.GetMappedRange(0, None).unwrap();
    assert_eq!(b.view_range(v), Some((0, 16)));
    let payload: Vec<u8> = (1..=16).collect();
    b.write_view(v, &payload).unwrap();
    assert_eq!(b.read_view(v).unwrap(), payload);

    let unmapped = b.Unmap();
    let notify = unmapped.notify.unwrap();
    assert_eq!(notify.bytes, payload);
    assert_eq!(notify.offset, 0);
    assert_eq!(notify.size, 16);
    assert!(!notify.is_map_read);
    assert_eq!(b.state(), GPUBufferState::Unmapped);
}

#[test]
fn partial_view_write_changes_only_its_window() {
    let mut b = unmapped_buffer(32);
    match b.MapAsync(MAP_MODE_WRITE, 0, None) {
        MapAsyncOutcome::Pending(_) => {}
        MapAsyncOutcome::Rejected { .. } => panic!("map request refused"),
    }
    b.handle_response(MapResponse::Bytes(vec![9u8; 32]));
    let v = b.GetMappedRange(8, Some(8)).unwrap();
    b.write_view(v, &vec![1, 2, 3, 4, 5, 6, 7, 8]).unwrap();
    // A wrong-sized write is refused.
    assert_eq!(b.write_view(v, &vec![1, 2, 3]), Err(ErrorClass::Operation));
    let notify = b.Unmap().notify.unwrap();
    let mut expected = vec![9u8; 32];
    expected[8..16].copy_from_slice(&[1, 2, 3, 4, 5, 6, 7, 8]);
    assert_eq!(notify.bytes, expected);
}

#[test]
fn get_mapped_range_alignment_and_bounds() {
    let mut b = mapped_buffer(64);
    // Offset not 8-aligned.
    assert_eq!(b.GetMappedRange(4, Some(8)), Err(ErrorClass::Operation));
    // Size not 4-aligned.
    assert_eq!(b.GetMappedRange(0, Some(2)), Err(ErrorClass::Operation));
    // Past the mapped range.
    assert_eq!(b.GetMappedRange(8, Some(64)), Err(ErrorClass::Operation));
    // Default size with the offset at the end of the range.
    assert_eq!(b.GetMappedRange(64, None), Err(ErrorClass::Operation));
    // Not mapped at all.
    let mut u = unmapped_buffer(64);
    assert_eq!(u.GetMappedRange(0, Some(8)), Err(ErrorClass::Operation));
}

#[test]
fn unmap_is_idempotent_and_cancels_pending() {
    let mut b = unmapped_buffer(24);
    // A no-op on an unmapped buffer.
    let o = b.Unmap();
    assert!(o.notify.is_none());
    assert!(o.cancelled.is_none());
    assert_eq!(o.detached.len(), 0);
    assert_eq!(b.state(), GPUBufferState::Unmapped);
    // Unmapping while a map is in flight rejects the pending future with an
    // operation-class error.
    match b.MapAsync(MAP_MODE_READ, 0, None) {
        MapAsyncOutcome::Pending(_) => {}
        MapAsyncOutcome::Rejected { .. } => panic!("map request refused"),
    }
    let o = b.Unmap();
    assert!(o.notify.is_none());
    assert_eq!(
        o.cancelled.unwrap().state,
        MapFutureState::Rejected(ErrorClass::Operation)
    );
    assert_eq!(b.state(), GPUBufferState::Unmapped);
}

#[test]
fn destroy_while_pending_rejects_abort() {
    // Destroying while a map is in flight settles the future instead of
    // leaving it dangling.
    let mut b = unmapped_buffer(40);
    match b.MapAsync(MAP_MODE_READ, 8, None) {
        MapAsyncOutcome::Pending(_) => {}
        MapAsyncOutcome::Rejected { .. } => panic!("map request refused"),
    }
    let o = b.Destroy();
    assert_eq!(
        o.cancelled.unwrap().state,
        MapFutureState::Rejected(ErrorClass::Abort)
    );
    assert!(o.unmap.is_none());
    assert_eq!(o.notify.unwrap().buffer_id, 7);
    assert_eq!(b.state(), GPUBufferState::Destroyed);
}

#[test]
fn destroy_unmaps_first_and_is_idempotent() {
    let mut b = mapped_buffer(16);
    let v = b.GetMappedRange(0, Some(8)).unwrap();
    let o = b.Destroy();
    let u = o.unmap.unwrap();
    assert_eq!(u.detached.len(), 1);
    assert!(u.notify.is_some());
    assert_eq!(o.notify.unwrap().buffer_id, 7);
    assert_eq!(b.state(), GPUBufferState::Destroyed);
    assert_eq!(b.read_view(v), Err(ErrorClass::Operation));
    // A second destroy sends nothing further.
    let o2 = b.Destroy();
    assert!(o2.notify.is_none());
    assert!(o2.unmap.is_none());
    assert!(o2.cancelled.is_none());
    // Mapping a destroyed buffer is rejected with an abort-class error.
    match b.MapAsync(MAP_MODE_READ, 0, Some(8)) {
        MapAsyncOutcome::Rejected { future, validation } => {
            assert_eq!(future.state, MapFutureState::Rejected(ErrorClass::Abort));
            assert_eq!(validation, Some(ValidationError::NotUnmapped));
        }
        MapAsyncOutcome::Pending(_) => panic!("destroyed buffer must not map"),
    }
}

#[test]
fn send_failure_reverts_to_unmapped() {
    let mut b = unmapped_buffer(32);
    match b.MapAsync(MAP_MODE_WRITE, 0, None) {
        MapAsyncOutcome::Pending(_) => {}
        MapAsyncOutcome::Rejected { .. } => panic!("map request refused"),
    }
    let cancelled = b.map_request_send_failed();
    assert_eq!(
        cancelled.unwrap().state,
        MapFutureState::Rejected(ErrorClass::Operation)
    );
    assert_eq!(b.state(), GPUBufferState::Unmapped);
    // Without a pending request the hook does nothing.
    assert!(b.map_request_send_failed().is_none());
}

#[test]
fn failed_response_rejects_but_keeps_state() {
    let mut b = unmapped_buffer(8);
    match b.MapAsync(MAP_MODE_READ, 0, None) {
        MapAsyncOutcome::Pending(_) => {}
        MapAsyncOutcome::Rejected { .. } => panic!("map request refused"),
    }
    let out = b.handle_response(MapResponse::Error);
    assert_eq!(
        out.settled.unwrap().state,
        MapFutureState::Rejected(ErrorClass::Abort)
    );
    assert_eq!(out.complete.buffer_id, 7);
    assert_eq!(b.state(), GPUBufferState::MappingPending);
    // A stray second response settles nothing further.
    let out2 = b.handle_response(MapResponse::Bytes(vec![0u8; 8]));
    assert!(out2.settled.is_none());
    assert_eq!(b.state(), GPUBufferState::MappingPending);
    // Unmap still tears the leftover region down.
    let o = b.Unmap();
    assert!(o.cancelled.is_none());
    assert_eq!(b.state(), GPUBufferState::Unmapped);
}

#[test]
fn mapped_at_creation_buffer() {
    let region = GPUBufferMapInfo {
        mapping: vec![0u8; 24],
        mapping_range_start: 0,
        mapping_range_end: 24,
        mapped_ranges: Vec::new(),
        map_mode: None,
    };
    let mut b = GPUBuffer::new(
        11,
        3,
        GPUBufferState::MappedAtCreation,
        24,
        Some(region),
        String::from("staging"),
    );
    let v = b.GetMappedRange(0, None).unwrap();
    b.write_view(v, &vec![5u8; 24]).unwrap();
    let o = b.Destroy();
    let u = o.unmap.unwrap();
    let notify = u.notify.unwrap();
    assert_eq!(notify.bytes, vec![5u8; 24]);
    assert!(!notify.is_map_read);
    assert_eq!(b.state(), GPUBufferState::Destroyed);
}

#[test]
fn labels_are_plain_state() {
    let mut b = unmapped_buffer(4);
    assert_eq!(b.Label(), String::from("buf"));
    b.SetLabel(String::from("renamed"));
    assert_eq!(b.Label(), String::from("renamed"));
    assert_eq!(b.id(), 7);
}
