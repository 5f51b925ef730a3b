use heatsolve::readback::{ReadbackError, ReadbackSource, ReadbackStatus, Staging, StagingState};

#[test]
fn full_readback_cycle() {
    let mut s = Staging::new();
    assert_eq!(s.poll(), ReadbackStatus::Idle);
    assert_eq!(s.request(ReadbackSource::Data, 8), Ok(()));
    assert_eq!(s.poll(), ReadbackStatus::Pending);
    assert_eq!(s.take(vec![0; 8]), Err(ReadbackError::NotReady));
    s.map_finished(true);
    assert_eq!(s.poll(), ReadbackStatus::Ready);
    assert_eq!(s.take(vec![1, 2, 3, 4, 5, 6, 7, 8]), Ok(vec![1, 2, 3, 4, 5, 6, 7, 8]));
    assert_eq!(s.state(), StagingState::Taken { source: ReadbackSource::Data });
    assert_eq!(s.request(ReadbackSource::Colormap, 4), Err(ReadbackError::StillMapped));
    assert_eq!(s.unmap(), Ok(()));
    assert_eq!(s.request(ReadbackSource::Colormap, 4), Ok(()));
}

#[test]
fn second_request_while_pending_is_refused() {
    let mut s = Staging::new();
    assert_eq!(s.request(ReadbackSource::Data, 8), Ok(()));
    assert_eq!(s.request(ReadbackSource::Data, 8), Err(ReadbackError::InFlight));
    assert_eq!(s.unmap(), Err(ReadbackError::InFlight));
    assert_eq!(s.state(), StagingState::Pending { source: ReadbackSource::Data, bytes: 8 });
}

#[test]
fn mapped_but_untaken_buffer_refuses_a_copy() {
    let mut s = Staging::new();
    s.request(ReadbackSource::Colormap, 4).unwrap();
    s.map_finished(true);
    assert_eq!(s.request(ReadbackSource::Data, 4), Err(ReadbackError::StillMapped));
}

#[test]
fn failed_map_can_be_retried() {
    let mut s = Staging::new();
    s.request(ReadbackSource::Data, 8).unwrap();
    s.map_finished(false);
    assert_eq!(s.poll(), ReadbackStatus::Failed);
    assert_eq!(s.take(vec![0; 8]), Err(ReadbackError::MapFailed));
    assert_eq!(s.request(ReadbackSource::Data, 8), Ok(()));
}

#[test]
fn timeout_fails_the_readback() {
    let mut s = Staging::new();
    s.request(ReadbackSource::Data, 8).unwrap();
    s.timed_out();
    assert_eq!(s.state(), StagingState::Failed);
    s.timed_out();
    assert_eq!(s.state(), StagingState::Failed);
}

#[test]
fn wrong_size_is_reported() {
    let mut s = Staging::new();
    s.request(ReadbackSource::Data, 8).unwrap();
    s.map_finished(true);
    assert_eq!(s.take(vec![0; 4]), Err(ReadbackError::SizeMismatch { expected: 8, actual: 4 }));
    assert_eq!(s.poll(), ReadbackStatus::Ready);
}

#[test]
fn take_without_request_is_refused() {
    let mut s = Staging::new();
    assert_eq!(s.take(vec![]), Err(ReadbackError::NothingRequested));
    assert_eq!(s.unmap(), Ok(()));
}
