use lectara_service::shutdown::{
    FutureKind, GracefulShutdownFuture, GracefulShutdownLayer, GracefulShutdownService, Phase,
    PollOutcome, ShutdownState, SERVICE_UNAVAILABLE,
};

fn service(state: ShutdownState) -> GracefulShutdownService<&'static str> {
    GracefulShutdownLayer::new(state).layer("echo")
}

#[test]
fn test_normal_request_processing() {
    let mut svc = service(ShutdownState::new());

    // Normal request should go through
    let mut fut = svc.call();
    assert_eq!(fut.kind(), FutureKind::Inner);
    assert_eq!(svc.state().in_flight_count(), 1);
    assert_eq!(svc.poll(&mut fut, false), PollOutcome::Pending);
    assert_eq!(svc.state().in_flight_count(), 1);
    assert_eq!(svc.poll(&mut fut, true), PollOutcome::InnerReady);

    // In-flight count should be 0 after request completes
    assert_eq!(svc.state().in_flight_count(), 0);
    assert_eq!(*svc.inner(), "echo");
}

#[test]
fn test_rejects_new_requests_during_shutdown() {
    let mut svc = service(ShutdownState::new());

    // Start shutdown
    svc.start_shutdown();

    // New request should be rejected with 503
    let mut fut = svc.call();
    assert_eq!(fut.kind(), FutureKind::Immediate(Some(503)));
    assert_eq!(svc.poll(&mut fut, false), PollOutcome::Rejected(SERVICE_UNAVAILABLE));
    assert!(fut.settled());

    // In-flight count should still be 0
    assert_eq!(svc.state().in_flight_count(), 0);
}

#[test]
fn test_tracks_in_flight_requests() {
    let mut svc = service(ShutdownState::new());

    // Start multiple requests
    let mut futures = vec![];
    for _ in 0..3 {
        futures.push(svc.call());
    }

    // Should have 3 in-flight requests
    assert_eq!(svc.state().in_flight_count(), 3);

    // Wait for all to complete
    for fut in futures.iter_mut() {
        assert_eq!(svc.poll(fut, true), PollOutcome::InnerReady);
    }

    // Should be back to 0
    assert_eq!(svc.state().in_flight_count(), 0);
}

#[test]
fn test_graceful_shutdown_flow() {
    let mut svc = service(ShutdownState::new());

    // Start a request
    let mut fut1 = svc.call();
    assert_eq!(svc.state().in_flight_count(), 1);

    // Start shutdown
    svc.start_shutdown();
    assert_eq!(svc.state().phase(), Phase::Draining);
    assert!(!svc.state().is_drained());

    // Try to start another request - should be rejected
    let mut fut2 = svc.call();
    assert_eq!(svc.poll(&mut fut2, false), PollOutcome::Rejected(503));
    assert_eq!(svc.state().in_flight_count(), 1);

    // Original request should complete successfully
    assert_eq!(svc.poll(&mut fut1, true), PollOutcome::InnerReady);

    // All requests done
    assert_eq!(svc.state().in_flight_count(), 0);
    assert!(svc.state().is_drained());
    assert_eq!(svc.state().phase(), Phase::Drained);
}

#[test]
fn test_concurrent_shutdown_and_requests() {
    const PRE_SHUTDOWN_REQUESTS: usize = 5;
    const POST_SHUTDOWN_REQUESTS: usize = 5;
    const TOTAL_REQUESTS: usize = PRE_SHUTDOWN_REQUESTS + POST_SHUTDOWN_REQUESTS;

    let mut svc = service(ShutdownState::new());

    let mut pre = vec![];
    for _ in 0..PRE_SHUTDOWN_REQUESTS {
        pre.push(svc.call());
    }

    // Verify all requests are in-flight
    assert_eq!(svc.state().in_flight_count(), PRE_SHUTDOWN_REQUESTS);

    // Start shutdown
    svc.start_shutdown();

    let mut post = vec![];
    for _ in 0..POST_SHUTDOWN_REQUESTS {
        post.push(svc.call());
    }

    let mut ok_count = 0;
    let mut unavailable_count = 0;

    // Interleave completions of the accepted requests with the rejections.
    for i in 0..PRE_SHUTDOWN_REQUESTS {
        match svc.poll(&mut post[i], false) {
            PollOutcome::Rejected(503) => unavailable_count += 1,
            other => panic!("Unexpected outcome: {:?}", other),
        }
        match svc.poll(&mut pre[i], true) {
            PollOutcome::InnerReady => ok_count += 1,
            other => panic!("Unexpected outcome: {:?}", other),
        }
    }

    assert_eq!(ok_count, PRE_SHUTDOWN_REQUESTS, "All pre-shutdown requests should succeed");
    assert_eq!(
        unavailable_count, POST_SHUTDOWN_REQUESTS,
        "All post-shutdown requests should be rejected"
    );
    assert_eq!(ok_count + unavailable_count, TOTAL_REQUESTS);

    // All done
    assert_eq!(svc.state().in_flight_count(), 0);
    assert!(svc.state().is_drained());
}

#[test]
fn state_starts_accepting_with_nothing_in_flight() {
    let state = ShutdownState::new();
    assert!(!state.is_shutting_down());
    assert_eq!(state.in_flight_count(), 0);
    assert_eq!(state.phase(), Phase::Accepting);
    assert!(!state.is_drained());
    assert_eq!(ShutdownState::default(), state);
}

#[test]
fn shutdown_with_nothing_in_flight_is_drained_at_once() {
    let mut state = ShutdownState::new();
    state.start_shutdown();
    assert!(state.is_shutting_down());
    assert!(state.is_drained());
    assert_eq!(state.phase(), Phase::Drained);
    state.start_shutdown();
    assert!(state.is_shutting_down());
}

#[test]
fn accept_and_complete_count_one_for_one() {
    let mut state = ShutdownState::new();
    assert!(state.try_accept());
    assert!(state.try_accept());
    assert_eq!(state.in_flight_count(), 2);
    assert!(!state.complete());
    assert_eq!(state.in_flight_count(), 1);
    state.start_shutdown();
    assert!(!state.try_accept());
    assert_eq!(state.in_flight_count(), 1);
    assert!(state.complete());
    assert_eq!(state.in_flight_count(), 0);
}

#[test]
fn completion_before_shutdown_does_not_drain() {
    let mut state = ShutdownState::new();
    assert!(state.try_accept());
    assert!(!state.complete());
    assert!(!state.is_drained());
    assert_eq!(state.phase(), Phase::Accepting);
}

#[test]
fn pending_poll_changes_nothing() {
    let mut svc = service(ShutdownState::new());
    let mut fut = svc.call();
    let before = fut;
    for _ in 0..4 {
        assert_eq!(svc.poll(&mut fut, false), PollOutcome::Pending);
        assert_eq!(fut, before);
        assert!(!fut.settled());
    }
    assert_eq!(svc.state().in_flight_count(), 1);
}

#[test]
fn future_polls_against_a_shared_state() {
    let mut state = ShutdownState::new();
    let mut svc = service(state);
    let mut fut = svc.call();
    state = svc.state();
    assert_eq!(fut.poll(&mut state, true), PollOutcome::InnerReady);
    assert_eq!(state.in_flight_count(), 0);
    assert!(fut.settled());
}

#[test]
fn counter_invariant_under_interleavings() {
    // Every interleaving of three arrivals, their completions and one
    // shutdown signal, by position of the signal and order of completion.
    for shutdown_at in 0..=6 {
        for order in [[0usize, 1, 2], [2, 1, 0], [1, 2, 0], [0, 2, 1]] {
            let mut svc = service(ShutdownState::new());
            let mut futures = vec![];
            let mut accepted = 0;
            let mut event = 0;
            for _ in 0..3 {
                if event == shutdown_at {
                    svc.start_shutdown();
                }
                event += 1;
                let was_shutting_down = svc.state().is_shutting_down();
                let fut = svc.call();
                if was_shutting_down {
                    assert_eq!(fut.kind(), FutureKind::Immediate(Some(503)));
                } else {
                    assert_eq!(fut.kind(), FutureKind::Inner);
                    accepted += 1;
                }
                futures.push(fut);
                assert_eq!(svc.state().in_flight_count(), accepted);
            }
            let mut completed = 0;
            for i in order {
                if event == shutdown_at {
                    svc.start_shutdown();
                }
                event += 1;
                match svc.poll(&mut futures[i], true) {
                    PollOutcome::InnerReady => completed += 1,
                    PollOutcome::Rejected(status) => assert_eq!(status, 503),
                    PollOutcome::Pending => panic!("a ready future stayed pending"),
                }
                assert_eq!(svc.state().in_flight_count(), accepted - completed);
            }
            if event == shutdown_at {
                svc.start_shutdown();
            }
            assert_eq!(completed, accepted);
            assert_eq!(svc.state().in_flight_count(), 0);
            assert!(svc.state().is_drained());
        }
    }
}

#[test]
fn decision_and_increment_are_one_step() {
    let mut state = ShutdownState::new();
    let mut accepted = GracefulShutdownFuture::begin(&mut state);
    assert_eq!(accepted.kind(), FutureKind::Inner);
    assert!(!accepted.settled());
    assert_eq!(state.in_flight_count(), 1);
    state.start_shutdown();
    let mut rejected = GracefulShutdownFuture::begin(&mut state);
    assert_eq!(rejected.kind(), FutureKind::Immediate(Some(SERVICE_UNAVAILABLE)));
    assert!(!rejected.settled());
    assert_eq!(state.in_flight_count(), 1);
    assert_eq!(rejected.poll(&mut state, true), PollOutcome::Rejected(503));
    assert_eq!(rejected.kind(), FutureKind::Immediate(None));
    assert!(rejected.settled());
    assert_eq!(state.in_flight_count(), 1);
    assert_eq!(accepted.poll(&mut state, true), PollOutcome::InnerReady);
    assert!(accepted.settled());
    assert!(state.is_drained());
}
