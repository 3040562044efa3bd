use pandoras_pot::config::GeneratorConfig;
use pandoras_pot::config::GeneratorType;
use pandoras_pot::generator::Generator;
use pandoras_pot::session::PermitPool;
use pandoras_pot::session::Session;
use pandoras_pot::session::SessionPhase;

fn config(max_concurrent: usize, time_limit: u64, size_limit: usize) -> GeneratorConfig {
    GeneratorConfig::new(
        64,
        GeneratorType::Random,
        max_concurrent,
        time_limit,
        size_limit,
        1,
        "<html>".to_string(),
    )
}

#[test]
fn generator_is_limited() {
    for limit in 1..50 {
        let mut generator = Generator::from_config(config(limit, 0, 0));
        let mut sessions = Vec::with_capacity(limit);
        for _ in 0..limit {
            let session = generator.try_begin();
            assert!(session.is_some(), "Receiver within limit have not sent message");
            sessions.push(session.unwrap());
        }
        // One more must be blocked while all permits are outstanding.
        assert!(generator.try_begin().is_none(), "should be blocked");
        // As soon as one session ends, admission works again.
        generator.end_session();
        assert!(generator.try_begin().is_some());
    }
}

#[test]
fn permit_pool_counts() {
    let mut pool = PermitPool::new(2);
    assert!(pool.try_acquire());
    assert!(pool.try_acquire());
    assert!(!pool.try_acquire());
    pool.release();
    assert!(pool.try_acquire());
    assert!(!pool.try_acquire());
}

#[test]
fn first_chunk_is_exempt_from_limits() {
    // size_limit far below the first chunk: the first delivery still
    // happens, and the very next check ends the stream.
    let mut session = Session::new(&config(1, 0, 1));
    assert_eq!(session.phase, SessionPhase::Admitted);
    session.first_sent(100);
    assert_eq!(session.phase, SessionPhase::Streaming);
    assert_eq!(session.bytes_written, 100);
    assert!(!session.check_limits(Some(0)));
    assert_eq!(session.phase, SessionPhase::LimitReached);
}

#[test]
fn size_limit_ends_stream_after_breach() {
    let mut session = Session::new(&config(1, 0, 250));
    session.first_sent(100);
    assert!(session.check_limits(Some(0)));
    session.chunk_sent(100);
    assert_eq!(session.bytes_written, 200);
    // 200 < 250: one more chunk may flow.
    assert!(session.check_limits(Some(0)));
    session.chunk_sent(100);
    assert_eq!(session.bytes_written, 300);
    // Delivered 300 = 250 + at most one extra chunk; now the stream ends.
    assert!(!session.check_limits(Some(0)));
    assert_eq!(session.phase, SessionPhase::LimitReached);
}

#[test]
fn time_limit_ends_stream_at_or_after_limit() {
    let mut session = Session::new(&config(1, 2, 0));
    session.first_sent(10);
    // Within two seconds the stream flows.
    assert!(session.check_limits(Some(0)));
    assert!(session.check_limits(Some(1999)));
    assert!(session.check_limits(Some(2000)));
    // A clock fault counts as no time passed.
    assert!(session.check_limits(None));
    // Past the limit the stream ends.
    assert!(!session.check_limits(Some(2001)));
    assert_eq!(session.phase, SessionPhase::LimitReached);
}

#[test]
fn no_limits_when_configured_zero() {
    let mut session = Session::new(&config(1, 0, 0));
    session.first_sent(1000);
    assert!(session.check_limits(Some(u64::MAX)));
    session.chunk_sent(usize::MAX);
    assert!(session.check_limits(Some(u64::MAX)));
}

#[test]
fn strategy_exhaustion_aborts_session() {
    let mut session = Session::new(&config(1, 0, 0));
    session.strategy_exhausted();
    assert_eq!(session.phase, SessionPhase::Exhausted);
    assert_eq!(session.bytes_written, 0);
}

#[test]
fn disconnect_frees_permit_for_waiting_session() {
    // One permit only: a second stream has to wait.
    let mut generator = Generator::from_config(config(1, 0, 0));
    let mut session = generator.try_begin().expect("first session admitted");
    assert!(generator.try_begin().is_none());

    // The consumer takes exactly three chunks, then goes away.
    session.first_sent(64);
    assert!(session.check_limits(Some(0)));
    session.chunk_sent(64);
    assert!(session.check_limits(Some(5)));
    session.chunk_sent(64);
    session.consumer_gone();
    assert_eq!(session.phase, SessionPhase::Disconnected);
    assert_eq!(session.bytes_written, 192);

    // Tearing the session down releases its permit, and the waiting
    // session proceeds.
    generator.end_session();
    let waiting = generator.try_begin();
    assert!(waiting.is_some());
    assert_eq!(waiting.unwrap().phase, SessionPhase::Admitted);
}
