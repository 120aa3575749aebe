use velox::errors::ExchangeError;
use velox::link::{read_step, Frame, FrameStep, LinkAction, LinkState};

#[test]
fn connection_loop_decisions() {
    let mut link = LinkState::new();
    assert_eq!(link.plan(false, true), LinkAction::Exit);
    assert_eq!(link.plan(true, false), LinkAction::WaitForSymbols);
    assert_eq!(link.plan(true, true), LinkAction::Connect);
    link.on_failure();
    link.on_failure();
    assert_eq!(link.attempt(), 2);
    assert_eq!(link.plan(true, true), LinkAction::Backoff { attempt: 2 });
    assert_eq!(link.after_backoff(false), LinkAction::Exit);
    assert_eq!(link.after_backoff(true), LinkAction::Connect);
    link.on_connected();
    assert!(link.connected());
    assert_eq!(link.attempt(), 0);
    assert_eq!(link.plan(true, true), LinkAction::Connect);
}

#[test]
fn read_session_ends() {
    let mut link = LinkState::new();
    link.on_connected();
    assert!(link.on_read_end(&Err(ExchangeError::StreamEnded)));
    assert_eq!(link.attempt(), 1);
    assert!(!link.connected());
    link.on_connected();
    assert!(link.on_read_end(&Err(ExchangeError::WebSocket("reset".into()))));
    assert!(!link.on_read_end(&Ok(())));
    assert!(!link.on_read_end(&Err(ExchangeError::RateLimited)));
    assert_eq!(link.attempt(), 1);
    link.on_exit();
    assert!(!link.connected());
}

#[test]
fn frames() {
    let go = FrameStep { dispatch: false, keepalive: false, end: None };
    assert_eq!(read_step(&Frame::Text, true, true), FrameStep { dispatch: true, keepalive: false, end: None });
    assert_eq!(read_step(&Frame::Text, false, true), FrameStep { dispatch: true, keepalive: false, end: Some(Ok(())) });
    assert_eq!(read_step(&Frame::Ping, true, true), go);
    assert_eq!(read_step(&Frame::Close, true, true).end, Some(Err(ExchangeError::StreamEnded)));
    assert_eq!(read_step(&Frame::Ended, false, true).end, Some(Err(ExchangeError::StreamEnded)));
    assert_eq!(
        read_step(&Frame::Failed("boom".into()), true, true).end,
        Some(Err(ExchangeError::WebSocket("boom".into())))
    );
    assert_eq!(read_step(&Frame::Quiet, true, false).end, Some(Err(ExchangeError::StreamEnded)));
    assert_eq!(read_step(&Frame::Quiet, true, true), go);
    assert_eq!(read_step(&Frame::KeepaliveDue, true, true), FrameStep { dispatch: false, keepalive: true, end: None });
}
