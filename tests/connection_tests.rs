use uart_bridge::config::SerialConfig;
use uart_bridge::connection::{
    names_auto_detect, wants_auto_detect, ConnectionState, LinkAction, LinkEvent, LinkManager,
};

fn serial(max_retry_count: u32, retry_delay_ms: u64) -> SerialConfig {
    SerialConfig {
        port_name: "/dev/ttyUSB0".to_string(),
        baud_rate: 115200,
        timeout_ms: 1000,
        max_retry_count,
        retry_delay_ms,
    }
}

#[test]
fn validation_retries_until_success() {
    let mut m = LinkManager::new(&serial(3, 10), false);
    let mut states = vec![m.get_state()];
    let mut waited: u64 = 0;
    let mut action = m.step(LinkEvent::Start);
    states.push(m.get_state());
    let mut probes = 0;
    loop {
        match action {
            LinkAction::Probe { delay_ms } => {
                waited += delay_ms;
                probes += 1;
                let ev = if probes < 3 { LinkEvent::ProbeFailed } else { LinkEvent::ProbeSucceeded };
                action = m.step(ev);
                states.push(m.get_state());
            }
            _ => break,
        }
    }
    assert_eq!(
        states,
        vec![
            ConnectionState::Initializing,
            ConnectionState::Validating,
            ConnectionState::Validating,
            ConnectionState::Validating,
            ConnectionState::Connected,
        ]
    );
    assert!(waited >= 20);
    assert_eq!(action, LinkAction::Open { delay_ms: 500 });
    assert_eq!(m.step(LinkEvent::Opened), LinkAction::Listen);
}

#[test]
fn validation_fails_after_max_attempts() {
    let mut m = LinkManager::new(&serial(2, 10), false);
    assert_eq!(m.step(LinkEvent::Start), LinkAction::Probe { delay_ms: 0 });
    assert_eq!(m.step(LinkEvent::ProbeFailed), LinkAction::Probe { delay_ms: 10 });
    assert_eq!(m.attempt, 2);
    assert_eq!(m.step(LinkEvent::ProbeFailed), LinkAction::Fail);
    assert_eq!(m.get_state(), ConnectionState::Failed);
    assert_eq!(m.step(LinkEvent::Start), LinkAction::Ignore);
    assert_eq!(m.get_state(), ConnectionState::Failed);
}

#[test]
fn idle_ticks_change_nothing() {
    let mut m = LinkManager::new(&serial(3, 10), false);
    m.step(LinkEvent::Start);
    m.step(LinkEvent::ProbeFailed);
    let before = m;
    assert_eq!(m.step(LinkEvent::IdleTimeout), LinkAction::KeepReading);
    assert_eq!(m.state, before.state);
    assert_eq!(m.attempt, before.attempt);
    m.step(LinkEvent::ProbeSucceeded);
    m.step(LinkEvent::Opened);
    for _ in 0..5 {
        assert_eq!(m.step(LinkEvent::IdleTimeout), LinkAction::KeepReading);
        assert_eq!(m.get_state(), ConnectionState::Connected);
        assert_eq!(m.attempt, 2);
    }
}

#[test]
fn lost_link_reconnects() {
    let mut m = LinkManager::new(&serial(3, 25), false);
    m.step(LinkEvent::Start);
    m.step(LinkEvent::ProbeSucceeded);
    assert_eq!(m.step(LinkEvent::LinkLost), LinkAction::Reconnect { delay_ms: 25 });
    assert_eq!(m.get_state(), ConnectionState::Reconnecting { attempts: 0 });
    assert_eq!(m.step(LinkEvent::Start), LinkAction::Ignore);
    assert_eq!(m.get_state(), ConnectionState::Reconnecting { attempts: 0 });
    assert_eq!(m.step(LinkEvent::Reattempt), LinkAction::Resume);
    assert_eq!(m.get_state(), ConnectionState::Initializing);
    assert_eq!(m.attempt, 0);
    assert_eq!(m.step(LinkEvent::Start), LinkAction::Probe { delay_ms: 0 });
    assert_eq!(m.get_state(), ConnectionState::Validating);
    assert_eq!(m.attempt, 1);
}

#[test]
fn reconnect_with_auto_detection_scans_again() {
    let mut m = LinkManager::new(&serial(3, 25), true);
    m.step(LinkEvent::Start);
    m.step(LinkEvent::Detected(true));
    m.step(LinkEvent::ProbeSucceeded);
    m.step(LinkEvent::LinkLost);
    assert_eq!(m.step(LinkEvent::Reattempt), LinkAction::Resume);
    assert_eq!(m.get_state(), ConnectionState::Initializing);
    assert_eq!(m.step(LinkEvent::Start), LinkAction::Detect);
}

#[test]
fn auto_detection_path() {
    let mut m = LinkManager::new(&serial(3, 10), true);
    assert_eq!(m.step(LinkEvent::Start), LinkAction::Detect);
    assert_eq!(m.get_state(), ConnectionState::Initializing);
    assert_eq!(m.step(LinkEvent::Detected(true)), LinkAction::Probe { delay_ms: 1000 });
    assert_eq!(m.get_state(), ConnectionState::Validating);
    let mut n = LinkManager::new(&serial(3, 10), true);
    n.step(LinkEvent::Start);
    assert_eq!(n.step(LinkEvent::Detected(false)), LinkAction::Fail);
    assert_eq!(n.get_state(), ConnectionState::Failed);
}

#[test]
fn auto_port_name_in_any_case() {
    assert!(wants_auto_detect("auto"));
    assert!(wants_auto_detect("AUTO"));
    assert!(wants_auto_detect("Auto"));
    assert!(!wants_auto_detect("/dev/ttyUSB0"));
    assert!(!wants_auto_detect("automatic"));
    assert!(names_auto_detect("auto"));
    assert!(!names_auto_detect("AUTO"));
}
