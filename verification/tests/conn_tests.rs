use apns::conn::ConnAction;
use apns::conn::ConnEvent;
use apns::conn::ConnectionManager;

#[test]
fn send_succeeds_on_third_write_after_two_reconnects() {
    let mut manager = ConnectionManager::new();
    let mut connects: u32 = 0;
    let mut writes: u32 = 0;
    loop {
        match manager.next_action() {
            ConnAction::Connect => {
                connects += 1;
                manager.step(ConnEvent::ConnectSucceeded);
            }
            ConnAction::Write => {
                writes += 1;
                if writes <= 2 {
                    manager.step(ConnEvent::WriteFailed);
                } else {
                    manager.step(ConnEvent::WriteSucceeded);
                }
            }
            ConnAction::ReportSuccess => break,
            ConnAction::ReportFailure => panic!("send should have succeeded"),
        }
    }
    assert_eq!(writes, 3);
    // the initial connect, then exactly two reconnects
    assert_eq!(connects, 3);
}

#[test]
fn always_failing_writes_exhaust_the_budget() {
    let mut manager = ConnectionManager::new();
    let mut writes: u32 = 0;
    loop {
        match manager.next_action() {
            ConnAction::Connect => manager.step(ConnEvent::ConnectSucceeded),
            ConnAction::Write => {
                writes += 1;
                manager.step(ConnEvent::WriteFailed);
            }
            ConnAction::ReportFailure => break,
            ConnAction::ReportSuccess => panic!("send should have failed"),
        }
    }
    assert_eq!(writes, 3);
    // terminal: no fourth write is ever asked for
    assert_eq!(manager.next_action(), ConnAction::ReportFailure);
    manager.step(ConnEvent::ConnectSucceeded);
    assert_eq!(manager.next_action(), ConnAction::ReportFailure);
}

#[test]
fn failed_reconnects_share_the_budget() {
    let mut manager = ConnectionManager::new();
    let mut connects: u32 = 0;
    loop {
        match manager.next_action() {
            ConnAction::Connect => {
                connects += 1;
                manager.step(ConnEvent::ConnectFailed);
            }
            ConnAction::ReportFailure => break,
            _ => panic!("only connects should be asked for"),
        }
    }
    assert_eq!(connects, 3);
}

#[test]
fn one_write_and_done() {
    let mut manager = ConnectionManager::new();
    assert_eq!(manager.next_action(), ConnAction::Connect);
    manager.step(ConnEvent::ConnectSucceeded);
    assert_eq!(manager.next_action(), ConnAction::Write);
    manager.step(ConnEvent::WriteSucceeded);
    assert_eq!(manager.next_action(), ConnAction::ReportSuccess);
}
