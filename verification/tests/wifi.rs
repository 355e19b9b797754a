use garden_esp::wifi::{WifiAction, WifiEvent, WifiLink, WifiPhase, RECONNECT_DELAY_SECS};

#[test]
fn link_reconnects_after_disconnect() {
    let (mut link, first) = WifiLink::new();
    assert_eq!(first, WifiAction::Connect);
    assert_eq!(link.step(WifiEvent::Connected), WifiAction::AwaitDisconnect);
    assert_eq!(link.phase(), WifiPhase::Connected);
    assert_eq!(link.step(WifiEvent::Disconnected), WifiAction::Sleep(2));
    assert_eq!(link.step(WifiEvent::TimerElapsed), WifiAction::Connect);
}

#[test]
fn link_retries_after_failed_attempt() {
    let (mut link, _) = WifiLink::new();
    assert_eq!(link.step(WifiEvent::ConnectFailed), WifiAction::Sleep(RECONNECT_DELAY_SECS));
    assert_eq!(link.phase(), WifiPhase::Pausing);
    assert_eq!(link.step(WifiEvent::TimerElapsed), WifiAction::Connect);
    assert_eq!(link.phase(), WifiPhase::Connecting);
}
