//! The restart and port policies on concrete values.
use eo9_stubs::restart::{always, backoff, never, Backoff, FailureHistory, RestartAction};

fn after(total_restarts: u32) -> FailureHistory {
    FailureHistory { total_restarts }
}

#[test]
fn always_restarts_and_never_does_not() {
    for count in [0, 1, 7, u32::MAX] {
        assert_eq!(always(after(count)), RestartAction::Restart);
        assert_eq!(never(after(count)), RestartAction::GiveUp);
    }
}

#[test]
fn backoff_doubles_from_its_base() {
    let config = Some(Backoff { max_restarts: 5, base_delay_ms: 200 });
    let delays: Vec<RestartAction> = (0..6).map(|n| backoff(&config, after(n))).collect();
    assert_eq!(
        delays,
        vec![
            RestartAction::RestartAfterMs(200),
            RestartAction::RestartAfterMs(400),
            RestartAction::RestartAfterMs(800),
            RestartAction::RestartAfterMs(1600),
            RestartAction::RestartAfterMs(3200),
            RestartAction::GiveUp,
        ]
    );
}

#[test]
fn backoff_is_capped_at_an_hour() {
    let config = Some(Backoff { max_restarts: u32::MAX, base_delay_ms: 1 });
    assert_eq!(backoff(&config, after(21)), RestartAction::RestartAfterMs(2_097_152));
    assert_eq!(backoff(&config, after(22)), RestartAction::RestartAfterMs(3_600_000));
    assert_eq!(backoff(&config, after(4_000_000_000)), RestartAction::RestartAfterMs(3_600_000));
    let large = Some(Backoff { max_restarts: 3, base_delay_ms: u64::MAX });
    assert_eq!(backoff(&large, after(2)), RestartAction::RestartAfterMs(3_600_000));
    let none = Some(Backoff { max_restarts: 3, base_delay_ms: 0 });
    assert_eq!(backoff(&none, after(2)), RestartAction::RestartAfterMs(0));
}

#[test]
fn backoff_without_configuration_gives_up() {
    assert_eq!(backoff(&None, after(0)), RestartAction::GiveUp);
}
