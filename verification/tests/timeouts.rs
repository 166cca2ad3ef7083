use cli_hub::speedtest::{
    SpeedtestService, DEFAULT_TIMEOUT_SECS, MAX_TIMEOUT_SECS, MIN_TIMEOUT_SECS,
};

#[test]
fn sanitize_timeout_clamps_values() {
    assert_eq!(SpeedtestService::sanitize_timeout(Some(1)), MIN_TIMEOUT_SECS);
    assert_eq!(SpeedtestService::sanitize_timeout(Some(999)), MAX_TIMEOUT_SECS);
    assert_eq!(
        SpeedtestService::sanitize_timeout(Some(10)),
        10u64.clamp(MIN_TIMEOUT_SECS, MAX_TIMEOUT_SECS)
    );
    assert_eq!(SpeedtestService::sanitize_timeout(None), DEFAULT_TIMEOUT_SECS);
}
