use hematite::ecs::app::{
    after_tick, AfterTick, PluginRegistry, RunError, RunState, ShutdownFlag, TICK_NANOS,
};

#[test]
fn shutdown_flag_starts_unset() {
    assert!(!ShutdownFlag::new().is_set());
    assert!(!ShutdownFlag::default().is_set());
}

#[test]
fn after_tick_sleeps_out_the_tick() {
    assert_eq!(after_tick(true, 0), AfterTick::Shutdown);
    assert_eq!(after_tick(false, 20_000_000), AfterTick::Sleep(30_000_000));
    assert_eq!(after_tick(false, TICK_NANOS), AfterTick::Continue);
    assert_eq!(after_tick(false, TICK_NANOS + 1), AfterTick::Continue);
}

#[test]
fn run_state_starts_once() {
    let mut state = RunState::new();
    assert_eq!(state.begin(), Ok(()));
    assert_eq!(state.begin(), Err(RunError::AlreadyStarted));
}

#[test]
fn plugin_registry_records_names() {
    let mut registry = PluginRegistry::new();
    assert!(!registry.contains("NetworkingPlugin"));
    registry.add("NetworkingPlugin", true);
    assert!(registry.contains("NetworkingPlugin"));
    registry.add("Helper", false);
    registry.add("Helper", false);
    assert!(registry.contains("Helper"));
    assert!(!registry.contains("Other"));
}
