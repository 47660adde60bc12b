use steamos_manager::systemd::{
    escape, ActiveState, EnableState, GetUnitReply, JobMode, JobResult, JobWait, SystemdJobWaiter,
    SystemdUnit, UnitMethod,
};

#[test]
fn enable_state_roundtrip() {
    for (text, state) in [
        ("disabled", EnableState::Disabled),
        ("enabled", EnableState::Enabled),
        ("masked", EnableState::Masked),
        ("static", EnableState::Static),
    ] {
        assert_eq!(EnableState::from_str(text).unwrap(), state);
        assert_eq!(state.to_string(), text);
    }
    assert!(EnableState::from_str("loaded").is_err());
}

#[test]
fn job_mode_roundtrip() {
    for (text, mode) in [
        ("replace", JobMode::Replace),
        ("fail", JobMode::Fail),
        ("isolate", JobMode::Isolate),
        ("ignore-dependencies", JobMode::IgnoreDependencies),
        ("ignore-requirements", JobMode::IgnoreRequirements),
    ] {
        assert_eq!(JobMode::from_str(text).unwrap(), mode);
        assert_eq!(mode.to_string(), text);
    }
    assert!(JobMode::from_str("failed").is_err());
}

#[test]
fn active_states() {
    for (text, state, active) in [
        ("active", ActiveState::Active, true),
        ("inactive", ActiveState::Inactive, false),
        ("failed", ActiveState::Failed, false),
        ("activating", ActiveState::Activating, true),
        ("deactivating", ActiveState::Deactivating, false),
        ("reloading", ActiveState::Reloading, true),
        ("refreshing", ActiveState::Refreshing, true),
    ] {
        assert_eq!(ActiveState::from_str(text).unwrap(), state);
        assert_eq!(state.to_string(), text);
        assert_eq!(state.is_active(), active);
    }
}

#[test]
fn job_results() {
    for (text, result) in [
        ("done", JobResult::Done),
        ("canceled", JobResult::Canceled),
        ("timeout", JobResult::Timeout),
        ("failed", JobResult::Failed),
        ("dependency", JobResult::Dependency),
        ("skipped", JobResult::Skipped),
    ] {
        assert_eq!(JobResult::from_str(text).unwrap(), result);
        assert_eq!(result.to_string(), text);
    }
}

#[test]
fn test_escape() {
    assert_eq!(escape("systemd"), "systemd");
    assert_eq!(escape("system d"), "system_20d");
}

#[test]
fn escape_edges() {
    assert_eq!(escape(""), "");
    assert_eq!(escape("test.service"), "test_2eservice");
    assert_eq!(escape("a_b\n"), "a_5fb_0a");
    assert_eq!(escape("\u{e9}"), "_e9");
    // beyond one byte two names can meet
    assert_eq!(escape("\u{2e35}"), escape(".35"));
}

fn change() -> Vec<(String, String, String)> {
    vec![(String::new(), String::new(), "test.service".to_string())]
}

#[test]
fn test_unit() {
    let unit = SystemdUnit::new("test.service");
    let path = "/org/freedesktop/systemd1/unit/test_2eservice";
    assert_eq!(unit.path(), path);
    assert_eq!(unit.active("inactive").unwrap(), ActiveState::Inactive);
    for (call, method) in [
        (unit.start(JobMode::Fail), UnitMethod::Start),
        (unit.restart(JobMode::Fail), UnitMethod::Restart),
        (unit.stop(JobMode::Fail), UnitMethod::Stop),
        (unit.reload(JobMode::Fail), UnitMethod::Reload),
    ] {
        assert_eq!(call.path, path);
        assert_eq!(call.method, method);
        assert_eq!(call.mode, "fail");
    }
    assert_eq!(unit.active("active").unwrap(), ActiveState::Active);
    assert_eq!(unit.enabled("disabled").unwrap(), EnableState::Disabled);
    assert!(unit.enable(&change()));
    assert_eq!(unit.enabled("enabled").unwrap(), EnableState::Enabled);
    assert!(unit.disable(&change()));
    assert!(unit.enabled("loaded").is_err());
}

#[test]
fn test_manager() {
    let unit = SystemdUnit::new("test.service");
    assert!(unit.enable(&change()));
    assert!(!unit.enable(&vec![]));
    assert!(unit.disable(&change()));
    assert!(!unit.disable(&vec![]));
    assert!(unit.mask(&change()));
    assert!(!unit.mask(&vec![]));
    assert!(unit.unmask(&change()));
    assert!(!unit.unmask(&vec![]));
}

#[test]
fn loaded_units() {
    let name = "a.service";
    assert_eq!(
        SystemdUnit::is_loaded(name, &GetUnitReply::Found),
        Some(true)
    );
    assert_eq!(
        SystemdUnit::is_loaded(
            name,
            &GetUnitReply::MethodError("org.freedesktop.systemd1.NoSuchUnit".to_string())
        ),
        Some(false)
    );
    assert_eq!(
        SystemdUnit::is_loaded(
            name,
            &GetUnitReply::Failure("Unit a.service not loaded.".to_string())
        ),
        Some(false)
    );
    assert_eq!(
        SystemdUnit::is_loaded(
            name,
            &GetUnitReply::Failure("Unit b.service not loaded.".to_string())
        ),
        None
    );
    assert_eq!(
        SystemdUnit::is_loaded(name, &GetUnitReply::OtherError),
        None
    );
}

fn signal(job: &str, result: &str) -> (String, String) {
    (job.to_string(), result.to_string())
}

#[test]
fn waiting_for_a_job() {
    let waiter = SystemdJobWaiter {
        object: "/job/1".to_string(),
    };
    assert_eq!(
        waiter.on_signal(&Some(signal("/job/2", "done"))),
        JobWait::Waiting
    );
    assert_eq!(
        waiter.on_signal(&Some(signal("/job/1", "timeout"))),
        JobWait::Ended(JobResult::Timeout)
    );
    assert_eq!(
        waiter.on_signal(&Some(signal("/job/1", "lost"))),
        JobWait::UnknownResult
    );
    assert_eq!(waiter.on_signal(&None), JobWait::PipeExited);
    assert_eq!(
        waiter.wait(&vec![signal("/job/2", "failed"), signal("/job/1", "done")]),
        JobWait::Ended(JobResult::Done)
    );
    let waiter = SystemdJobWaiter {
        object: "/job/1".to_string(),
    };
    assert_eq!(waiter.wait(&vec![]), JobWait::PipeExited);
}
