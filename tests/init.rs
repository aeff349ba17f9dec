use deft_cli::init::{InitAction, InitEvent, InitFlow, Report, Stage};
use deft_cli::platform::{InitCommand, Platform, EXEC_MODE};

#[test]
fn platform_table() {
    assert_eq!(Platform::Ohos.name(), "ohos");
    assert_eq!(Platform::Android.name(), "android");
    assert_eq!(Platform::Ohos.target_dir(), "ohos");
    assert_eq!(Platform::Android.target_dir(), "android");
    assert_eq!(Platform::Ohos.placeholder_file(), "AppScope/app.json5");
    assert_eq!(Platform::Android.placeholder_file(), "app/build.gradle");
    assert_eq!(Platform::Ohos.placeholder(), "fun.kason.deftapp");
    assert_eq!(Platform::Android.placeholder(), "fun.kason.deft_demo");
    assert_eq!(Platform::Ohos.exec_script(), None);
    assert_eq!(Platform::Android.exec_script(), Some("gradlew"));
    assert_eq!(EXEC_MODE, 0o744);
    let cmd = InitCommand { platform: Platform::Android };
    assert_eq!(cmd.platform, Platform::Android);
}

#[test]
fn existing_target_is_a_successful_no_op() {
    for platform in [Platform::Ohos, Platform::Android] {
        let flow = InitFlow::new(platform);
        match flow.pending() {
            InitAction::CheckTarget { dir } => assert_eq!(dir, platform.target_dir()),
            other => panic!("unexpected {:?}", other),
        }
        let (flow, report) = flow.on_event(InitEvent::TargetExists(true));
        match report {
            Some(Report::Notice(m)) => assert_eq!(m, format!("{} already exists", platform.target_dir())),
            other => panic!("unexpected {:?}", other),
        }
        assert_eq!(flow.stage, Stage::Finished);
        assert!(matches!(flow.pending(), InitAction::Exit { ok: true }));
    }
}

#[test]
fn android_run_in_order() {
    let flow = InitFlow::new(Platform::Android);
    let (flow, r) = flow.on_event(InitEvent::TargetExists(false));
    assert!(r.is_none());
    assert!(matches!(flow.pending(), InitAction::PromptAppId));
    let (flow, _) = flow.on_event(InitEvent::AppIdEntered("com.example.app".to_string()));
    match flow.pending() {
        InitAction::Materialize { dir } => assert_eq!(dir, "android"),
        other => panic!("unexpected {:?}", other),
    }
    let (flow, _) = flow.on_event(InitEvent::StepDone);
    match flow.pending() {
        InitAction::Rewrite { file, search, replacement } => {
            assert_eq!(file, "android/app/build.gradle");
            assert_eq!(search, "fun.kason.deft_demo");
            assert_eq!(replacement, "com.example.app");
        }
        other => panic!("unexpected {:?}", other),
    }
    let (flow, _) = flow.on_event(InitEvent::StepDone);
    match flow.pending() {
        InitAction::WriteAppId { platform, app_id } => {
            assert_eq!(platform, "android");
            assert_eq!(app_id, "com.example.app");
        }
        other => panic!("unexpected {:?}", other),
    }
    let (flow, _) = flow.on_event(InitEvent::StepDone);
    match flow.pending() {
        InitAction::FixPermission { file, mode } => {
            assert_eq!(file, "android/gradlew");
            assert_eq!(mode, 0o744);
        }
        other => panic!("unexpected {:?}", other),
    }
    let (flow, _) = flow.on_event(InitEvent::StepDone);
    assert!(matches!(flow.pending(), InitAction::Exit { ok: true }));
}

#[test]
fn ohos_run_ends_after_persist() {
    let flow = InitFlow::new(Platform::Ohos);
    let (flow, _) = flow.on_event(InitEvent::TargetExists(false));
    let (flow, _) = flow.on_event(InitEvent::AppIdEntered("a.b".to_string()));
    let (flow, _) = flow.on_event(InitEvent::StepDone);
    match flow.pending() {
        InitAction::Rewrite { file, search, replacement } => {
            assert_eq!(file, "ohos/AppScope/app.json5");
            assert_eq!(search, "fun.kason.deftapp");
            assert_eq!(replacement, "a.b");
        }
        other => panic!("unexpected {:?}", other),
    }
    let (flow, _) = flow.on_event(InitEvent::StepDone);
    let (flow, _) = flow.on_event(InitEvent::StepDone);
    assert_eq!(flow.stage, Stage::Finished);
    assert!(matches!(flow.pending(), InitAction::Exit { ok: true }));
}

#[test]
fn invalid_identifier_prompts_again() {
    let flow = InitFlow::new(Platform::Ohos);
    let (flow, _) = flow.on_event(InitEvent::TargetExists(false));
    let (flow, r) = flow.on_event(InitEvent::AppIdEntered("fun".to_string()));
    assert!(r.is_none());
    assert_eq!(flow.stage, Stage::Prompt);
    assert_eq!(flow.app_id, "");
}

#[test]
fn config_failure_is_reported_not_fatal() {
    let flow = InitFlow::new(Platform::Ohos);
    let (flow, _) = flow.on_event(InitEvent::TargetExists(false));
    let (flow, _) = flow.on_event(InitEvent::AppIdEntered("a.b".to_string()));
    let (flow, _) = flow.on_event(InitEvent::StepDone);
    let (flow, _) = flow.on_event(InitEvent::StepDone);
    let (flow, r) = flow.on_event(InitEvent::StepFailed("expected value at line 1 column 1".to_string()));
    match r {
        Some(Report::Error(m)) => assert_eq!(m, "expected value at line 1 column 1"),
        other => panic!("unexpected {:?}", other),
    }
    assert!(flow.ok);
    assert!(matches!(flow.pending(), InitAction::Exit { ok: true }));
}

#[test]
fn permission_failure_is_reported_not_fatal() {
    let flow = InitFlow::new(Platform::Android);
    let (flow, _) = flow.on_event(InitEvent::TargetExists(false));
    let (flow, _) = flow.on_event(InitEvent::AppIdEntered("a.b".to_string()));
    let (flow, _) = flow.on_event(InitEvent::StepDone);
    let (flow, _) = flow.on_event(InitEvent::StepDone);
    let (flow, _) = flow.on_event(InitEvent::StepDone);
    let (flow, r) = flow.on_event(InitEvent::StepFailed("no such file".to_string()));
    assert!(matches!(r, Some(Report::Error(_))));
    assert!(matches!(flow.pending(), InitAction::Exit { ok: true }));
}

#[test]
fn materialize_failure_is_fatal() {
    let flow = InitFlow::new(Platform::Android);
    let (flow, _) = flow.on_event(InitEvent::TargetExists(false));
    let (flow, _) = flow.on_event(InitEvent::AppIdEntered("a.b".to_string()));
    let (flow, r) = flow.on_event(InitEvent::StepFailed("disk full".to_string()));
    assert!(matches!(r, Some(Report::Error(_))));
    assert!(matches!(flow.pending(), InitAction::Exit { ok: false }));
}

#[test]
fn rewrite_failure_is_fatal() {
    let flow = InitFlow::new(Platform::Ohos);
    let (flow, _) = flow.on_event(InitEvent::TargetExists(false));
    let (flow, _) = flow.on_event(InitEvent::AppIdEntered("a.b".to_string()));
    let (flow, _) = flow.on_event(InitEvent::StepDone);
    let (flow, _) = flow.on_event(InitEvent::StepFailed("stream did not contain valid UTF-8".to_string()));
    assert!(matches!(flow.pending(), InitAction::Exit { ok: false }));
}

#[test]
fn prompt_cancel_is_fatal() {
    let flow = InitFlow::new(Platform::Ohos);
    let (flow, _) = flow.on_event(InitEvent::TargetExists(false));
    let (flow, r) = flow.on_event(InitEvent::PromptFailed("Operation was canceled by the user".to_string()));
    assert!(matches!(r, Some(Report::Error(_))));
    assert!(matches!(flow.pending(), InitAction::Exit { ok: false }));
}

#[test]
fn unexpected_event_changes_nothing() {
    let flow = InitFlow::new(Platform::Ohos);
    let (flow, r) = flow.on_event(InitEvent::StepDone);
    assert!(r.is_none());
    assert_eq!(flow.stage, Stage::CheckTarget);
    assert!(flow.ok);
}
