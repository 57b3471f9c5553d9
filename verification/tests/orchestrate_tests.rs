use bearcds::errors::DeployError;
use bearcds::orchestrate::{announcement, collect_batch, wait_step, RunEvent, RunState, WaitVerdict};

#[test]
fn a_clean_run_walks_the_whole_pipeline_in_order() {
    let mut s = RunState::Idle;
    s = s.advance(RunEvent::Start);
    assert_eq!(s, RunState::EnsuringApplication);
    let expected = [
        RunState::BuildingImages,
        RunState::PushingImages,
        RunState::ReconcilingInstances,
        RunState::EnsuringIngress,
        RunState::ComposingProxyConfig,
        RunState::PushingProxyConfig,
        RunState::Done,
    ];
    for stage in expected {
        s = s.advance(RunEvent::StageOk);
        assert_eq!(s, stage);
    }
    assert!(s.is_finished());
}

#[test]
fn a_failed_stage_ends_the_run_and_terminal_states_absorb() {
    let s = RunState::ReconcilingInstances.advance(RunEvent::StageFailed);
    assert_eq!(s, RunState::Failed);
    assert_eq!(s.advance(RunEvent::StageOk), RunState::Failed);
    assert_eq!(s.advance(RunEvent::Start), RunState::Failed);
    assert_eq!(RunState::Done.advance(RunEvent::StageFailed), RunState::Done);
}

#[test]
fn collect_batch_succeeds_only_when_every_container_did() {
    let all_ok: Vec<Result<u32, DeployError>> = vec![Ok(1), Ok(2), Ok(3)];
    assert_eq!(collect_batch(all_ok).unwrap(), vec![1, 2, 3]);

    let mixed: Vec<Result<u32, DeployError>> = vec![
        Ok(1),
        Err(DeployError::Transport("boom".to_string())),
        Ok(3),
        Err(DeployError::RemoteRejection("{\"error\":\"no\"}".to_string())),
    ];
    let errs = collect_batch(mixed).unwrap_err();
    assert_eq!(
        errs,
        vec![
            DeployError::Transport("boom".to_string()),
            DeployError::RemoteRejection("{\"error\":\"no\"}".to_string()),
        ]
    );
    assert_eq!(errs[0].message(), "transport error: boom");
    assert_eq!(errs[1].message(), "remote rejection: {\"error\":\"no\"}");
}

#[test]
fn bounded_wait_times_out_instead_of_spinning_forever() {
    assert_eq!(wait_step(true, 0), WaitVerdict::Ready);
    assert_eq!(wait_step(false, 5), WaitVerdict::Retry(4));
    assert_eq!(wait_step(false, 1), WaitVerdict::Retry(0));
    assert_eq!(wait_step(false, 0), WaitVerdict::TimedOut);
    assert_eq!(
        DeployError::Timeout("ingress".to_string()).message(),
        "timed out waiting for ingress"
    );
}

#[test]
fn announcements_name_up_to_three_challenges() {
    let one = vec!["a/x".to_string()];
    let two = vec!["a/x".to_string(), "b/y".to_string()];
    let three = vec!["a/x".to_string(), "b/y".to_string(), "c/z".to_string()];
    let four = vec![
        "a/x".to_string(),
        "b/y".to_string(),
        "c/z".to_string(),
        "d/w".to_string(),
    ];
    assert_eq!(announcement("Deploying ", &one), "Deploying a/x");
    assert_eq!(announcement("Deploying ", &two), "Deploying a/x and b/y");
    assert_eq!(announcement("Building ", &three), "Building a/x, b/y and c/z");
    assert_eq!(announcement("Building ", &four), "Building a/x, b/y and more");
}
