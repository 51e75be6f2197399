use hermes_search_agent::doctor::{passed, run_end_to_end, verdict};
use hermes_search_agent::error::SearchError;
use hermes_search_agent::install::hermes::{profile_start, profile_step, ProfileAction, ProfileEvent, ProfileState};

fn run(events: Vec<ProfileEvent>, non_interactive: bool) -> (Vec<&'static str>, ProfileState) {
    let (mut state, mut action) = profile_start();
    let mut seen = vec![name(&action)];
    for event in events {
        let next = profile_step(state, event, non_interactive);
        state = next.0;
        action = next.1;
        seen.push(name(&action));
    }
    (seen, state)
}

fn name(action: &ProfileAction) -> &'static str {
    match action {
        ProfileAction::CheckExists => "exists?",
        ProfileAction::VerifyOwnership => "ownership",
        ProfileAction::CreateByClone => "clone",
        ProfileAction::CreatePlain => "create",
        ProfileAction::MarkOwned => "owned",
        ProfileAction::Configure => "configure",
        ProfileAction::WriteMarker => "marker",
        ProfileAction::SkillsOptOut => "skills",
        ProfileAction::CheckModel => "model?",
        ProfileAction::Setup => "setup",
        ProfileAction::InstallGateway => "gateway",
        ProfileAction::Done => "done",
        ProfileAction::MissingModel => "missing model",
        ProfileAction::Fail(_) => "fail",
    }
}

fn ok(flag: bool) -> ProfileEvent {
    ProfileEvent::Succeeded(flag)
}

#[test]
fn existing_profile_is_checked_then_configured() {
    let (seen, state) = run(vec![ok(true), ok(true), ok(true), ok(true), ok(true), ok(true), ok(true), ok(true)], true);
    assert_eq!(
        seen,
        ["exists?", "ownership", "configure", "marker", "owned", "skills", "model?", "gateway", "done"]
    );
    assert_eq!(state, ProfileState::Finished);
}

#[test]
fn missing_profile_is_cloned_or_created() {
    let (cloned, _) = run(vec![ok(false), ok(true), ok(true), ok(true)], true);
    assert_eq!(cloned, ["exists?", "clone", "owned", "configure", "marker"]);
    let (created, _) = run(vec![ok(false), ok(false), ok(true), ok(true)], true);
    assert_eq!(created, ["exists?", "clone", "create", "owned", "configure"]);
}

#[test]
fn skills_opt_out_failure_is_ignored() {
    let events = vec![
        ok(true),
        ok(true),
        ok(true),
        ok(true),
        ok(true),
        ProfileEvent::Failed(SearchError::Install("no skills".into())),
    ];
    let (seen, state) = run(events, true);
    assert_eq!(seen.last(), Some(&"model?"));
    assert_eq!(state, ProfileState::CheckingModel);
}

#[test]
fn missing_model_depends_on_who_can_answer() {
    let before_model = vec![ok(true), ok(true), ok(true), ok(true), ok(true), ok(true)];
    let mut events = before_model;
    events.push(ok(false));
    let (seen, state) = run(events, true);
    assert_eq!(seen.last(), Some(&"missing model"));
    assert_eq!(state, ProfileState::Finished);
    let mut events = vec![ok(true), ok(true), ok(true), ok(true), ok(true), ok(true), ok(false)];
    events.extend([ok(true), ok(true), ok(true)]);
    let (seen, _) = run(events, false);
    assert_eq!(&seen[7..], ["setup", "configure", "gateway", "done"]);
}

#[test]
fn failed_action_ends_the_run_with_its_error() {
    let (state, action) = profile_step(
        ProfileState::VerifyingOwnership,
        ProfileEvent::Failed(SearchError::Install("not ours".into())),
        true,
    );
    assert_eq!(state, ProfileState::Finished);
    match action {
        ProfileAction::Fail(e) => assert_eq!(e.describe(), "installation error: not ours"),
        _ => panic!("expected a failure"),
    }
}

#[test]
fn doctor_verdict_and_probe() {
    assert!(passed(&vec![true, true]));
    assert!(!passed(&vec![true, false]));
    assert!(run_end_to_end(false, &vec![true, true]));
    assert!(!run_end_to_end(true, &vec![true, true]));
    assert!(!run_end_to_end(false, &vec![false, true]));
    assert!(verdict(&vec![]).is_ok());
    assert_eq!(verdict(&vec![true, false]).unwrap_err().describe(), "installation error: one or more doctor checks failed");
}
