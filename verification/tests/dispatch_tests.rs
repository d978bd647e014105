use github_actions_runner_aws::dispatch::{
    handle_webhook, is_authorised_owner, requests_runner, termination_message, Dispatch,
    HandlerError, NOT_REQUESTED_MESSAGE, UNHANDLED_MESSAGE,
};
use github_actions_runner_aws::runner::Architecture;
use github_actions_runner_aws::signature::SignatureError;
use github_actions_runner_aws::webhook::{
    Action, Installation, Owner, Repository, Webhook, WorkflowJob,
};
use hmac::{Hmac, Mac};
use sha2::Sha256;

const SECRET: &[u8] = b"webhook secret";
const BODY: &[u8] = br#"{"action":"queued"}"#;

fn sign(secret: &[u8], body: &[u8]) -> String {
    let mut mac = Hmac::<Sha256>::new_from_slice(secret).unwrap();
    mac.update(body);
    format!("sha256={}", hex::encode(mac.finalize().into_bytes()))
}

fn webhook(owner: &str, action: Action, labels: &[&str], runner: Option<&str>) -> Webhook {
    Webhook {
        action,
        installation: Installation { id: 1 },
        workflow_job: WorkflowJob {
            labels: labels.iter().map(|s| s.to_string()).collect(),
            runner_name: runner.map(|s| s.to_string()),
        },
        repository: Repository {
            full_name: format!("{}/example", owner),
            owner: Owner { login: owner.to_string() },
        },
    }
}

const LABEL: &str = "drakon64/github-actions-runner-aws";

fn handle(w: &Webhook) -> Result<Dispatch, HandlerError> {
    handle_webhook(w, BODY, sign(SECRET, BODY).as_bytes(), SECRET)
}

#[test]
fn owners() {
    assert!(is_authorised_owner("drakon64"));
    assert!(is_authorised_owner("lilyinstarlight"));
    assert!(!is_authorised_owner("Drakon64"));
    assert!(!is_authorised_owner("someone"));
    assert!(!is_authorised_owner(""));
}

#[test]
fn runner_label() {
    assert!(requests_runner(&vec!["self-hosted".to_string(), LABEL.to_string()]));
    assert!(!requests_runner(&vec!["self-hosted".to_string()]));
    assert!(!requests_runner(&vec![]));
}

#[test]
fn unauthorised_owner_is_refused_before_the_signature() {
    let w = webhook("mallory", Action::Queued, &[LABEL], None);
    assert!(matches!(handle(&w), Err(HandlerError::UnauthorisedOwner)));
    assert!(matches!(
        handle_webhook(&w, BODY, b"garbage", SECRET),
        Err(HandlerError::UnauthorisedOwner)
    ));
}

#[test]
fn bad_signatures_are_refused() {
    let w = webhook("drakon64", Action::Queued, &[LABEL], None);
    assert!(matches!(
        handle_webhook(&w, BODY, sign(b"other", BODY).as_bytes(), SECRET),
        Err(HandlerError::Signature(SignatureError::Mismatch))
    ));
    assert!(matches!(
        handle_webhook(&w, BODY, b"md5=00", SECRET),
        Err(HandlerError::Signature(SignatureError::MissingPrefix))
    ));
    assert!(matches!(
        handle_webhook(&w, BODY, b"sha256=xyz", SECRET),
        Err(HandlerError::Signature(SignatureError::MalformedHex))
    ));
}

#[test]
fn job_without_label_is_not_requested() {
    let w = webhook("lilyinstarlight", Action::Queued, &["self-hosted"], None);
    assert!(matches!(handle(&w), Ok(Dispatch::NotRequested)));
    assert_eq!(NOT_REQUESTED_MESSAGE, "EC2 runner not requested.");
}

#[test]
fn queued_job_launches() {
    let w = webhook("drakon64", Action::Queued, &[LABEL, "X64", "EBS-50GB"], None);
    match handle(&w) {
        Ok(Dispatch::Launch(cfg)) => {
            assert_eq!(cfg.architecture, Architecture::X64);
            assert_eq!(cfg.volume_size, 50);
            assert_eq!(cfg.instance_type, "m7g.large");
            assert!(!cfg.spot);
        }
        other => panic!("unexpected {:?}", other),
    }
}

#[test]
fn queued_job_with_bad_volume_label_is_refused() {
    let w = webhook("drakon64", Action::Queued, &[LABEL, "EBS-hugeGB"], None);
    assert!(matches!(handle(&w), Err(HandlerError::InvalidVolumeLabel)));
}

#[test]
fn completed_job_terminates_its_runner() {
    let w = webhook("drakon64", Action::Completed, &[LABEL, "EBS-hugeGB"], Some("i-0abc"));
    match handle(&w) {
        Ok(Dispatch::Terminate(name)) => assert_eq!(name, "i-0abc"),
        other => panic!("unexpected {:?}", other),
    }
    let w = webhook("drakon64", Action::Completed, &[LABEL], None);
    assert!(matches!(handle(&w), Err(HandlerError::MissingRunnerName)));
}

#[test]
fn other_actions_are_unhandled() {
    for action in [Action::Waiting, Action::InProgress] {
        let w = webhook("drakon64", action, &[LABEL], Some("i-0abc"));
        assert!(matches!(handle(&w), Ok(Dispatch::Unhandled)));
    }
    assert_eq!(UNHANDLED_MESSAGE, "This webhooks runs only for `queued` and `completed` jobs");
}

#[test]
fn termination_answer() {
    assert_eq!(termination_message("i-0abc"), "Terminated instance i-0abc");
}
