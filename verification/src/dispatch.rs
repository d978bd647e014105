//! What the service does with a delivery: refuse it, ignore it, launch a
//! runner for a queued job, or terminate the runner of a completed one.

use crate::runner::{run_config, spec_run_config, RunConfig, RunConfigModel};
use crate::signature::{
    lemma_signed_delivery_accepted, signature_prefix, spec_check_signature, spec_hex_encode,
    spec_hmac_sha256, verify_signature, SignatureError,
};
use crate::text::str_eq;
use crate::webhook::{label_views, Action, Webhook};
use vstd::prelude::*;
use vstd::string::*;

verus! {

/// Owner whose repositories the service serves.
pub const FIRST_OWNER: &'static str = "drakon64";

/// Other owner whose repositories the service serves.
pub const SECOND_OWNER: &'static str = "lilyinstarlight";

/// Label by which a job asks for an EC2 runner.
pub const RUNNER_LABEL: &'static str = "drakon64/github-actions-runner-aws";

/// Answer to a delivery whose job does not ask for an EC2 runner.
pub const NOT_REQUESTED_MESSAGE: &'static str = "EC2 runner not requested.";

/// Answer to a delivery whose job is neither queued nor completed.
pub const UNHANDLED_MESSAGE: &'static str = "This webhooks runs only for `queued` and `completed` jobs";

/// Text before the instance's id in the answer to a completed job.
pub const TERMINATED_MESSAGE: &'static str = "Terminated instance ";

/// The service acts for repositories of this owner.
pub open spec fn is_authorised_owner_spec(login: Seq<char>) -> bool {
    login == FIRST_OWNER@ || login == SECOND_OWNER@
}

/// Whether the service acts for repositories of owner `login`.
pub fn is_authorised_owner(login: &str) -> (r: bool)
    ensures
        r == is_authorised_owner_spec(login@),
{
    str_eq(login, FIRST_OWNER) || str_eq(login, SECOND_OWNER)
}

/// Some label of the job asks for an EC2 runner.
pub open spec fn requests_runner_spec(labels: Seq<Seq<char>>) -> bool {
    exists|i: int| 0 <= i < labels.len() && labels[i] == RUNNER_LABEL@
}

/// Whether some label of the job asks for an EC2 runner.
pub fn requests_runner(labels: &Vec<String>) -> (r: bool)
    ensures
        r == requests_runner_spec(label_views(labels@)),
{
    let ghost views = label_views(labels@);
    let n = labels.len();
    let mut i: usize = 0;
    while i < n
        invariant
            n == labels@.len(),
            views == label_views(labels@),
            i <= n,
            forall|j: int| 0 <= j < i ==> views[j] != RUNNER_LABEL@,
        decreases n - i,
    {
        if str_eq(labels[i].as_str(), RUNNER_LABEL) {
            assert(views[i as int] == RUNNER_LABEL@);
            return true;
        }
        i = i + 1;
    }
    false
}

/// What to do for an accepted delivery.
#[derive(Debug)]
pub enum Dispatch {
    /// The job does not ask for an EC2 runner.
    NotRequested,
    /// Launch a runner of this configuration.
    Launch(RunConfig),
    /// Terminate the instance that ran the job, named by the runner.
    Terminate(String),
    /// The job is neither queued nor completed.
    Unhandled,
}

/// A `Dispatch` with its text as characters.
pub enum DispatchModel {
    NotRequested,
    Launch(RunConfigModel),
    Terminate(Seq<char>),
    Unhandled,
}

impl View for Dispatch {
    type V = DispatchModel;

    open spec fn view(&self) -> DispatchModel {
        match self {
            Dispatch::NotRequested => DispatchModel::NotRequested,
            Dispatch::Launch(cfg) => DispatchModel::Launch(cfg@),
            Dispatch::Terminate(name) => DispatchModel::Terminate(name@),
            Dispatch::Unhandled => DispatchModel::Unhandled,
        }
    }
}

/// Why a delivery was refused.
#[derive(Debug, Clone, Copy, PartialEq, Eq, Structural)]
pub enum HandlerError {
    /// The repository's owner is not one the service serves.
    UnauthorisedOwner,
    /// The signature header does not authenticate the body.
    Signature(SignatureError),
    /// A volume label of a queued job gives no `i32` size.
    InvalidVolumeLabel,
    /// A completed job names no runner.
    MissingRunnerName,
}

/// The outcome of a delivery: the owner is checked first, then the
/// signature, then the runner label, then the action.
pub open spec fn spec_handle(webhook: Webhook, body: Seq<u8>, signature_header: Seq<u8>, secret: Seq<u8>) -> Result<
    DispatchModel,
    HandlerError,
> {
    let labels = label_views(webhook.workflow_job.labels@);
    if !is_authorised_owner_spec(webhook.repository.owner.login@) {
        Err(HandlerError::UnauthorisedOwner)
    } else {
        match spec_check_signature(secret, body, signature_header) {
            Err(e) => Err(HandlerError::Signature(e)),
            Ok(_) => if !requests_runner_spec(labels) {
                Ok(DispatchModel::NotRequested)
            } else {
                match webhook.action {
                    Action::Queued => match spec_run_config(labels) {
                        Some(cfg) => Ok(DispatchModel::Launch(cfg)),
                        None => Err(HandlerError::InvalidVolumeLabel),
                    },
                    Action::Completed => match webhook.workflow_job.runner_name {
                        Some(name) => Ok(DispatchModel::Terminate(name@)),
                        None => Err(HandlerError::MissingRunnerName),
                    },
                    _ => Ok(DispatchModel::Unhandled),
                }
            },
        }
    }
}

/// The outcome as its model.
pub open spec fn view_outcome(r: Result<Dispatch, HandlerError>) -> Result<DispatchModel, HandlerError> {
    match r {
        Ok(d) => Ok(d@),
        Err(e) => Err(e),
    }
}

/// Decides what to do with a delivery: `webhook` is its parsed body, `body`
/// the raw body, `signature_header` the value of `X-Hub-Signature-256`, and
/// `secret` the webhook secret.
pub fn handle_webhook(webhook: &Webhook, body: &[u8], signature_header: &[u8], secret: &[u8]) -> (r:
    Result<Dispatch, HandlerError>)
    ensures
        view_outcome(r) == spec_handle(*webhook, body@, signature_header@, secret@),
{
    if !is_authorised_owner(webhook.repository.owner.login.as_str()) {
        return Err(HandlerError::UnauthorisedOwner);
    }
    match verify_signature(secret, body, signature_header) {
        Err(e) => {
            return Err(HandlerError::Signature(e));
        },
        Ok(()) => {},
    }
    if !requests_runner(&webhook.workflow_job.labels) {
        return Ok(Dispatch::NotRequested);
    }
    match webhook.action {
        Action::Queued => match run_config(&webhook.workflow_job.labels) {
            Ok(cfg) => Ok(Dispatch::Launch(cfg)),
            Err(_) => Err(HandlerError::InvalidVolumeLabel),
        },
        Action::Completed => match &webhook.workflow_job.runner_name {
            Some(name) => Ok(Dispatch::Terminate(name.clone())),
            None => Err(HandlerError::MissingRunnerName),
        },
        _ => Ok(Dispatch::Unhandled),
    }
}

/// The answer to a completed job once its instance is terminated.
pub fn termination_message(runner_name: &str) -> (r: String)
    ensures
        r@ == TERMINATED_MESSAGE@ + runner_name@,
{
    let mut message = String::from_str(TERMINATED_MESSAGE);
    message.append(runner_name);
    message
}

/// A delivery for a repository whose owner the service does not serve is
/// refused, whatever else it holds.
pub proof fn lemma_unauthorised_owner_refused(
    webhook: Webhook,
    body: Seq<u8>,
    signature_header: Seq<u8>,
    secret: Seq<u8>,
)
    requires
        !is_authorised_owner_spec(webhook.repository.owner.login@),
    ensures
        spec_handle(webhook, body, signature_header, secret) == Err::<DispatchModel, HandlerError>(
            HandlerError::UnauthorisedOwner,
        ),
{
}

/// A delivery whose signature header does not authenticate its body under
/// the secret is refused.
pub proof fn lemma_unauthenticated_delivery_refused(
    webhook: Webhook,
    body: Seq<u8>,
    signature_header: Seq<u8>,
    secret: Seq<u8>,
)
    requires
        spec_check_signature(secret, body, signature_header) is Err,
    ensures
        spec_handle(webhook, body, signature_header, secret) is Err,
{
}

/// A delivery for a served owner, signed with the secret as GitHub signs it
/// (`sha256=` and the lower-case hexadecimal HMAC-SHA256 tag of the body),
/// is refused neither for its owner nor for its signature.
pub proof fn lemma_signed_delivery_passes(webhook: Webhook, body: Seq<u8>, secret: Seq<u8>)
    requires
        is_authorised_owner_spec(webhook.repository.owner.login@),
    ensures
        ({
            let header = github_signature_header(secret, body);
            let outcome = spec_handle(webhook, body, header, secret);
            &&& !(outcome matches Err(HandlerError::Signature(_)))
            &&& outcome != Err::<DispatchModel, HandlerError>(HandlerError::UnauthorisedOwner)
        }),
{
    lemma_signed_delivery_accepted(secret, body);
}

/// The service launches or terminates an instance only for a delivery from
/// a served owner, with an authentic signature, whose job carries the runner
/// label.
pub proof fn lemma_action_requires_checks(
    webhook: Webhook,
    body: Seq<u8>,
    signature_header: Seq<u8>,
    secret: Seq<u8>,
)
    requires
        spec_handle(webhook, body, signature_header, secret) matches Ok(d) && (d is Launch
            || d is Terminate),
    ensures
        is_authorised_owner_spec(webhook.repository.owner.login@),
        spec_check_signature(secret, body, signature_header) is Ok,
        requests_runner_spec(label_views(webhook.workflow_job.labels@)),
{
}

/// An accepted delivery whose job does not carry the runner label is
/// answered without any action.
pub proof fn lemma_unlabelled_job_not_requested(
    webhook: Webhook,
    body: Seq<u8>,
    signature_header: Seq<u8>,
    secret: Seq<u8>,
)
    requires
        is_authorised_owner_spec(webhook.repository.owner.login@),
        spec_check_signature(secret, body, signature_header) is Ok,
        !requests_runner_spec(label_views(webhook.workflow_job.labels@)),
    ensures
        spec_handle(webhook, body, signature_header, secret) == Ok::<DispatchModel, HandlerError>(
            DispatchModel::NotRequested,
        ),
{
}

/// A launch happens only for a queued job, with the configuration that its
/// labels give.
pub proof fn lemma_launch_only_for_queued_job(
    webhook: Webhook,
    body: Seq<u8>,
    signature_header: Seq<u8>,
    secret: Seq<u8>,
)
    requires
        spec_handle(webhook, body, signature_header, secret) matches Ok(DispatchModel::Launch(_)),
    ensures
        webhook.action == Action::Queued,
        spec_handle(webhook, body, signature_header, secret) matches Ok(DispatchModel::Launch(cfg))
            && spec_run_config(label_views(webhook.workflow_job.labels@)) == Some(cfg),
{
}

/// A termination happens only for a completed job, and it terminates the
/// instance that the job's runner names.
pub proof fn lemma_terminate_only_completed_runner(
    webhook: Webhook,
    body: Seq<u8>,
    signature_header: Seq<u8>,
    secret: Seq<u8>,
)
    requires
        spec_handle(webhook, body, signature_header, secret) matches Ok(DispatchModel::Terminate(_)),
    ensures
        webhook.action == Action::Completed,
        webhook.workflow_job.runner_name is Some,
        spec_handle(webhook, body, signature_header, secret) matches Ok(DispatchModel::Terminate(name))
            && name == webhook.workflow_job.runner_name->0@,
{
}

/// An accepted, labelled delivery for a job that is waiting or in progress
/// is answered without any action.
pub proof fn lemma_other_actions_unhandled(
    webhook: Webhook,
    body: Seq<u8>,
    signature_header: Seq<u8>,
    secret: Seq<u8>,
)
    requires
        is_authorised_owner_spec(webhook.repository.owner.login@),
        spec_check_signature(secret, body, signature_header) is Ok,
        requests_runner_spec(label_views(webhook.workflow_job.labels@)),
        webhook.action == Action::Waiting || webhook.action == Action::InProgress,
    ensures
        spec_handle(webhook, body, signature_header, secret) == Ok::<DispatchModel, HandlerError>(
            DispatchModel::Unhandled,
        ),
{
}

/// The header GitHub sends with `body` when the webhook secret is `secret`.
pub open spec fn github_signature_header(secret: Seq<u8>, body: Seq<u8>) -> Seq<u8> {
    signature_prefix() + spec_hex_encode(spec_hmac_sha256(secret, body))
}

/// A queued job of a served owner that carries the runner label, delivered
/// with GitHub's signature, launches the instance that its labels give.
pub proof fn lemma_queued_job_launches(webhook: Webhook, body: Seq<u8>, secret: Seq<u8>, cfg: RunConfigModel)
    requires
        is_authorised_owner_spec(webhook.repository.owner.login@),
        requests_runner_spec(label_views(webhook.workflow_job.labels@)),
        webhook.action == Action::Queued,
        spec_run_config(label_views(webhook.workflow_job.labels@)) == Some(cfg),
    ensures
        spec_handle(webhook, body, github_signature_header(secret, body), secret) == Ok::<
            DispatchModel,
            HandlerError,
        >(DispatchModel::Launch(cfg)),
{
    lemma_signed_delivery_accepted(secret, body);
}

/// A completed job of a served owner that carries the runner label and names
/// its runner, delivered with GitHub's signature, terminates that runner's
/// instance.
pub proof fn lemma_completed_job_terminates(webhook: Webhook, body: Seq<u8>, secret: Seq<u8>)
    requires
        is_authorised_owner_spec(webhook.repository.owner.login@),
        requests_runner_spec(label_views(webhook.workflow_job.labels@)),
        webhook.action == Action::Completed,
        webhook.workflow_job.runner_name is Some,
    ensures
        spec_handle(webhook, body, github_signature_header(secret, body), secret) == Ok::<
            DispatchModel,
            HandlerError,
        >(DispatchModel::Terminate(webhook.workflow_job.runner_name->0@)),
{
    lemma_signed_delivery_accepted(secret, body);
}

/// A job asks for an EC2 runner exactly when the runner label is one of its
/// labels, at whatever position.
pub proof fn lemma_runner_label_anywhere(labels: Seq<Seq<char>>)
    ensures
        requests_runner_spec(labels) <==> labels.contains(RUNNER_LABEL@),
{
}

/// Joining two label lists asks for a runner exactly when either list does.
pub proof fn lemma_runner_label_in_joined_lists(a: Seq<Seq<char>>, b: Seq<Seq<char>>)
    ensures
        requests_runner_spec(a + b) <==> requests_runner_spec(a) || requests_runner_spec(b),
{
    if requests_runner_spec(a + b) {
        let i = choose|i: int| 0 <= i < (a + b).len() && (a + b)[i] == RUNNER_LABEL@;
        if i >= a.len() {
            assert(b[i - a.len()] == RUNNER_LABEL@);
        }
    }
    if requests_runner_spec(b) {
        let j = choose|j: int| 0 <= j < b.len() && b[j] == RUNNER_LABEL@;
        assert((a + b)[a.len() + j] == RUNNER_LABEL@);
    }
    if requests_runner_spec(a) {
        let j = choose|j: int| 0 <= j < a.len() && a[j] == RUNNER_LABEL@;
        assert((a + b)[j] == RUNNER_LABEL@);
    }
}

} // verus!
