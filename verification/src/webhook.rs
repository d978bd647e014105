//! The part of a `workflow_job` webhook delivery that the service reads.

use vstd::prelude::*;

verus! {

/// What happened to the workflow job.
#[derive(Debug, Clone, Copy, PartialEq, Eq, Structural)]
pub enum Action {
    /// `waiting`
    Waiting,
    /// `queued`
    Queued,
    /// `in_progress`
    InProgress,
    /// `completed`
    Completed,
}

/// The GitHub App installation that sent the delivery.
#[derive(Debug, Clone, Copy, PartialEq, Eq, Structural)]
pub struct Installation {
    pub id: u32,
}

/// The workflow job the delivery is about.
#[derive(Debug)]
pub struct WorkflowJob {
    /// The `runs-on` labels of the job.
    pub labels: Vec<String>,
    /// The runner that took the job, once one has.
    pub runner_name: Option<String>,
}

/// The owner of the repository.
#[derive(Debug)]
pub struct Owner {
    pub login: String,
}

/// The repository the job belongs to.
#[derive(Debug)]
pub struct Repository {
    /// `owner/name`.
    pub full_name: String,
    pub owner: Owner,
}

/// A `workflow_job` delivery.
#[derive(Debug)]
pub struct Webhook {
    pub action: Action,
    pub installation: Installation,
    pub workflow_job: WorkflowJob,
    pub repository: Repository,
}

/// The labels of a job, each as its characters.
pub open spec fn label_views(labels: Seq<String>) -> Seq<Seq<char>> {
    labels.map_values(|l: String| l@)
}

} // verus!
