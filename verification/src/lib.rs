//! Decision logic of a serverless service that starts an ephemeral GitHub
//! Actions runner on EC2 when a workflow job is queued and terminates it when
//! the job completes.

pub mod dispatch;
pub mod github;
pub mod launch;
pub mod runner;
pub mod signature;
pub mod text;
pub mod user_data;
pub mod webhook;
