//! The GitHub notification data the library reasons about, and the rules that
//! turn raw timeline events into one summarised activity.

pub mod graphql;
pub mod model;
pub mod subject;
pub mod timeline;

pub use model::{
    AutoWatchRepository, Commit, DismissedReview, Label, Owner, PollResult, PullRequestDetails,
    Repository, RepositorySubscriptionResult, Subject, SubjectDetails, Team, Thread,
    TimelineActivity, TimelineEvent, User,
};
