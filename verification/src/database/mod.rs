//! The store that the publishing path, the delivery worker and the
//! subscription system share: its tables, the transactions that write to
//! them, and the mathematical model that the contracts speak of.

pub mod lemmas;
pub mod model;
pub mod rows;
pub mod store;

pub use self::lemmas::{
    lemma_claimable_position,
    lemma_commit_wf,
    lemma_confirm_wf,
    lemma_distinct_push,
    lemma_first_claimable,
    lemma_issue_position,
    lemma_key_position,
    lemma_register_wf,
    lemma_same_issues,
    lemma_subscription_position,
    lemma_task_position,
    lemma_task_remove_wf,
    lemma_task_update_wf,
    lemma_token_position,
    lemma_user_position,
    lemma_username_position,
    lemma_with_password_hash_wf,
    lemma_with_user_wf,
};
pub use self::model::{
    confirmed_emails,
    distinct,
    is_first_claimable,
    is_row_of,
    is_task_of,
    new_task,
    next_attempt,
    placeholder,
    tasks_for,
    DatabaseView,
    TransactionView,
};
pub use self::rows::{
    option_view,
    rows_view,
    texts,
    DeliveryTask,
    IdempotencyRow,
    IdempotencyRowView,
    IssueView,
    NewsletterIssue,
    PersistenceError,
    Subscription,
    SubscriptionStatus,
    SubscriptionToken,
    SubscriptionView,
    TaskView,
    TokenView,
    User,
    UserView,
};
pub use self::store::{
    Database,
    Transaction,
};
