//! Client-side core of an Open Banking aggregation workflow: the credential
//! (access/refresh token) lifecycle, the serialized token state file, the
//! parser for the bank's local HTTP redirect callback, and the
//! bank-authorization state machine that ties a created requisition to the
//! callback that completes it.

pub mod accounts;
pub mod callback;
pub mod clock;
pub mod flow;
pub mod state;
pub mod text;

pub use accounts::Accounts;
pub use accounts::AccountMeta;
pub use callback::CallbackError;
pub use flow::Authorize;
pub use flow::BankAuthState;
pub use flow::BankRequisitionState;
pub use flow::FlowError;
pub use state::AuthorizeReply;
pub use state::NordigenState;
pub use state::StoreError;
