//! Core logic for a subscription entitlement backend: normalizing
//! storefront purchase notifications into canonical events, applying them
//! to a ledger of subscriptions and entitlement grants through a verified
//! state machine, and answering entitlement queries over that ledger.
//!
//! The reconciliation engine (`engine`) is a pure state machine over
//! snapshots: it consumes one canonical `StoreEvent` and returns the next
//! ledger snapshot, with idempotence, grant deduplication, staleness
//! discarding and the soft/hard revocation split stated and proved in
//! `laws`.  The normalizers (`apple`, `google`) translate vendor
//! notification vocabularies into canonical events.  Storage, transport
//! and serialization live outside the library and hand it plain values.

pub mod api_types;
pub mod apple;
pub mod catalog;
pub mod config;
pub mod engine;
pub mod event;
pub mod google;
pub mod laws;
pub mod ledger;
pub mod ops;
pub mod records;
pub mod types;

pub use api_types::WebhookResponse;
pub use catalog::Catalog;
pub use config::Config;
pub use config::Environment;
pub use engine::ApplyOutcome;
pub use engine::EngineError;
pub use engine::apply_event;
pub use event::NormalizeError;
pub use event::Normalized;
pub use event::StoreEvent;
pub use ledger::LedgerState;
pub use types::EventKind;
pub use types::ProductType;
pub use types::Store;
pub use types::SubscriptionStatus;
