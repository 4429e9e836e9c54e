//! A bounded, multi-tenant message queue with page-based storage accounting,
//! batch-footprint planning and weight-metered delivery.

pub mod assigner;
pub mod channel;
pub mod footprint;
pub mod message;
pub mod notifier;
pub mod origin;
pub mod page;
pub mod processor;
pub mod queue;
pub mod rewards;
pub mod ss58;
pub mod validators;
pub mod version;
pub mod weight;

