//! A verification-provider aggregation registry.
//!
//! An administrator registers external verification providers into an
//! indexed registry, where each provider can later be banned or unbanned.
//! A query walks the registry in registration order, asks each active
//! provider for its verdict on an account, and answers `true` as soon as
//! one provider affirms; if no active provider affirms, the answer is
//! `false`.

pub mod engine;
pub mod provider;
pub mod registry;

pub use engine::AllowanceQuery;
pub use engine::ApprovalQuery;
pub use engine::ProviderClient;
pub use provider::AccountId;
pub use provider::HashAddr;
pub use provider::ProviderId;
pub use provider::ProviderReference;
pub use provider::RegistryError;
pub use registry::Registry;
