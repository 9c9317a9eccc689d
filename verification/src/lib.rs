//! Two in-memory record stores and the protocol that links them.
//!
//! A [`profile::ProfileStore`] maps a passkey to a user profile. A
//! [`registry::RegistryStore`] maps a passphrase to an ordered list of
//! usernames. The [`resolver`] turns a username into the profile of its owner:
//! it finds the owning passphrase in the registry, names the remote call that
//! fetches the profile, and classifies the reply.
//!
//! Every store is an owned value with a mathematical view, and every operation
//! states its effect on that view.

pub mod address;
pub mod laws;
pub mod profile;
pub mod registry;
pub mod resolver;
pub mod table;
pub mod text;
pub mod validation;

pub use profile::{ProfileStore, QueryField, ReadResult, UserDetails};
pub use registry::RegistryStore;
pub use resolver::{
    begin_resolution, conclude_resolution, get_profile_by_username, RejectionCode, RemoteCall, RemoteReply,
    ResolutionError, ResolutionStep,
};
pub use validation::ValidationError;
