//! A string key/value store with transactional, all-or-nothing
//! entrypoint invocations.
//!
//! The store ([`store::Store`]) offers insert-or-overwrite and
//! conditional update-if-present over a map from string keys to string
//! values. The update entrypoint ([`host::contract_update`]) decodes a
//! length-prefixed byte parameter ([`codec`]) and updates the store, and
//! the host wrapper ([`host::Host`]) runs each invocation as a
//! transaction: mutations become permanent only when the invocation
//! succeeds, and any error restores the state exactly as it was.

pub mod codec;
pub mod errors;
pub mod host;
pub mod laws;
pub mod store;
