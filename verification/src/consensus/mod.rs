//! Replicated tablets: identities, deduplication, snapshots and the peer mesh.

pub mod applied;
pub mod exchange;
pub mod image;
pub mod keyorder;
pub mod machine;
pub mod membership;
pub mod mesh;
pub mod object;
pub mod pinning;
pub mod sections;
pub mod session;
pub mod snapshot;
pub mod store;
pub mod tablet;
pub mod tls;
pub mod transport;
pub mod types;
pub mod worker;
