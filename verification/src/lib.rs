pub mod canon;
pub mod crypto;
pub mod dtime;
pub mod error;
pub mod hex;
pub mod jsonval;
pub mod keys;
pub mod metadata;
pub mod pkcs1;
pub mod roles;
pub mod trust;

pub use dtime::DateTimeUtc;
pub use error::Error;
pub use jsonval::JsonValue;
pub use jsonval::Jv;
pub use keys::HashType;
pub use keys::HashValue;
pub use keys::Key;
pub use keys::KeyId;
pub use keys::KeyType;
pub use keys::KeyValue;
pub use keys::Signature;
pub use keys::SignatureScheme;
pub use keys::SignatureValue;
pub use metadata::Metadata;
pub use metadata::MetadataMetadata;
pub use metadata::RootMetadata;
pub use metadata::SignedMetadata;
pub use metadata::SnapshotMetadata;
pub use metadata::SnapshotMetadataMetadata;
pub use metadata::TargetInfo;
pub use metadata::TargetsMetadata;
pub use metadata::TimestampMetadata;
pub use roles::DelegatedRole;
pub use roles::Delegations;
pub use roles::Role;
pub use roles::RoleDefinition;
pub use roles::RoleType;
pub use roles::Root;
pub use roles::Snapshot;
pub use roles::TargetPaths;
pub use roles::Targets;
pub use roles::Timestamp;
pub use trust::verify_role;
