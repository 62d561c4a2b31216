//! Validation of a signed root-of-trust policy document.
//!
//! A policy document is a JSON object with two members: `signed`, which
//! says which keys hold which roles and until when, and `signatures`, made
//! over the bytes of `signed` as they stand in the document. The document
//! is trusted while it has not expired and enough distinct keys of its root
//! role have signed it.

pub mod certificate;
pub mod count;
pub mod decode;
pub mod entries;
pub mod error;
pub mod evaluate;
pub mod json;
pub mod key;
pub mod policy;
pub mod role;
pub mod signature;
pub mod signed;
pub mod text;
pub mod threshold;
pub mod time;
pub mod verify;

pub use certificate::CosignVerificationKey;
pub use count::NonZeroU64;
pub use error::{CertificateError, Field, ParseError, PolicyError, VerificationError};
pub use evaluate::evaluate_document;
pub use key::{Key, SigstoreOidcKey};
pub use policy::{Policy, RawPolicy};
pub use role::{RoleKeys, RoleType, UnknownRoleType};
pub use signature::Signature;
pub use signed::Signed;
pub use time::{Duration, Timestamp};
