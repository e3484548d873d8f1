//! Resolution of the latest semantic-version tag of a repository and
//! computation of the next version to tag.

pub mod version;
pub mod resolve;
pub mod bump;
