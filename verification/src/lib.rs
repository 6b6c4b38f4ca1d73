//! Verified core of a GitHub issue-board client: templated GraphQL query
//! construction, JSON response extraction into domain records, and the
//! board data model that the surrounding application renders.

pub mod backend;
pub mod board;
pub mod extract;
pub mod json;
pub mod template;
