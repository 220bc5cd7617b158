//! GitHub: what its API says, what is asked of it, and what is made of its
//! answers.
pub mod activity;
pub mod releases;
pub mod requests;
pub mod review_types;
pub mod types;
