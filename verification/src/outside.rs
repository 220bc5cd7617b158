//! The outside functions that the library calls, each behind an item that says
//! what is believed of it.
pub mod cipher;
pub mod forms;
pub mod json;
pub mod patterns;
pub mod requests;
pub mod std_text;
pub mod times;
pub mod urls;
