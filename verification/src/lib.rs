//! A repository's activity on GitHub: fetched, listed, kept and shown.
//!
//! `github` holds what the GitHub API says, what is asked of it and what is made of
//! its answers. `collab_api`, `inbox` and `integrations` are a server's side of it:
//! connected accounts and the inbox. `cloud_api_types` and `cloud_api_client` are what
//! a client says to that server. `pr_view`, `pr_page`, `pr_diff`, `virtual_diff`,
//! `issue_linking` and `popover_menu` decide what is shown to a user. `outside` holds
//! what is believed of other crates, and `text`, `sorting` and `models` what all of
//! these rest on.
pub mod cloud_api_client;
pub mod cloud_api_types;
pub mod collab_api;
pub mod github;
pub mod http_request;
pub mod inbox;
pub mod integrations;
pub mod issue_linking;
pub mod models;
pub mod outside;
pub mod popover_menu;
pub mod pr_diff;
pub mod pr_page;
pub mod pr_view;
pub mod sorting;
pub mod text;
pub mod virtual_diff;
