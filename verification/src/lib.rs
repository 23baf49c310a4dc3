use vstd::prelude::*;

pub mod access;
pub mod ai_images;
pub mod amount;
pub mod app;
pub mod backups;
pub mod commands;
pub mod content;
pub mod data_scopes;
pub mod datetime;
pub mod departments;
pub mod dicts;
pub mod digest;
pub mod download;
pub mod email_templates;
pub mod error;
pub mod files;
pub mod http_client;
pub mod id_lists;
pub mod ids;
pub mod json;
pub mod logs;
pub mod menus;
pub mod notifications;
pub mod monitoring;
pub mod numbers;
pub mod pagination;
pub mod payments;
pub mod permissions;
pub mod rate_limits;
pub mod roles;
pub mod scheduled_tasks;
pub mod scope;
pub mod settings;
pub mod ssh;
pub mod storage_profiles;
pub mod tenants;
pub mod text;
pub mod tickets;
pub mod uploads;
pub mod users_admin;
pub mod vnc;

verus! {

} // verus!
