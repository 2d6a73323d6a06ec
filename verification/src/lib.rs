//! Accounts, grants, login sessions and tokens of a Lore authentication service.

pub mod answer_laws;
pub mod api;
pub mod change_laws;
pub mod clock;
pub mod commands;
pub mod console;
pub mod db;
pub mod db_laws;
pub mod form_laws;
pub mod html;
pub mod ids;
pub mod json;
pub mod keys;
pub mod lore_admin;
pub mod lore_laws;
pub mod page_laws;
pub mod password;
pub mod rows;
pub mod service;
pub mod service_laws;
pub mod session_laws;
pub mod settings;
pub mod sorting;
pub mod start_laws;
pub mod table_laws;
pub mod text;
pub mod text_laws;
pub mod text_map;
pub mod token_laws;
pub mod urls;
pub mod web;
pub mod web_laws;
