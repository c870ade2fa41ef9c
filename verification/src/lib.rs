use vstd::prelude::*;

pub mod alias;
pub mod archive;
pub mod aur;
pub mod checkbox_view;
pub mod choice_laws;
pub mod cli;
pub mod command_laws;
pub mod commands;
pub mod companion_laws;
pub mod config;
pub mod container;
pub mod db;
pub mod dispatch;
pub mod dispatch_laws;
pub mod double;
pub mod download;
pub mod download_plan;
pub mod extract;
pub mod fetch_laws;
pub mod history;
pub mod install;
pub mod install_laws;
pub mod integrations;
pub mod journal;
pub mod journal_laws;
pub mod json;
pub mod menu_laws;
pub mod order;
pub mod origin_laws;
pub mod orphan_laws;
pub mod orphans;
pub mod outside_laws;
pub mod paths;
pub mod patterns;
pub mod picks;
pub mod pins;
pub mod pm;
pub mod query;
pub mod repo_menu;
pub mod resolve_laws;
pub mod resolver;
pub mod restart;
pub mod restart_laws;
pub mod sandbox;
pub mod sandbox_laws;
pub mod shown_laws;
pub mod strmap;
pub mod style;
pub mod text;
pub mod text_laws;
pub mod total_laws;
pub mod transaction;
pub mod tui_select;
pub mod ui;
pub mod upgrade;
pub mod upgrade_laws;
pub mod utils;
pub mod views;
pub mod wizard;
