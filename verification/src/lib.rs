pub mod config;
pub mod controllers;
pub mod fields;
pub mod text;
pub mod web;
