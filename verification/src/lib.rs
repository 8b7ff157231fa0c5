#![allow(non_snake_case)]
#![allow(non_camel_case_types)]
#![allow(non_upper_case_globals)]

pub mod bytes;
pub mod captcha_v2;
pub mod captcha_v2_slider;
pub mod cli;
pub mod config;
pub mod creds_vkcalls;
pub mod dispatcher;
pub mod dns;
pub mod events;
pub mod json;
pub mod modes;
pub mod namegen;
pub mod obfs;

pub mod outside;
pub mod profiles;
pub mod session;
pub mod slider_image;
pub mod slider_rank;
pub mod stats;
pub mod text;
pub mod vk_auth;
pub mod worker_group;
pub mod wrap;
