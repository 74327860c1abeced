pub mod config;
pub mod games;
pub mod icon;
pub mod icon_search;
pub mod identity;
pub mod launch;
pub mod paths;
pub mod prober;
pub mod text;
