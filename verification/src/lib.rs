pub mod text;
pub mod str_map;
pub mod ordering;
pub mod shell;
pub mod paths;
pub mod git_url;
pub mod error;
pub mod cache;
pub mod deps_graph;
pub mod task;
pub mod taskfile;
pub mod yaml;
pub mod docker;
pub mod containers;
pub mod k8s;
pub mod operator;
pub mod apps;
pub mod cli;
