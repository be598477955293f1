//! A small web site: pages rendered from templates, files served from a
//! public directory, and a rendered page for requests that find nothing.
pub mod errors;
pub mod pages;
pub mod paths;
pub mod render;
pub mod startup;
pub mod state;
