use vstd::prelude::*;

pub mod text;
pub mod route_url;
pub mod route_url_laws;
pub mod htmx;
pub mod path_arg;
pub mod params;
pub mod route_format;
pub mod route_codegen;
pub mod route_handlers;
pub mod url;
pub mod url_format;
pub mod url_laws;
pub mod strings;
pub mod caching;
pub mod caching_laws;
pub mod oob;
pub mod response;
pub mod headers;
pub mod field_roles;
pub mod route;
pub mod web_components;
pub mod server_options;
pub mod server_errors;
pub mod attributes;
pub mod route_attributes;
pub mod variant_config;
pub mod routing_plan;
pub mod lifetimes;
pub mod controller_specs;
pub mod controller_plan;
pub mod laws;

verus! {

} // verus!
