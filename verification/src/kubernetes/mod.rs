pub mod addresses;
pub mod controller;
pub mod converters;
pub mod crds;
pub mod dns_refresh;
pub mod features;
pub mod hostname;
pub mod parent_ref;
pub mod reconciler;
pub mod reference_grants;
pub mod resources;
pub mod services;
pub mod status;
