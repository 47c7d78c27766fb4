//! Names of the domain name system.

pub mod domain_name;
