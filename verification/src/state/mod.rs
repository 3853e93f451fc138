pub mod clients;
pub mod routing;
