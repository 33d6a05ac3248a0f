//! Geolocation-aware selection and construction of DNS answers.

pub mod geo;
pub mod handler;
pub mod ip;
pub mod machine;
pub mod name;
pub mod numeral;
pub mod options;
pub mod rdata;
pub mod render;
pub mod text;
pub mod util;
