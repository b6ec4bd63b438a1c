use vstd::prelude::*;

pub mod alpha_vantage;
pub mod boundary;
pub mod coerce;
pub mod decimal;
pub mod digits;
pub mod error;
pub mod integer;
pub mod json;
pub mod laws;
pub mod local_time;
pub mod price_point;
pub mod response;
pub mod series;
pub mod text;
pub mod traits;
pub mod zone;
