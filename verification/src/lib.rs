//! Verified core of a small checkout backend: amount validation and
//! normalization, gateway request assembly, and response mapping. The HTTP
//! server, CORS layer, and gateway client live outside this crate and hand
//! plain values in and out.

pub mod amount;
pub mod checkout;
pub mod model;
pub mod wallet;
