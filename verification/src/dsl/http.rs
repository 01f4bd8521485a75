//! The domains of an observed HTTP response, one evaluator each.

pub mod body;
pub mod headers;
pub mod status;
pub mod time;

pub use self::body::JsonBodyDsl;
pub use self::headers::HeadersDsl;
pub use self::status::{
    is_client_error, is_server_error, is_success, StatusCodeDsl, StatusCodeDslBetween,
    StatusCodeDslEquality, StatusCodeDslOrder,
};
pub use self::time::TimeDsl;
