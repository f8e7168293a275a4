//! A small request router: path patterns are compiled once, inbound paths are
//! matched against them in registration order, and the outcome is turned into
//! an outbound envelope.
pub mod deploy;
pub mod envelope;
pub mod json;
pub mod path;
pub mod router;
pub mod strmap;

pub use deploy::{binary_name, lambda_arch};
pub use envelope::{InboundEvent, OutboundEvent, Request, Response};
pub use path::{compile_path, match_path, split_path, Segment};
pub use router::{complete, Choko, Dispatch, RouteError, Selection};
pub use strmap::StringMap;
