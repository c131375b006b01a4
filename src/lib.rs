//! An embeddable HTTP/1.1 server core: request parsing and validation,
//! routing with path templates, CORS headers and response framing.
pub mod connection;
pub mod cors;
pub mod laws;
pub mod params;
pub mod request;
pub mod request_type;
pub mod response;
pub mod router;
pub mod server;
pub mod text;

pub use cors::CorsPolicy;
pub use request::Request;
pub use request_type::{RequestType, Rt};
pub use response::{Response, StatusCode};
pub use router::{handle_request_sync, Handler, RouteTable, Routed};
pub use server::GenericServer;
