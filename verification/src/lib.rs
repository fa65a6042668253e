//! An HTTP-to-backend bridge: the rules by which a listener is configured,
//! a request is prepared for a dispatch callback, the answer of the callback
//! is written to the wire, and listeners are kept per tenant.
//!
//! Everything here is plain computation with a contract. Sockets, tasks and
//! the callback itself belong to the program that embeds this library.

pub mod bridge;
pub mod cors;
pub mod error;
pub mod headers;
pub mod lifecycle;
pub mod registry;
pub mod settings;
pub mod size;
pub mod text;
pub mod wire;

pub use bridge::{
    coerce_status, dispatch_failed, is_read_method, receive, respond, settle, start_plan,
    Admission, HttpServerCore, Listener, Request, Response, StartPlan, WireResponse,
    INTERNAL_SERVER_ERROR, METHOD_NOT_ALLOWED,
};
pub use cors::{cors_filter, CorsPlan, Origins};
pub use error::Error;
pub use headers::{
    convert_request_headers, convert_response_headers, skipped_headers, HeaderField,
    HeaderFields, Skipped,
};
pub use lifecycle::{Action, Event, Lifecycle, Phase};
pub use registry::Registry;
pub use settings::{Cors, ServiceSettings, Tls};
pub use size::{convert_human_size, CONTENT_LEN_LIMIT, DEFAULT_MAX_CONTENT_LEN};
