pub mod method;
pub mod query_string;
pub mod request;
pub mod response;
pub mod scan;
pub mod server;
pub mod status_code;
pub mod website_handler;

pub use method::{Method, MethodError};
pub use query_string::{QueryString, Value};
pub use response::Response;
pub use request::{get_next_word, ParseError, Request};
pub use status_code::StatusCode;
pub use server::{bad_request, Exchange, Handler, Server};
pub use website_handler::WebsiteHandler;
