pub mod address;
pub mod assoc;
pub mod classify;
pub mod config;
pub mod conn;
pub mod err;
pub mod escape;
pub mod headers;
pub mod params;
pub mod sign;
pub mod text;
pub mod types;
pub mod util;

pub use address::UrlMaker;
pub use address::UrlType;
pub use classify::classify_response;
pub use classify::is_success_status;
pub use classify::ServiceError;
pub use config::AuthVersion;
pub use config::ClientBuilder;
pub use config::ClientConfig;
pub use conn::Conn;
pub use err::OssError;
pub use types::Headers;
pub use types::Method;
pub use types::Params;
pub use types::Request;
