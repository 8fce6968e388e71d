pub mod config;
pub mod credential;
pub mod detection;
pub mod gateway;
pub mod laws;
pub mod request;
pub mod response;
pub mod xml;

pub use config::PortalConfig;
pub use credential::{AuthCookieCredential, Credential};
pub use detection::{classify_external, host_detection_pairs, HostPair};
pub use gateway::{Gateway, PriorityRule};
pub use request::{build_config_params, config_endpoint_url};
pub use response::{classify_error_response, validate_response_body, PortalError};
