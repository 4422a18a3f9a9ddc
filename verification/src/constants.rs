//! Fixed configuration values of the client.

use vstd::prelude::*;

verus! {

/// Where requests are posted.
pub const LENS_CRUPLOAD_ENDPOINT: &'static str = "https://lensfrontend-pa.googleapis.com/v1/crupload";

/// The credential that is used where the caller gives none.
pub const DEFAULT_API_KEY: &'static str = "SECRET-REDACTED";

/// The user agent that every request announces.
pub const DEFAULT_USER_AGENT: &'static str =
    "Mozilla/5.0 (X11; Linux x86_64) AppleWebKit/537.36 (KHTML, like Gecko) Chrome/124.0.0.0 Safari/537.36";

/// The content type of a request body.
pub const PROTOBUF_CONTENT_TYPE: &'static str = "application/x-protobuf";

/// The name of the header that carries the credential.
pub const API_KEY_HEADER: &'static str = "X-Goog-Api-Key";

/// The language that is asked for where the caller names none.
pub const DEFAULT_LANGUAGE: &'static str = "en";

/// The region that every request names.
pub const DEFAULT_CLIENT_REGION: &'static str = "US";

/// The time zone that every request names.
pub const DEFAULT_CLIENT_TIME_ZONE: &'static str = "America/New_York";

/// Largest width or height, in pixels, that an uploaded image may have.
pub const DEFAULT_IMAGE_MAX_DIMENSION: u32 = 1200;

/// Seconds after which a request is given up, from connecting to the last
/// byte of the answer.
pub const REQUEST_TIMEOUT_SECS: u64 = 60;

} // verus!
