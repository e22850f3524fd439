//! Fixed strings of the protocol.

use vstd::prelude::*;

verus! {

/// The server that is asked where no other is configured.
pub const BASE_URL: &'static str = "https://client.sheepit-renderfarm.com";

/// The version that the client gives when it logs in.
pub const CLIENT_VERSION: &'static str = "7.23353.0";

/// The content type of the server's documents.
pub const XML_CONTENT: &'static str = "text/xml";

/// The line that the renderer prints once the scene is loaded.
pub const POST_LOAD_NOTIFICATION: &'static str = "POST_LOAD_SCRIPT_loaded";

} // verus!
