//! The custom-uploader document of ShareX, as far as a network destination is
//! made from it.

use vstd::prelude::*;
use crate::config::{distinct_keys, Body, DestinationType};

verus! {

/// A custom uploader as ShareX writes it: every field present.
#[derive(Clone, Debug, PartialEq, Eq)]
pub struct Config {
    pub name: String,
    pub destination_type: DestinationType,
    pub request_method: String,
    pub request_url: String,
    pub parameters: Vec<(String, String)>,
    pub headers: Vec<(String, String)>,
    pub body: Body,
    pub arguments: Vec<(String, String)>,
    pub file_form_name: String,
    pub url: String,
    pub thumbnail_url: String,
    pub deletion_url: String,
    pub error_message: String,
}

impl Config {
    /// The parameters, the headers and the arguments each name a key once at
    /// most.
    pub open spec fn wf(self) -> bool {
        &&& distinct_keys(self.parameters.deep_view())
        &&& distinct_keys(self.headers.deep_view())
        &&& distinct_keys(self.arguments.deep_view())
    }
}

} // verus!
