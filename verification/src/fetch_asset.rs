use vstd::prelude::*;
use vstd::string::*;

use crate::buffer::{bytes_data, bytes_to_vec};
use crate::framing::{asset_response_frame, encode_asset_response};
use crate::semaphore::SemaphoreGuard;
use crate::server::Client;

verus! {

/// The result of a fetch-asset request: the asset's bytes, or an error
/// message.
pub enum FetchAssetResult {
    /// The asset was fetched.
    Asset(bytes::Bytes),
    /// The fetch failed, with a message for the client.
    Failure(String),
}

/// A one-shot reply handle for a fetch-asset request. Responding consumes
/// the handle, so each accepted request is answered exactly once; the held
/// permit comes back with the frame.
pub struct AssetResponder {
    client: Client,
    request_id: u32,
    guard: SemaphoreGuard,
}

impl AssetResponder {
    /// The requesting client, for use in specifications.
    pub closed spec fn spec_client(&self) -> Client {
        self.client
    }

    /// The request id, for use in specifications.
    pub closed spec fn spec_request_id(&self) -> u32 {
        self.request_id
    }

    /// Create a new asset responder for a fetch-asset request.
    pub fn new(client: Client, request_id: u32, guard: SemaphoreGuard) -> (r: Self)
        ensures
            r.spec_client() == client,
            r.spec_request_id() == request_id,
    {
        AssetResponder { client, request_id, guard }
    }

    /// Return the requesting client.
    pub fn client(&self) -> (r: Client)
        ensures
            r == self.spec_client(),
    {
        self.client
    }

    /// Answer the request: the response frame for the requesting client,
    /// and the released permit. A fetched asset is framed with a success
    /// status and its bytes; a failure with an error status and the message
    /// bytes.
    pub fn respond(self, result: FetchAssetResult) -> (r: (Vec<u8>, SemaphoreGuard))
        ensures
            (match result {
                FetchAssetResult::Asset(b) => r.0@ == asset_response_frame(
                    self.spec_request_id(),
                    0,
                    bytes_data(b),
                ),
                FetchAssetResult::Failure(m) => r.0@ == asset_response_frame(
                    self.spec_request_id(),
                    1,
                    vstd::utf8::encode_utf8(m@),
                ),
            }),
    {
        let body: Vec<u8>;
        let status: u8;
        match result {
            FetchAssetResult::Asset(b) => {
                body = bytes_to_vec(&b);
                status = 0;
            },
            FetchAssetResult::Failure(m) => {
                body = m.as_str().as_bytes_vec();
                status = 1;
            },
        }
        (encode_asset_response(self.request_id, status, &body), self.guard)
    }
}

/// A handler to respond to fetch-asset requests. The embedding code
/// schedules the work; the handler must eventually drive the responder.
pub trait AssetHandler: Send + Sync {
    /// Fetch the asset with the given uri and answer via the responder.
    fn fetch(&self, uri: String, responder: AssetResponder);
}

} // verus!
