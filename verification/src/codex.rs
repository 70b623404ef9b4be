//! The protocol of the storage network: what is asked of a node and how
//! its answers are read.

use crate::config::StorageParams;
use crate::file_processor::{MAX_FILE_SIZE, MIN_FILE_SIZE};
use crate::lifecycle::insufficient_funds_text;
use crate::text::{decimal, decimal_text, trim, trimmed};
use vstd::prelude::*;
use vstd::string::*;

verus! {

/// The seconds between two questions about a purchase that has not
/// started yet.
pub const START_POLL_SECS: u64 = 5;

/// The status with which a node turns a purchase request down for want
/// of funds.
pub const PAYMENT_REQUIRED: u16 = 402;

/// The terms of a purchase as they are sent to a node.
#[derive(Debug)]
pub struct StorageRequest {
    pub duration: u64,
    pub reward: String,
    pub proof_probability: String,
    pub nodes: u32,
    pub tolerance: u32,
    pub expiry: u64,
    pub collateral: String,
}

/// The content that a purchase is about.
#[derive(Debug)]
pub struct ContentInfo {
    pub cid: String,
}

/// The request that a purchase was made from.
#[derive(Debug)]
pub struct StorageRequestInfo {
    pub content: ContentInfo,
}

/// A node's answer to a purchase request.
#[derive(Debug)]
pub struct PurchaseResponse {
    pub purchase_id: String,
    pub request: StorageRequestInfo,
}

/// A node's answer to a question about a purchase.
#[derive(Debug)]
pub struct PurchaseStatus {
    pub state: String,
    pub request: StorageRequestInfo,
}

/// Why a call to a node failed.
#[derive(Debug)]
pub enum ClientError {
    /// The client knows no endpoint.
    NoEndpoints,
    /// The endpoint answered the connectivity probe with this status.
    Unreachable { endpoint: String, status: u16 },
    /// The file is smaller than the smallest file a node takes.
    FileTooSmall { path: String, size: u64 },
    /// The file is larger than the largest file a node takes.
    FileTooLarge { path: String, size: u64 },
    /// The node turned the upload down.
    UploadRejected { status: u16, body: String },
    /// The node turned the purchase request down for want of funds.
    InsufficientFunds,
    /// The node turned the purchase request down.
    RequestRejected { status: u16, body: String },
    /// The node turned the question about a purchase down.
    StatusRejected { status: u16, body: String },
    /// The purchase was cancelled, has expired or has failed.
    PurchaseEnded { purchase_id: String, state: String },
    /// The purchase did not start in time.
    Timeout { purchase_id: String },
}

/// The mathematical value of a [`ClientError`].
pub ghost enum ClientErrorView {
    NoEndpoints,
    Unreachable { endpoint: Seq<char>, status: u16 },
    FileTooSmall { path: Seq<char>, size: u64 },
    FileTooLarge { path: Seq<char>, size: u64 },
    UploadRejected { status: u16, body: Seq<char> },
    InsufficientFunds,
    RequestRejected { status: u16, body: Seq<char> },
    StatusRejected { status: u16, body: Seq<char> },
    PurchaseEnded { purchase_id: Seq<char>, state: Seq<char> },
    Timeout { purchase_id: Seq<char> },
}

impl View for ClientError {
    type V = ClientErrorView;

    open spec fn view(&self) -> ClientErrorView {
        match self {
            ClientError::NoEndpoints => ClientErrorView::NoEndpoints,
            ClientError::Unreachable { endpoint, status } => ClientErrorView::Unreachable {
                endpoint: endpoint@,
                status: *status,
            },
            ClientError::FileTooSmall { path, size } => ClientErrorView::FileTooSmall {
                path: path@,
                size: *size,
            },
            ClientError::FileTooLarge { path, size } => ClientErrorView::FileTooLarge {
                path: path@,
                size: *size,
            },
            ClientError::UploadRejected { status, body } => ClientErrorView::UploadRejected {
                status: *status,
                body: body@,
            },
            ClientError::InsufficientFunds => ClientErrorView::InsufficientFunds,
            ClientError::RequestRejected { status, body } => ClientErrorView::RequestRejected {
                status: *status,
                body: body@,
            },
            ClientError::StatusRejected { status, body } => ClientErrorView::StatusRejected {
                status: *status,
                body: body@,
            },
            ClientError::PurchaseEnded { purchase_id, state } => ClientErrorView::PurchaseEnded {
                purchase_id: purchase_id@,
                state: state@,
            },
            ClientError::Timeout { purchase_id } => ClientErrorView::Timeout {
                purchase_id: purchase_id@,
            },
        }
    }
}

impl ClientErrorView {
    /// The failure in words.
    pub open spec fn message(self) -> Seq<char> {
        match self {
            ClientErrorView::NoEndpoints => "No Codex endpoint is configured"@,
            ClientErrorView::Unreachable { endpoint, status } => "Endpoint "@ + endpoint
                + " returned status: "@ + decimal_text(status as nat),
            ClientErrorView::FileTooSmall { path, size } => "File "@ + path + " is too small ("@
                + decimal_text(size as nat) + " bytes). Minimum size is 1MB"@,
            ClientErrorView::FileTooLarge { path, size } => "File "@ + path + " is too large ("@
                + decimal_text(size as nat) + " bytes). Maximum size is 1GB"@,
            ClientErrorView::UploadRejected { status, body } => "Upload failed with status "@
                + decimal_text(status as nat) + ": "@ + body,
            ClientErrorView::InsufficientFunds => insufficient_funds_text(),
            ClientErrorView::RequestRejected { status, body } =>
                "Storage request failed with status "@ + decimal_text(status as nat) + ": "@ + body,
            ClientErrorView::StatusRejected { status, body } =>
                "Failed to get purchase status with status "@ + decimal_text(status as nat) + ": "@
                    + body,
            ClientErrorView::PurchaseEnded { purchase_id, state } => "Purchase "@ + purchase_id
                + " reached final state: "@ + state,
            ClientErrorView::Timeout { purchase_id } => "Timeout waiting for purchase "@
                + purchase_id + " to start"@,
        }
    }
}

impl ClientError {
    /// The failure in words.
    pub fn message(&self) -> (text: String)
        ensures
            text@ == self@.message(),
    {
        match self {
            ClientError::NoEndpoints => String::from_str("No Codex endpoint is configured"),
            ClientError::Unreachable { endpoint, status } => String::from_str("Endpoint ").concat(
                endpoint.as_str(),
            ).concat(" returned status: ").concat(decimal(*status as u64).as_str()),
            ClientError::FileTooSmall { path, size } => String::from_str("File ").concat(
                path.as_str(),
            ).concat(" is too small (").concat(decimal(*size).as_str()).concat(
                " bytes). Minimum size is 1MB",
            ),
            ClientError::FileTooLarge { path, size } => String::from_str("File ").concat(
                path.as_str(),
            ).concat(" is too large (").concat(decimal(*size).as_str()).concat(
                " bytes). Maximum size is 1GB",
            ),
            ClientError::UploadRejected { status, body } => String::from_str(
                "Upload failed with status ",
            ).concat(decimal(*status as u64).as_str()).concat(": ").concat(body.as_str()),
            ClientError::InsufficientFunds => String::from_str(
                "Insufficient tokens to create storage request",
            ),
            ClientError::RequestRejected { status, body } => String::from_str(
                "Storage request failed with status ",
            ).concat(decimal(*status as u64).as_str()).concat(": ").concat(body.as_str()),
            ClientError::StatusRejected { status, body } => String::from_str(
                "Failed to get purchase status with status ",
            ).concat(decimal(*status as u64).as_str()).concat(": ").concat(body.as_str()),
            ClientError::PurchaseEnded { purchase_id, state } => String::from_str(
                "Purchase ",
            ).concat(purchase_id.as_str()).concat(" reached final state: ").concat(state.as_str()),
            ClientError::Timeout { purchase_id } => String::from_str(
                "Timeout waiting for purchase ",
            ).concat(purchase_id.as_str()).concat(" to start"),
        }
    }
}

/// Whether a node answered with success.
pub open spec fn success(status: u16) -> bool {
    200 <= status < 300
}

/// Whether a node answered with success.
pub fn is_success(status: u16) -> (b: bool)
    ensures
        b == success(status),
{
    200 <= status && status < 300
}

/// A call that is ready to be made: the endpoint that was picked for it
/// and the address to call.
#[derive(Debug)]
pub struct Call {
    pub endpoint: String,
    pub url: String,
}

/// The path of the connectivity probe below an endpoint.
pub open spec fn info_path() -> Seq<char> {
    "/api/codex/v1/debug/info"@
}

/// The path of uploads below an endpoint.
pub open spec fn data_path() -> Seq<char> {
    "/api/codex/v1/data"@
}

/// The path of purchase requests below an endpoint; the content id
/// follows it.
pub open spec fn request_path() -> Seq<char> {
    "/api/codex/v1/storage/request/"@
}

/// The path of purchases below an endpoint; the purchase id follows it.
pub open spec fn purchases_path() -> Seq<char> {
    "/api/codex/v1/storage/purchases/"@
}

/// The terms of a purchase as they are sent: duration and expiry in
/// seconds, the price, the proof probability and the collateral written
/// in decimal digits.
pub open spec fn request_of(request: StorageRequest, params: StorageParams) -> bool {
    &&& request.duration == params.duration_days * 24 * 60 * 60
    &&& request.reward@ == decimal_text(params.price as nat)
    &&& request.proof_probability@ == decimal_text(params.proof_probability as nat)
    &&& request.nodes == params.nodes
    &&& request.tolerance == params.tolerance
    &&& request.expiry == params.expiry_minutes * 60
    &&& request.collateral@ == decimal_text(params.collateral as nat)
}

/// What follows a look at a purchase that is waited for.
#[derive(Debug)]
pub enum WaitStep {
    /// The purchase has started.
    Started,
    /// The wait is over without a start.
    Failed(ClientError),
    /// Ask again after `delay_secs` seconds.
    PollAgain { delay_secs: u64 },
}

/// The mathematical value of a [`WaitStep`].
pub ghost enum WaitStepView {
    Started,
    Failed(ClientErrorView),
    PollAgain { delay_secs: u64 },
}

impl View for WaitStep {
    type V = WaitStepView;

    open spec fn view(&self) -> WaitStepView {
        match self {
            WaitStep::Started => WaitStepView::Started,
            WaitStep::Failed(e) => WaitStepView::Failed(e@),
            WaitStep::PollAgain { delay_secs } => WaitStepView::PollAgain {
                delay_secs: *delay_secs,
            },
        }
    }
}

/// What follows a look at a purchase in the state `state`, after
/// `elapsed_millis` milliseconds of waiting with a limit of
/// `timeout_secs` seconds. A purchase that has started ends the wait with
/// success; one that was cancelled, has expired or has failed ends it
/// with that; any other state is asked for again unless the limit is
/// passed.
pub open spec fn waited(
    purchase_id: Seq<char>,
    state: Seq<char>,
    elapsed_millis: u128,
    timeout_secs: u64,
) -> WaitStepView {
    if state == "started"@ {
        WaitStepView::Started
    } else if state == "cancelled"@ || state == "expired"@ || state == "failed"@ {
        WaitStepView::Failed(ClientErrorView::PurchaseEnded { purchase_id, state })
    } else if elapsed_millis > timeout_secs * 1000 {
        WaitStepView::Failed(ClientErrorView::Timeout { purchase_id })
    } else {
        WaitStepView::PollAgain { delay_secs: START_POLL_SECS }
    }
}

/// The client of the storage network: its endpoints, and the number of
/// calls for which an endpoint was picked.
#[derive(Debug)]
pub struct Client {
    pub endpoints: Vec<String>,
    pub current_endpoint: usize,
}

impl Client {
    /// A client that has picked no endpoint yet.
    pub fn new(endpoints: Vec<String>) -> (client: Client)
        ensures
            client.endpoints == endpoints,
            client.current_endpoint == 0,
    {
        Client { endpoints, current_endpoint: 0 }
    }

    /// The endpoint whose turn it is: the endpoints take turns in their
    /// order, one for each call.
    pub open spec fn next_endpoint(self) -> Seq<char>
        recommends
            self.endpoints@.len() > 0,
    {
        self.endpoints@[self.current_endpoint as int % self.endpoints@.len() as int]@
    }

    /// Whether `after` is this client after one more call: the same
    /// endpoints, and a number of calls that is one higher, or zero after
    /// the highest number there is.
    pub open spec fn picked(self, after: Client) -> bool {
        &&& after.endpoints == self.endpoints
        &&& after.current_endpoint == if self.current_endpoint == usize::MAX {
            0
        } else {
            (self.current_endpoint + 1) as usize
        }
    }

    /// Picks the endpoint for the next call. Without endpoints there is
    /// nothing to pick, and nothing changes.
    pub fn get_endpoint(&mut self) -> (endpoint: Option<String>)
        ensures
            old(self).endpoints@.len() == 0 ==> endpoint is None && *final(self) == *old(self),
            old(self).endpoints@.len() > 0 ==> old(self).picked(*final(self)) && endpoint is Some
                && endpoint->0@ == old(self).next_endpoint(),
    {
        if self.endpoints.len() == 0 {
            return None;
        }
        let index = self.current_endpoint % self.endpoints.len();
        self.current_endpoint = if self.current_endpoint == usize::MAX {
            0
        } else {
            self.current_endpoint + 1
        };
        Some(self.endpoints[index].clone())
    }

    /// The addresses to probe at the start, one for each endpoint in
    /// their order.
    pub fn check_connectivity(&self) -> (urls: Vec<String>)
        ensures
            urls@.len() == self.endpoints@.len(),
            forall|i: int|
                0 <= i < urls@.len() ==> (#[trigger] urls@[i])@ == self.endpoints@[i]@
                    + info_path(),
    {
        let mut urls: Vec<String> = Vec::new();
        let mut i: usize = 0;
        while i < self.endpoints.len()
            invariant
                i <= self.endpoints@.len(),
                urls@.len() == i,
                forall|j: int|
                    0 <= j < i ==> (#[trigger] urls@[j])@ == self.endpoints@[j]@ + info_path(),
            decreases self.endpoints@.len() - i,
        {
            urls.push(self.endpoints[i].clone().concat("/api/codex/v1/debug/info"));
            i = i + 1;
        }
        urls
    }

    /// Reads the answer of an endpoint to the connectivity probe: any
    /// status but success makes the endpoint unreachable.
    pub fn probe_response(endpoint: &str, status: u16) -> (r: Result<(), ClientError>)
        ensures
            success(status) ==> r is Ok,
            !success(status) ==> r is Err && r->Err_0@ == (ClientErrorView::Unreachable {
                endpoint: endpoint@,
                status,
            }),
    {
        if is_success(status) {
            Ok(())
        } else {
            Err(ClientError::Unreachable { endpoint: endpoint.to_owned(), status })
        }
    }

    /// What preparing the upload of a file of `size` bytes gives: a file
    /// that is smaller than 1 MiB or larger than 1 GiB is turned down;
    /// any other goes to the data address of the endpoint whose turn it
    /// is.
    pub open spec fn upload_prepared(
        self,
        path: Seq<char>,
        size: u64,
        r: Result<Call, ClientError>,
    ) -> bool {
        if size < MIN_FILE_SIZE {
            r is Err && r->Err_0@ == (ClientErrorView::FileTooSmall { path, size })
        } else if size > MAX_FILE_SIZE {
            r is Err && r->Err_0@ == (ClientErrorView::FileTooLarge { path, size })
        } else {
            r is Ok && r->Ok_0.endpoint@ == self.next_endpoint() && r->Ok_0.url@
                == self.next_endpoint() + data_path()
        }
    }

    /// Prepares the upload of a file of `file_size` bytes, as
    /// [`Client::upload_prepared`] says. The endpoint is picked before
    /// the size is looked at.
    pub fn upload_file(&mut self, file_path: &str, file_size: u64) -> (r: Result<Call, ClientError>)
        ensures
            old(self).endpoints@.len() == 0 ==> *final(self) == *old(self) && r is Err
                && r->Err_0@ == ClientErrorView::NoEndpoints,
            old(self).endpoints@.len() > 0 ==> old(self).picked(*final(self))
                && old(self).upload_prepared(file_path@, file_size, r),
    {
        let endpoint = match self.get_endpoint() {
            Some(endpoint) => endpoint,
            None => {
                return Err(ClientError::NoEndpoints);
            },
        };
        if file_size < MIN_FILE_SIZE {
            return Err(ClientError::FileTooSmall { path: file_path.to_owned(), size: file_size });
        }
        if file_size > MAX_FILE_SIZE {
            return Err(ClientError::FileTooLarge { path: file_path.to_owned(), size: file_size });
        }
        let url = endpoint.clone().concat("/api/codex/v1/data");
        Ok(Call { endpoint, url })
    }

    /// Reads the answer to an upload, given the answer's body without
    /// the whitespace around it: success gives that as the content id,
    /// any other status is an error with the body as it came.
    pub fn upload_answer(status: u16, body: &str, trimmed_body: String) -> (r: Result<
        String,
        ClientError,
    >)
        ensures
            success(status) ==> r is Ok && r->Ok_0@ == trimmed_body@,
            !success(status) ==> r is Err && r->Err_0@ == (ClientErrorView::UploadRejected {
                status,
                body: body@,
            }),
    {
        if is_success(status) {
            Ok(trimmed_body)
        } else {
            Err(ClientError::UploadRejected { status, body: body.to_owned() })
        }
    }

    /// Reads the answer to an upload: success gives the content id, which
    /// is the body without the whitespace around it; any other status is
    /// an error with the body as it came.
    pub fn upload_response(status: u16, body: &str) -> (r: Result<String, ClientError>)
        ensures
            success(status) ==> r is Ok && r->Ok_0@ == trimmed(body@),
            !success(status) ==> r is Err && r->Err_0@ == (ClientErrorView::UploadRejected {
                status,
                body: body@,
            }),
    {
        Self::upload_answer(status, body, trim(body))
    }

    /// The terms of a purchase as they are sent to a node.
    pub fn storage_request(params: &StorageParams) -> (request: StorageRequest)
        ensures
            request_of(request, *params),
    {
        StorageRequest {
            duration: params.duration_days as u64 * 24 * 60 * 60,
            reward: decimal(params.price),
            proof_probability: decimal(params.proof_probability as u64),
            nodes: params.nodes,
            tolerance: params.tolerance,
            expiry: params.expiry_minutes as u64 * 60,
            collateral: decimal(params.collateral),
        }
    }

    /// Prepares the purchase request for the content `cid`: it goes to
    /// the request address of the endpoint whose turn it is, followed by
    /// the content id, with the terms as they are sent.
    pub fn create_storage_request(&mut self, cid: &str, storage_params: &StorageParams) -> (r:
        Result<(Call, StorageRequest), ClientError>)
        ensures
            old(self).endpoints@.len() == 0 ==> *final(self) == *old(self) && r is Err
                && r->Err_0@ == ClientErrorView::NoEndpoints,
            old(self).endpoints@.len() > 0 ==> old(self).picked(*final(self)) && r is Ok
                && r->Ok_0.0.endpoint@ == old(self).next_endpoint()
                && r->Ok_0.0.url@ == old(self).next_endpoint() + request_path() + cid@
                && request_of(r->Ok_0.1, *storage_params),
    {
        let endpoint = match self.get_endpoint() {
            Some(endpoint) => endpoint,
            None => {
                return Err(ClientError::NoEndpoints);
            },
        };
        let url = endpoint.clone().concat("/api/codex/v1/storage/request/").concat(cid);
        Ok((Call { endpoint, url }, Self::storage_request(storage_params)))
    }

    /// Reads the answer to a purchase request for the content `cid`,
    /// given the answer's body without the whitespace around it: success
    /// gives a purchase with that as its id, for the content that was
    /// asked for; the status 402 says that funds are wanting; any other
    /// status is an error with the body as it came.
    pub fn purchase_answer(status: u16, body: &str, trimmed_body: String, cid: &str) -> (r: Result<
        PurchaseResponse,
        ClientError,
    >)
        ensures
            success(status) ==> r is Ok && r->Ok_0.purchase_id@ == trimmed_body@
                && r->Ok_0.request.content.cid@ == cid@,
            status == PAYMENT_REQUIRED ==> r is Err && r->Err_0@
                == ClientErrorView::InsufficientFunds,
            !success(status) && status != PAYMENT_REQUIRED ==> r is Err && r->Err_0@ == (
            ClientErrorView::RequestRejected { status, body: body@ }),
    {
        if is_success(status) {
            Ok(
                PurchaseResponse {
                    purchase_id: trimmed_body,
                    request: StorageRequestInfo { content: ContentInfo { cid: cid.to_owned() } },
                },
            )
        } else if status == PAYMENT_REQUIRED {
            Err(ClientError::InsufficientFunds)
        } else {
            Err(ClientError::RequestRejected { status, body: body.to_owned() })
        }
    }

    /// Reads the answer to a purchase request for the content `cid`:
    /// success gives a purchase whose id is the body without the
    /// whitespace around it; the status 402 says that funds are wanting;
    /// any other status is an error with the body as it came.
    pub fn purchase_response(status: u16, body: &str, cid: &str) -> (r: Result<
        PurchaseResponse,
        ClientError,
    >)
        ensures
            success(status) ==> r is Ok && r->Ok_0.purchase_id@ == trimmed(body@)
                && r->Ok_0.request.content.cid@ == cid@,
            status == PAYMENT_REQUIRED ==> r is Err && r->Err_0@
                == ClientErrorView::InsufficientFunds,
            !success(status) && status != PAYMENT_REQUIRED ==> r is Err && r->Err_0@ == (
            ClientErrorView::RequestRejected { status, body: body@ }),
    {
        Self::purchase_answer(status, body, trim(body), cid)
    }

    /// Prepares the question about a purchase: it goes to the purchases
    /// address of the endpoint whose turn it is, followed by the purchase
    /// id.
    pub fn get_purchase_status(&mut self, purchase_id: &str) -> (r: Result<Call, ClientError>)
        ensures
            old(self).endpoints@.len() == 0 ==> *final(self) == *old(self) && r is Err
                && r->Err_0@ == ClientErrorView::NoEndpoints,
            old(self).endpoints@.len() > 0 ==> old(self).picked(*final(self)) && r is Ok
                && r->Ok_0.endpoint@ == old(self).next_endpoint()
                && r->Ok_0.url@ == old(self).next_endpoint() + purchases_path() + purchase_id@,
    {
        let endpoint = match self.get_endpoint() {
            Some(endpoint) => endpoint,
            None => {
                return Err(ClientError::NoEndpoints);
            },
        };
        let url = endpoint.clone().concat("/api/codex/v1/storage/purchases/").concat(purchase_id);
        Ok(Call { endpoint, url })
    }

    /// Reads the status of the answer to a question about a purchase:
    /// any status but success is an error with the body as it came.
    pub fn status_response(status: u16, body: &str) -> (r: Result<(), ClientError>)
        ensures
            success(status) ==> r is Ok,
            !success(status) ==> r is Err && r->Err_0@ == (ClientErrorView::StatusRejected {
                status,
                body: body@,
            }),
    {
        if is_success(status) {
            Ok(())
        } else {
            Err(ClientError::StatusRejected { status, body: body.to_owned() })
        }
    }

    /// Decides what follows a look at a purchase that is waited for, as
    /// [`waited`] says of the state that the node reported.
    pub fn wait_for_purchase_start(
        purchase_id: &str,
        status: &PurchaseStatus,
        elapsed_millis: u128,
        timeout_secs: u64,
    ) -> (step: WaitStep)
        ensures
            step@ == waited(purchase_id@, status.state@, elapsed_millis, timeout_secs),
    {
        let current = status.state.clone();
        if current == String::from_str("started") {
            WaitStep::Started
        } else if current == String::from_str("cancelled") || current == String::from_str("expired")
            || current == String::from_str("failed") {
            WaitStep::Failed(
                ClientError::PurchaseEnded { purchase_id: purchase_id.to_owned(), state: current },
            )
        } else if elapsed_millis > timeout_secs as u128 * 1000 {
            WaitStep::Failed(ClientError::Timeout { purchase_id: purchase_id.to_owned() })
        } else {
            WaitStep::PollAgain { delay_secs: START_POLL_SECS }
        }
    }
}

} // verus!
