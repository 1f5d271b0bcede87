use vstd::prelude::*;
use crate::send_modes::error::LibError;
use crate::send_modes::send_mode::{
    spec_new_send_mode_json, spec_send_mode_decode, NewSendModeRequest, SendMode, SendModeV,
};
use crate::tools::send_mode_client::{
    is_success_status, read_send_mode_response, HttpMethod, RequestPlan,
};

verus! {

/// The second send-mode API client variant: its own base URL (the two
/// variants are configured independently) and a creation operation whose
/// URL joins the base and path without a separating slash, as this
/// variant's service expects.
#[derive(Debug, Clone)]
pub struct ClientSendModes {
    pub base_url: String,
}

impl ClientSendModes {
    /// A client for the service rooted at `base_url`.
    pub fn new(base_url: String) -> (r: ClientSendModes)
        ensures
            r.base_url@ == base_url@,
    {
        ClientSendModes { base_url }
    }

    /// The creation request: a POST of the payload's JSON body, with a
    /// JSON content-type header.
    pub fn new_send_mode(&self, request: &NewSendModeRequest) -> (r: RequestPlan)
        ensures
            r.method == HttpMethod::Post,
            r.url@ == self.base_url@ + "api/v1/send_modes"@,
            r.body matches Some(b) && b@ == spec_new_send_mode_json(request@),
            r.json_content_type,
    {
        RequestPlan {
            method: HttpMethod::Post,
            url: self.base_url.clone().concat("api/v1/send_modes"),
            body: Some(request.to_json()),
            json_content_type: true,
        }
    }

    /// Interprets the creation response: a 2xx body decoded as the
    /// created entity; everything else collapses to `InternalError`.
    pub fn read_new_send_mode_response(status: u16, body: &str) -> (r: Result<SendMode, LibError>)
        ensures
            match r {
                Ok(m) => is_success_status(status) && spec_send_mode_decode(body@) == Ok::<
                    SendModeV,
                    LibError,
                >(m@),
                Err(e) => e == LibError::InternalServerError && (!is_success_status(status)
                    || spec_send_mode_decode(body@) is Err),
            },
    {
        read_send_mode_response(status, body)
    }
}

} // verus!
