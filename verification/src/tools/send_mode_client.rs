use vstd::prelude::*;
use crate::json::{sp_obj_arr, FieldV};
use crate::send_modes::error::LibError;
use crate::send_modes::send_mode::{
    send_mode_fields, spec_new_send_mode_json, spec_send_mode_checked, spec_send_mode_decode,
    spec_send_mode_from_fields, NewSendModeRequest, SendMode, SendModeV,
};

verus! {

/// The HTTP methods the send-mode API uses.
#[derive(Debug, Clone, Copy, PartialEq, Eq, Structural)]
pub enum HttpMethod {
    Get,
    Post,
    Delete,
}

/// One outbound request, fully decided: method, URL, and the JSON body
/// where the operation has one. The I/O layer performs it through the
/// resilient request executor and hands the status and body text back.
#[derive(Debug, Clone)]
pub struct RequestPlan {
    pub method: HttpMethod,
    pub url: String,
    pub body: Option<String>,
    /// Whether the request carries a JSON content-type header.
    pub json_content_type: bool,
}

/// A status in the 2xx range.
pub open spec fn is_success_status(status: u16) -> bool {
    200 <= status < 300
}

/// Interprets a status-only response: any non-2xx status collapses to
/// `InternalError`; status-code granularity is deliberately discarded.
pub fn read_unit_response(status: u16) -> (r: Result<(), LibError>)
    ensures
        match r {
            Ok(u) => is_success_status(status),
            Err(e) => !is_success_status(status) && e == LibError::InternalServerError,
        },
{
    if 200 <= status && status < 300 {
        Ok(())
    } else {
        Err(LibError::InternalServerError)
    }
}

/// Interprets a response carrying one send mode: any non-2xx status, and
/// any 2xx body that does not decode as a send mode, collapses to
/// `InternalError`; a 2xx body that decodes yields the entity.
pub fn read_send_mode_response(status: u16, body: &str) -> (r: Result<SendMode, LibError>)
    ensures
        match r {
            Ok(m) => is_success_status(status) && spec_send_mode_decode(body@) == Ok::<
                SendModeV,
                LibError,
            >(m@),
            Err(e) => e == LibError::InternalServerError && (!is_success_status(status)
                || spec_send_mode_decode(body@) is Err),
        },
{
    if !(200 <= status && status < 300) {
        return Err(LibError::InternalServerError);
    }
    match SendMode::from_json(body) {
        Ok(m) => Ok(m),
        Err(_) => Err(LibError::InternalServerError),
    }
}

/// What decoding a JSON array of send modes yields, first error wins.
pub open spec fn spec_modes_from_objs(os: Seq<Seq<FieldV>>) -> Result<Seq<SendModeV>, LibError>
    decreases os.len(),
{
    if os.len() == 0 {
        Ok(Seq::empty())
    } else {
        match spec_send_mode_from_fields(os[0]) {
            Ok(m) => match spec_modes_from_objs(os.skip(1)) {
                Ok(rest) => Ok(seq![m] + rest),
                Err(e) => Err(e),
            },
            Err(e) => Err(e),
        }
    }
}

/// What decoding a JSON text as a list of send modes yields.
pub open spec fn spec_send_mode_list_decode(s: Seq<char>) -> Result<Seq<SendModeV>, LibError> {
    match sp_obj_arr(s, 0) {
        Some((os, j)) => if j == s.len() {
            spec_modes_from_objs(os)
        } else {
            Err(LibError::InternalServerError)
        },
        None => Err(LibError::InternalServerError),
    }
}

fn modes_from_objs(objs: &Vec<Vec<crate::json::JsonField>>, k: usize) -> (r: Result<
    Vec<SendMode>,
    LibError,
>)
    requires
        k <= objs@.len(),
    ensures
        match r {
            Ok(ms) => spec_modes_from_objs(objs.deep_view().skip(k as int)) == Ok::<
                Seq<SendModeV>,
                LibError,
            >(ms.deep_view()),
            Err(e) => spec_modes_from_objs(objs.deep_view().skip(k as int)) == Err::<
                Seq<SendModeV>,
                LibError,
            >(e),
        },
    decreases objs@.len() - k,
{
    let n: usize = objs.len();
    if k == n {
        let empty: Vec<SendMode> = Vec::new();
        proof {
            assert(objs.deep_view().skip(k as int).len() == 0);
            assert(empty.deep_view() =~= Seq::<SendModeV>::empty());
        }
        return Ok(empty);
    }
    proof {
        assert(objs.deep_view().skip(k as int)[0] == objs.deep_view()[k as int]);
        assert(objs.deep_view().skip(k as int).skip(1) =~= objs.deep_view().skip(k + 1));
    }
    match SendMode::from_fields(&objs[k]) {
        Err(e) => Err(e),
        Ok(m) => match modes_from_objs(objs, k + 1) {
            Err(e) => Err(e),
            Ok(mut rest) => {
                let ghost prev = rest.deep_view();
                rest.insert(0, m);
                proof {
                    assert(rest.deep_view() =~= seq![m@] + prev);
                }
                Ok(rest)
            },
        },
    }
}

/// Interprets a response carrying a JSON array of send modes, with the
/// same collapse of failures to `InternalError`.
pub fn read_send_mode_list_response(status: u16, body: &str) -> (r: Result<Vec<SendMode>, LibError>)
    ensures
        match r {
            Ok(ms) => is_success_status(status) && spec_send_mode_list_decode(body@) == Ok::<
                Seq<SendModeV>,
                LibError,
            >(ms.deep_view()),
            Err(e) => e == LibError::InternalServerError && (!is_success_status(status)
                || spec_send_mode_list_decode(body@) is Err),
        },
{
    if !(200 <= status && status < 300) {
        return Err(LibError::InternalServerError);
    }
    let chars = crate::strutil::string_to_chars(body);
    match crate::json::parse_obj_arr(&chars) {
        None => Err(LibError::InternalServerError),
        Some(objs) => match modes_from_objs(&objs, 0) {
            Ok(ms) => {
                proof {
                    assert(objs.deep_view().skip(0) =~= objs.deep_view());
                }
                Ok(ms)
            },
            Err(_) => {
                proof {
                    assert(objs.deep_view().skip(0) =~= objs.deep_view());
                }
                Err(LibError::InternalServerError)
            },
        },
    }
}

/// The send-mode API client: holds the service's base URL, injected at
/// startup, and decides each operation's request. The transport handle
/// lives with the I/O layer that carries the plans out.
#[derive(Debug, Clone)]
pub struct SendModeClient {
    pub base_url: String,
}

impl SendModeClient {
    /// A client for the service rooted at `base_url`.
    pub fn new(base_url: String) -> (r: SendModeClient)
        ensures
            r.base_url@ == base_url@,
    {
        SendModeClient { base_url }
    }

    /// The creation request: a POST of the payload's JSON body.
    pub fn new_send_mode(&self, request: &NewSendModeRequest) -> (r: RequestPlan)
        ensures
            r.method == HttpMethod::Post,
            r.url@ == self.base_url@ + "/api/v1/send_modes"@,
            r.body matches Some(b) && b@ == spec_new_send_mode_json(request@),
            r.json_content_type,
    {
        RequestPlan {
            method: HttpMethod::Post,
            url: self.base_url.clone().concat("/api/v1/send_modes"),
            body: Some(request.to_json()),
            json_content_type: true,
        }
    }

    /// The single-entity fetch: a GET of the entity's resource.
    pub fn get_send_mode_by_id(&self, send_mode_id: &str) -> (r: RequestPlan)
        ensures
            r.method == HttpMethod::Get,
            r.url@ == self.base_url@ + "/api/v1/send_modes/"@ + send_mode_id@,
            r.body is None,
    {
        RequestPlan {
            method: HttpMethod::Get,
            url: self.base_url.clone().concat("/api/v1/send_modes/").concat(send_mode_id),
            body: None,
            json_content_type: false,
        }
    }

    /// The heartbeat: a GET of the entity's heartbeat resource; success
    /// is status-only, no body is decoded.
    pub fn heartbeat(&self, send_mode_id: &str) -> (r: RequestPlan)
        ensures
            r.method == HttpMethod::Get,
            r.url@ == self.base_url@ + "/api/v1/send_modes/"@ + send_mode_id@ + "/heartbeat"@,
            r.body is None,
    {
        RequestPlan {
            method: HttpMethod::Get,
            url: self.base_url.clone().concat("/api/v1/send_modes/").concat(send_mode_id).concat(
                "/heartbeat",
            ),
            body: None,
            json_content_type: false,
        }
    }

    /// The by-owner fetch: a GET returning a JSON array of send modes.
    pub fn get_send_mode_by_aggregate_id(&self, aggregate_id: &str) -> (r: RequestPlan)
        ensures
            r.method == HttpMethod::Get,
            r.url@ == self.base_url@ + "/api/v1/send_modes/aggregate_id/"@ + aggregate_id@,
            r.body is None,
    {
        RequestPlan {
            method: HttpMethod::Get,
            url: self.base_url.clone().concat("/api/v1/send_modes/aggregate_id/").concat(
                aggregate_id,
            ),
            body: None,
            json_content_type: false,
        }
    }

    /// The deletion: a DELETE of the entity's resource; success is
    /// status-only.
    pub fn delete_send_mode(&self, send_mode_id: &str) -> (r: RequestPlan)
        ensures
            r.method == HttpMethod::Delete,
            r.url@ == self.base_url@ + "/api/v1/send_modes/"@ + send_mode_id@,
            r.body is None,
    {
        RequestPlan {
            method: HttpMethod::Delete,
            url: self.base_url.clone().concat("/api/v1/send_modes/").concat(send_mode_id),
            body: None,
            json_content_type: false,
        }
    }
}

/// The wire objects of a list of send modes, in order.
pub open spec fn spec_modes_wire_objs(ms: Seq<SendModeV>) -> Seq<Seq<FieldV>> {
    ms.map_values(|m: SendModeV| send_mode_fields(m))
}

proof fn lemma_modes_from_objs_ser(ms: Seq<SendModeV>)
    requires
        forall|k: int| 0 <= k < ms.len() ==> spec_send_mode_checked(#[trigger] ms[k]),
    ensures
        spec_modes_from_objs(spec_modes_wire_objs(ms)) == Ok::<Seq<SendModeV>, LibError>(ms),
    decreases ms.len(),
{
    let objs = spec_modes_wire_objs(ms);
    if ms.len() == 0 {
        assert(objs.len() == 0);
        assert(Seq::<SendModeV>::empty() =~= ms);
    } else {
        assert(objs[0] == send_mode_fields(ms[0]));
        crate::send_modes::send_mode::lemma_send_mode_fields_round_trip(ms[0]);
        assert(spec_send_mode_from_fields(objs[0]) == Ok::<SendModeV, LibError>(ms[0]));
        assert(objs.skip(1) =~= spec_modes_wire_objs(ms.skip(1))) by {
            assert(forall|k: int| 0 <= k < ms.len() - 1 ==> #[trigger] ms.skip(1)[k] == ms[k + 1]);
        }
        assert(forall|k: int| 0 <= k < ms.skip(1).len() ==> spec_send_mode_checked(
            #[trigger] ms.skip(1)[k],
        )) by {
            assert(forall|k: int| 0 <= k < ms.len() - 1 ==> #[trigger] ms.skip(1)[k] == ms[k + 1]);
        }
        lemma_modes_from_objs_ser(ms.skip(1));
        assert(seq![ms[0]] + ms.skip(1) =~= ms);
    }
}

/// A list of send modes written as one JSON array reads back as the
/// same list, in the same order, whenever every element's key and
/// timestamp pass the decoder's checks.
pub proof fn lemma_send_mode_list_round_trip(ms: Seq<SendModeV>)
    ensures
        (forall|k: int| 0 <= k < ms.len() ==> spec_send_mode_checked(#[trigger] ms[k]))
            ==> spec_send_mode_list_decode(
            crate::json::ser_obj_arr(spec_modes_wire_objs(ms)),
        ) == Ok::<Seq<SendModeV>, LibError>(ms),
{
    if forall|k: int| 0 <= k < ms.len() ==> spec_send_mode_checked(#[trigger] ms[k]) {
        let objs = spec_modes_wire_objs(ms);
        assert(crate::json::wf_objs(objs)) by {
            assert forall|k: int| 0 <= k < objs.len() implies crate::json::wf_fields(
                #[trigger] objs[k],
            ) by {
                crate::send_modes::send_mode::lemma_send_mode_fields_round_trip(ms[k]);
                assert(objs[k] == send_mode_fields(ms[k]));
            }
        }
        crate::json::lemma_obj_arr_round_trip(objs);
        lemma_modes_from_objs_ser(ms);
    }
}

} // verus!
