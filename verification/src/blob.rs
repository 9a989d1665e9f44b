//! The blob endpoints: reading a blob, and the chunked upload sessions that
//! store one.
use vstd::prelude::*;
use core::time::Duration;
use crate::http::{
    bare, header, one_error, respond, respond_empty, respond_with_header, with_bytes, BodyView,
    ErrorView, Header, HttpResponse, ResponseBody, ResponseView, Status,
};
use crate::search::first_match;
use crate::state::{
    copy_bytes, has_digest, named_by, opened_as, AppState, Blobs, RegistryView, RequestChunkUpload,
    StateView, StoredView, UploadView,
};
use crate::text::{decimal, decimal_string, parse_i32, parse_i32_bytes};
use crate::trusted::{is_v4_uuid_text, new_v4_uuid_text};

verus! {

/// The address under which the registry answers.
pub const IP: &'static str = "http://192.168.50.108:3000";

/// The bytes of an optional header value.
pub open spec fn opt_bytes(o: Option<Vec<u8>>) -> Option<Seq<u8>> {
    match o {
        Some(v) => Some(v@),
        None => None,
    }
}

/// The text of an optional query value.
pub open spec fn opt_text(o: Option<String>) -> Option<Seq<char>> {
    match o {
        Some(s) => Some(s@),
        None => None,
    }
}

/// The `Location` of an upload session.
pub open spec fn upload_location(name: Seq<char>, id: Seq<char>) -> Seq<char> {
    IP@ + "/v2/"@ + name + "/blobs/uploads/"@ + id
}

/// The `location` of a stored blob.
pub open spec fn blob_location(name: Seq<char>, digest: Seq<char>) -> Seq<char> {
    IP@ + "/v2/"@ + name + "/blobs/"@ + digest
}

/// The header that marks a JSON answer.
pub open spec fn json_content_type() -> (Seq<char>, Seq<char>) {
    ("content-type"@, "application/json"@)
}

/// Writes the `Location` of an upload session.
pub fn upload_location_text(name: &String, id: &String) -> (s: String)
    ensures
        s@ == upload_location(name@, id@),
{
    let mut s = String::from_str(IP);
    s.append("/v2/");
    s.append(name.as_str());
    s.append("/blobs/uploads/");
    s.append(id.as_str());
    s
}

/// Writes the `location` of a stored blob.
pub fn blob_location_text(name: &String, digest: &String) -> (s: String)
    ensures
        s@ == blob_location(name@, digest@),
{
    let mut s = String::from_str(IP);
    s.append("/v2/");
    s.append(name.as_str());
    s.append("/blobs/");
    s.append(digest.as_str());
    s
}

fn json_header() -> (h: Header)
    ensures
        h@ == json_content_type(),
{
    header("content-type", String::from_str("application/json"))
}

// ---------------------------------------------------------------------------
// Reading blobs

/// The answer to `GET /v2/<name>/blobs/<digest>`: the bytes of the first
/// blob stored under the digest, or 404.
pub open spec fn get_blob_response(s: StateView, digest: Seq<char>) -> ResponseView {
    match first_match(s.registry.blobs, has_digest(digest)) {
        Some(i) => with_bytes(
            Status::Okay,
            seq![("content-type"@, "application/octet-stream"@)],
            s.registry.blobs[i].data,
        ),
        None => bare(Status::NotFound, Seq::empty()),
    }
}

/// The answer to `HEAD /v2/<name>/blobs/<digest>`: 200 when a blob is stored
/// under the digest, else 404, with an empty body either way.
pub open spec fn blob_exists_response(s: StateView, digest: Seq<char>) -> ResponseView {
    if first_match(s.registry.blobs, has_digest(digest)) is Some {
        bare(Status::Okay, Seq::empty())
    } else {
        bare(Status::NotFound, Seq::empty())
    }
}

/// Answers `GET /v2/<name>/blobs/<digest>`.
pub fn get_blob(state: &AppState, _name: &String, digest: &String) -> (r: HttpResponse)
    ensures
        r@ == get_blob_response(state@, digest@),
{
    match state.registry.find_blob(digest) {
        None => respond_empty(Status::NotFound),
        Some(i) => {
            let data = copy_bytes(&state.registry.blobs[i].data);
            let h = header("content-type", String::from_str("application/octet-stream"));
            let r = respond(Status::Okay, vec![h], data);
            assert(r@.headers =~= seq![("content-type"@, "application/octet-stream"@)]);
            r
        },
    }
}

/// Answers `HEAD /v2/<name>/blobs/<digest>`.
pub fn blob_exists(state: &AppState, _name: &String, digest: &String) -> (r: HttpResponse)
    ensures
        r@ == blob_exists_response(state@, digest@),
{
    match state.registry.find_blob(digest) {
        None => respond_empty(Status::NotFound),
        Some(_) => respond_empty(Status::Okay),
    }
}

// ---------------------------------------------------------------------------
// Opening an upload session

/// The request announces an empty body: its `content-length` is `0`.
pub open spec fn announces_empty_body(content_length: Option<Seq<u8>>) -> bool {
    content_length == Some(seq![48u8])
}

/// Whether the `content-length` header reads exactly `0`.
pub fn is_zero_length(content_length: &Option<Vec<u8>>) -> (b: bool)
    ensures
        b == announces_empty_body(opt_bytes(*content_length)),
{
    match content_length {
        Some(v) => {
            let b = v.len() == 1 && v[0] == 48;
            assert(b ==> v@ =~= seq![48u8]);
            b
        },
        None => false,
    }
}

/// The state after an upload session is opened under `session_id`, to be
/// closed under `close_session_id`, with no bytes yet.
pub open spec fn with_new_session(
    s: StateView,
    session_id: Seq<char>,
    close_session_id: Seq<char>,
    now: Duration,
) -> StateView {
    StateView {
        registry: RegistryView {
            uploads: s.registry.uploads.push(
                UploadView { session_id, close_session_id, date: now, data: Seq::empty() },
            ),
            ..s.registry
        },
        ..s
    }
}

/// The answer of `post_upload_blob` to a request that opened a session.
pub open spec fn session_opened_response(name: Seq<char>, session_id: Seq<char>) -> ResponseView {
    bare(
        Status::Accepted,
        seq![("range"@, "0-0"@), ("Location"@, upload_location(name, session_id))],
    )
}

/// Opens an upload session under the given ids, received at `now`.
pub fn open_session(
    state: &mut AppState,
    session_id: &String,
    close_session_id: String,
    now: Duration,
)
    ensures
        final(state).wf() == old(state).wf(),
        final(state)@ == with_new_session(old(state)@, session_id@, close_session_id@, now),
{
    let u = RequestChunkUpload {
        session_id: session_id.clone(),
        close_session_id,
        date: now,
        data: Vec::new(),
    };
    let ghost before = state@;
    state.registry.request_chunk_uploads.push(u);
    proof {
        let want = with_new_session(before, session_id@, close_session_id@, now);
        assert(state@.registry.uploads =~= want.registry.uploads);
        assert(state@.registry.blobs =~= want.registry.blobs);
        assert(state@.registry.manifests =~= want.registry.manifests);
        assert(state@.registry.images =~= want.registry.images);
    }
}

/// The rest of `post_upload_blob` once the two session ids are drawn: when
/// the body is announced empty, opens the session and points the client at
/// it; otherwise answers 500.
pub fn post_upload_blob_with_ids(
    state: &mut AppState,
    name: &String,
    content_length: &Option<Vec<u8>>,
    session_id: String,
    close_session_id: String,
    now: Duration,
) -> (r: HttpResponse)
    ensures
        final(state).wf() == old(state).wf(),
        announces_empty_body(opt_bytes(*content_length)) ==> {
            &&& final(state)@ == with_new_session(old(state)@, session_id@, close_session_id@, now)
            &&& r@ == session_opened_response(name@, session_id@)
        },
        !announces_empty_body(opt_bytes(*content_length)) ==> {
            &&& final(state)@ == old(state)@
            &&& r@ == bare(Status::InternalServerError, Seq::empty())
        },
{
    if is_zero_length(content_length) {
        open_session(state, &session_id, close_session_id, now);
        let range = header("range", String::from_str("0-0"));
        let location = header("Location", upload_location_text(name, &session_id));
        let r = respond(Status::Accepted, vec![range, location], Vec::new());
        assert(r@.headers =~= seq![("range"@, "0-0"@), ("Location"@, upload_location(name@, session_id@))]);
        r
    } else {
        respond_empty(Status::InternalServerError)
    }
}

/// Answers `POST /v2/<name>/blobs/uploads/`: a request whose
/// `content-length` is `0` opens an upload session under two fresh random
/// ids; any other request gets 500.
pub fn post_upload_blob(
    state: &mut AppState,
    name: &String,
    content_length: &Option<Vec<u8>>,
    now: Duration,
) -> (r: HttpResponse)
    ensures
        final(state).wf() == old(state).wf(),
        announces_empty_body(opt_bytes(*content_length)) ==> {
            let u = final(state)@.registry.uploads.last();
            &&& is_v4_uuid_text(u.session_id)
            &&& is_v4_uuid_text(u.close_session_id)
            &&& final(state)@ == with_new_session(old(state)@, u.session_id, u.close_session_id, now)
            &&& r@ == session_opened_response(name@, u.session_id)
        },
        !announces_empty_body(opt_bytes(*content_length)) ==> {
            &&& final(state)@ == old(state)@
            &&& r@ == bare(Status::InternalServerError, Seq::empty())
        },
{
    if is_zero_length(content_length) {
        let session_id = new_v4_uuid_text();
        let close_session_id = new_v4_uuid_text();
        post_upload_blob_with_ids(state, name, content_length, session_id, close_session_id, now)
    } else {
        respond_empty(Status::InternalServerError)
    }
}

// ---------------------------------------------------------------------------
// Adding bytes to a session and closing it

/// The session at position `i` with the body added to its bytes when the
/// declared length is positive.
pub open spec fn fed_session(u: UploadView, length: i32, body: Seq<u8>) -> UploadView {
    if length > 0 {
        UploadView { data: u.data + body, ..u }
    } else {
        u
    }
}

/// The registry with the session at position `i` replaced.
pub open spec fn with_session(s: StateView, i: int, u: UploadView) -> StateView {
    StateView { registry: RegistryView { uploads: s.registry.uploads.update(i, u), ..s.registry }, ..s }
}

/// The requests that `put_upload_blob` serves without panicking: once a
/// session is found and a `content-length` is sent, that length must read as
/// an `i32` and a digest must be given.
pub open spec fn put_upload_blob_accepts(
    s: StateView,
    reference: Seq<char>,
    content_length: Option<Seq<u8>>,
    digest: Option<Seq<char>>,
) -> bool {
    (first_match(s.registry.uploads, named_by(reference)) is Some && content_length is Some) ==> {
        &&& parse_i32(content_length.unwrap()) is Some
        &&& digest is Some
    }
}

/// What `PUT /v2/<name>/blobs/uploads/<reference>` does: it finds the first
/// session that the reference names, adds the body to it when the declared
/// length is positive, stores its bytes as a blob under the digest, and
/// points the client at the blob. Without a session, or without a
/// `content-length`, the answer is 400.
pub open spec fn put_upload_blob_step(
    s: StateView,
    name: Seq<char>,
    reference: Seq<char>,
    content_length: Option<Seq<u8>>,
    digest: Option<Seq<char>>,
    body: Seq<u8>,
) -> (StateView, ResponseView) {
    match first_match(s.registry.uploads, named_by(reference)) {
        None => (s, bare(Status::BadRequest, seq![json_content_type()])),
        Some(i) => match content_length {
            None => (s, bare(Status::BadRequest, seq![json_content_type()])),
            Some(raw) => {
                let u = fed_session(s.registry.uploads[i], parse_i32(raw).unwrap(), body);
                let d = digest.unwrap();
                let fed = with_session(s, i, u);
                (
                    StateView {
                        registry: RegistryView {
                            blobs: fed.registry.blobs.push(StoredView { digest: d, data: u.data }),
                            ..fed.registry
                        },
                        ..fed
                    },
                    bare(Status::Created, seq![("location"@, blob_location(name, d))]),
                )
            },
        },
    }
}

/// Adds the body to the session at position `i` when `length` is positive.
fn feed_session(state: &mut AppState, i: usize, length: i32, body: &Vec<u8>)
    requires
        i < old(state)@.registry.uploads.len(),
    ensures
        final(state).wf() == old(state).wf(),
        final(state)@ == with_session(
            old(state)@,
            i as int,
            fed_session(old(state)@.registry.uploads[i as int], length, body@),
        ),
{
    if length > 0 {
        state.registry.extend_upload(i, body);
    } else {
        assert(old(state)@.registry.uploads.update(i as int, old(state)@.registry.uploads[i as int])
            =~= old(state)@.registry.uploads);
    }
}

/// Answers `PUT /v2/<name>/blobs/uploads/<reference>`.
pub fn put_upload_blob(
    state: &mut AppState,
    name: &String,
    reference: &String,
    content_length: &Option<Vec<u8>>,
    digest: &Option<String>,
    body: &Vec<u8>,
) -> (r: HttpResponse)
    requires
        put_upload_blob_accepts(old(state)@, reference@, opt_bytes(*content_length), opt_text(*digest)),
    ensures
        final(state).wf() == old(state).wf(),
        (final(state)@, r@) == put_upload_blob_step(
            old(state)@,
            name@,
            reference@,
            opt_bytes(*content_length),
            opt_text(*digest),
            body@,
        ),
{
    let found = state.registry.find_named_upload(reference);
    match found {
        None => respond_with_header(Status::BadRequest, json_header()),
        Some(i) => match content_length {
            None => respond_with_header(Status::BadRequest, json_header()),
            Some(raw) => {
                let length = match parse_i32_bytes(raw) {
                    Some(n) => n,
                    None => 0,
                };
                feed_session(state, i, length, body);
                assert(state@.registry.uploads.len() == old(state)@.registry.uploads.len());
                assert(i < state.registry.request_chunk_uploads@.len());
                let d = match digest {
                    Some(d) => d,
                    None => {
                        return respond_empty(Status::BadRequest);
                    },
                };
                let ghost fed = state@;
                let stored = Blobs {
                    digest: d.clone(),
                    data: copy_bytes(&state.registry.request_chunk_uploads[i].data),
                };
                state.registry.blobs.push(stored);
                proof {
                    assert(state@.registry.blobs =~= fed.registry.blobs.push(StoredView { digest: d@, data: fed.registry.uploads[i as int].data }));
                    assert(state@.registry.uploads =~= fed.registry.uploads);
                    assert(state@.registry.manifests =~= fed.registry.manifests);
                    assert(state@.registry.images =~= fed.registry.images);
                }
                respond_with_header(Status::Created, header("location", blob_location_text(name, d)))
            },
        },
    }
}

/// The requests that `patch_upload_blob` serves without panicking: once a
/// session is found and a `content-length` is sent, that length must read as
/// an `i32`.
pub open spec fn patch_upload_blob_accepts(
    s: StateView,
    reference: Seq<char>,
    content_length: Option<Seq<u8>>,
) -> bool {
    (first_match(s.registry.uploads, opened_as(reference)) is Some && content_length is Some)
        ==> parse_i32(content_length.unwrap()) is Some
}

/// The error answer to a chunk for a session that does not exist.
pub open spec fn unknown_session_response() -> ResponseView {
    ResponseView {
        status: Status::BadRequest,
        headers: seq![json_content_type()],
        body: BodyView::Errors(
            seq![
                ErrorView {
                    code: "BLOB_UPLOAD_INVALID"@,
                    message: "blob upload invalid"@,
                    detail: "reference not found for blob upload"@,
                },
            ],
        ),
    }
}

/// What `PATCH /v2/<name>/blobs/uploads/<reference>` does: it finds the
/// first session opened under the reference, adds the body to it when the
/// declared length is positive, and points the client at the session's
/// closing id, with the range `0-<body length>`.
pub open spec fn patch_upload_blob_step(
    s: StateView,
    name: Seq<char>,
    reference: Seq<char>,
    content_length: Option<Seq<u8>>,
    body: Seq<u8>,
) -> (StateView, ResponseView) {
    match first_match(s.registry.uploads, opened_as(reference)) {
        None => (s, unknown_session_response()),
        Some(i) => match content_length {
            None => (s, bare(Status::BadRequest, seq![json_content_type()])),
            Some(raw) => {
                let u = fed_session(s.registry.uploads[i], parse_i32(raw).unwrap(), body);
                (
                    with_session(s, i, u),
                    bare(
                        Status::Accepted,
                        seq![
                            ("range"@, "0-"@ + decimal(body.len())),
                            ("location"@, upload_location(name, u.close_session_id)),
                        ],
                    ),
                )
            },
        },
    }
}

/// Answers `PATCH /v2/<name>/blobs/uploads/<reference>`.
pub fn patch_upload_blob(
    state: &mut AppState,
    name: &String,
    reference: &String,
    content_length: &Option<Vec<u8>>,
    body: &Vec<u8>,
) -> (r: HttpResponse)
    requires
        patch_upload_blob_accepts(old(state)@, reference@, opt_bytes(*content_length)),
    ensures
        final(state).wf() == old(state).wf(),
        (final(state)@, r@) == patch_upload_blob_step(
            old(state)@,
            name@,
            reference@,
            opt_bytes(*content_length),
            body@,
        ),
{
    match state.registry.find_opened_upload(reference) {
        None => {
            let e = one_error("BLOB_UPLOAD_INVALID", "blob upload invalid", "reference not found for blob upload");
            let r = HttpResponse {
                status: Status::BadRequest,
                headers: vec![json_header()],
                body: ResponseBody::Errors(e),
            };
            assert(r@.headers =~= seq![json_content_type()]);
            assert(r@ == unknown_session_response());
            r
        },
        Some(i) => match content_length {
            None => respond_with_header(Status::BadRequest, json_header()),
            Some(raw) => {
                let length = match parse_i32_bytes(raw) {
                    Some(n) => n,
                    None => 0,
                };
                feed_session(state, i, length, body);
                assert(state@.registry.uploads.len() == old(state)@.registry.uploads.len());
                assert(i < state.registry.request_chunk_uploads@.len());
                let mut range = String::from_str("0-");
                range.append(decimal_string(body.len()).as_str());
                let range_header = header("range", range);
                let location = header(
                    "location",
                    upload_location_text(name, &state.registry.request_chunk_uploads[i].close_session_id),
                );
                let r = respond(Status::Accepted, vec![range_header, location], Vec::new());
                assert(r@.headers =~= seq![range_header@, location@]);
                assert(range_header@.1 == "0-"@ + decimal(body@.len()));
                assert(state@.registry.uploads[i as int].close_session_id == old(state)@.registry.uploads[i as int].close_session_id);
                r
            },
        },
    }
}

} // verus!
