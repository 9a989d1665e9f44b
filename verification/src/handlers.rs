//! The manifest endpoints, the digest store with its upload tickets, and the
//! small fixed answers of the registry.
use vstd::prelude::*;
use core::time::Duration;
use crate::blob::{
    announces_empty_body, is_zero_length, json_content_type, open_session, opt_bytes, opt_text,
    upload_location, upload_location_text, with_new_session, IP,
};
use crate::http::{
    bare, header, one_error, respond, respond_empty, respond_with_header, with_bytes, BodyView,
    ErrorView, HttpResponse, ResponseBody, ResponseView, Status,
};
use crate::search::first_match;
use crate::state::{copy_bytes, has_digest, AppState, Manifests, RegistryView, StateView, StoredView};
use crate::trusted::{is_v4_uuid_text, new_v4_uuid_text, sha256_digest, sha256_hex};

verus! {

/// The digest under which content is kept: `sha256:` and the hex digest.
pub open spec fn content_digest(sha_hex: Seq<char>) -> Seq<char> {
    "sha256:"@ + sha_hex
}

/// The `Location` of a stored manifest.
pub open spec fn manifest_location(name: Seq<char>, digest: Seq<char>) -> Seq<char> {
    IP@ + "/v2/"@ + name + "/manifest/"@ + digest
}

fn content_digest_text(sha_hex: &String) -> (s: String)
    ensures
        s@ == content_digest(sha_hex@),
{
    let mut s = String::from_str("sha256:");
    s.append(sha_hex.as_str());
    s
}

fn manifest_location_text(name: &String, digest: &String) -> (s: String)
    ensures
        s@ == manifest_location(name@, digest@),
{
    let mut s = String::from_str(IP);
    s.append("/v2/");
    s.append(name.as_str());
    s.append("/manifest/");
    s.append(digest.as_str());
    s
}

fn json_error(code: &str, message: &str, detail: &str) -> (r: HttpResponse)
    ensures
        r@ == (ResponseView {
            status: Status::BadRequest,
            headers: seq![json_content_type()],
            body: BodyView::Errors(seq![ErrorView { code: code@, message: message@, detail: detail@ }]),
        }),
{
    let e = one_error(code, message, detail);
    let r = HttpResponse {
        status: Status::BadRequest,
        headers: vec![header("content-type", String::from_str("application/json"))],
        body: ResponseBody::Errors(e),
    };
    assert(r@.headers =~= seq![json_content_type()]);
    r
}

// ---------------------------------------------------------------------------
// Manifests

/// The answer to `GET /v2/<name>/manifests/<digest>`: the bytes of the first
/// manifest stored under the digest, or 404.
pub open spec fn get_manifest_response(s: StateView, digest: Seq<char>) -> ResponseView {
    match first_match(s.registry.manifests, has_digest(digest)) {
        Some(i) => with_bytes(
            Status::Okay,
            seq![("content-type"@, "application/vnd.docker.distribution.manifest.v2+json"@)],
            s.registry.manifests[i].data,
        ),
        None => bare(Status::NotFound, Seq::empty()),
    }
}

/// Answers `GET /v2/<name>/manifests/<digest>`.
pub fn get_manifest(state: &AppState, _name: &String, digest: &String) -> (r: HttpResponse)
    ensures
        r@ == get_manifest_response(state@, digest@),
{
    match state.registry.find_manifest(digest) {
        None => respond_empty(Status::NotFound),
        Some(i) => {
            let data = copy_bytes(&state.registry.manifests[i].data);
            let h = header(
                "content-type",
                String::from_str("application/vnd.docker.distribution.manifest.v2+json"),
            );
            let r = respond(Status::Okay, vec![h], data);
            assert(r@.headers =~= seq![("content-type"@, "application/vnd.docker.distribution.manifest.v2+json"@)]);
            r
        },
    }
}

/// What `PUT /v2/<name>/manifests/<reference>` does once the digest of the
/// body is known: it stores the body under the digest unless a manifest is
/// already stored there, and answers 201 with the digest and its location.
pub open spec fn put_upload_manifest_step(
    s: StateView,
    name: Seq<char>,
    digest: Seq<char>,
    body: Seq<u8>,
) -> (StateView, ResponseView) {
    let manifests = if first_match(s.registry.manifests, has_digest(digest)) is None {
        s.registry.manifests.push(StoredView { digest, data: body })
    } else {
        s.registry.manifests
    };
    (
        StateView { registry: RegistryView { manifests, ..s.registry }, ..s },
        bare(
            Status::Created,
            seq![
                json_content_type(),
                ("Docker-Content-Digest"@, digest),
                ("Location"@, manifest_location(name, digest)),
            ],
        ),
    )
}

/// The rest of `put_upload_manifest` once the digest of the body is known.
pub fn store_manifest(state: &mut AppState, name: &String, digest: String, body: &Vec<u8>) -> (r: HttpResponse)
    ensures
        final(state).wf() == old(state).wf(),
        (final(state)@, r@) == put_upload_manifest_step(old(state)@, name@, digest@, body@),
{
    let ghost before = state@;
    if state.registry.find_manifest(&digest).is_none() {
        state.registry.manifests.push(Manifests { digest: digest.clone(), data: copy_bytes(body) });
        assert(state@.registry.manifests =~= before.registry.manifests.push(
            StoredView { digest: digest@, data: body@ },
        ));
    }
    assert(state@.registry.blobs =~= before.registry.blobs);
    assert(state@.registry.uploads =~= before.registry.uploads);
    assert(state@.registry.images =~= before.registry.images);
    let ct = header("content-type", String::from_str("application/json"));
    let dh = header("Docker-Content-Digest", digest.clone());
    let loc = header("Location", manifest_location_text(name, &digest));
    let r = respond(Status::Created, vec![ct, dh, loc], Vec::new());
    assert(r@.headers =~= seq![ct@, dh@, loc@]);
    r
}

/// Answers `PUT /v2/<name>/manifests/<reference>`: the manifest is kept
/// under `sha256:` and the SHA-256 digest of its bytes.
pub fn put_upload_manifest(state: &mut AppState, name: &String, body: &Vec<u8>) -> (r: HttpResponse)
    ensures
        final(state).wf() == old(state).wf(),
        (final(state)@, r@) == put_upload_manifest_step(
            old(state)@,
            name@,
            content_digest(sha256_hex(body@)),
            body@,
        ),
{
    let sha = sha256_digest(body);
    let digest = content_digest_text(&sha);
    store_manifest(state, name, digest, body)
}

// ---------------------------------------------------------------------------
// Opening an upload session from the route table

/// The answer of `upload_blob` to a request that opened a session.
pub open spec fn upload_opened_response(name: Seq<char>, session_id: Seq<char>) -> ResponseView {
    bare(Status::Accepted, seq![("Location"@, upload_location(name, session_id))])
}

/// The rest of `upload_blob` once the two session ids are drawn.
pub fn upload_blob_with_ids(
    state: &mut AppState,
    name: &String,
    content_length: &Option<Vec<u8>>,
    session_id: String,
    close_session_id: String,
    now: Duration,
) -> (r: HttpResponse)
    ensures
        final(state).wf() == old(state).wf(),
        announces_empty_body(opt_bytes(*content_length)) ==> {
            &&& final(state)@ == with_new_session(old(state)@, session_id@, close_session_id@, now)
            &&& r@ == upload_opened_response(name@, session_id@)
        },
        !announces_empty_body(opt_bytes(*content_length)) ==> {
            &&& final(state)@ == old(state)@
            &&& r@ == bare(Status::InternalServerError, Seq::empty())
        },
{
    if is_zero_length(content_length) {
        open_session(state, &session_id, close_session_id, now);
        respond_with_header(Status::Accepted, header("Location", upload_location_text(name, &session_id)))
    } else {
        respond_empty(Status::InternalServerError)
    }
}

/// Answers `POST /v2/<name>/blobs/uploads/` as the route table serves it: a
/// request whose `content-length` is `0` opens an upload session under two
/// fresh random ids; any other request gets 500.
pub fn upload_blob(
    state: &mut AppState,
    name: &String,
    content_length: &Option<Vec<u8>>,
    now: Duration,
) -> (r: HttpResponse)
    ensures
        final(state).wf() == old(state).wf(),
        announces_empty_body(opt_bytes(*content_length)) ==> {
            let u = final(state)@.registry.uploads.last();
            &&& is_v4_uuid_text(u.session_id)
            &&& is_v4_uuid_text(u.close_session_id)
            &&& final(state)@ == with_new_session(old(state)@, u.session_id, u.close_session_id, now)
            &&& r@ == upload_opened_response(name@, u.session_id)
        },
        !announces_empty_body(opt_bytes(*content_length)) ==> {
            &&& final(state)@ == old(state)@
            &&& r@ == bare(Status::InternalServerError, Seq::empty())
        },
{
    if is_zero_length(content_length) {
        let session_id = new_v4_uuid_text();
        let close_session_id = new_v4_uuid_text();
        upload_blob_with_ids(state, name, content_length, session_id, close_session_id, now)
    } else {
        respond_empty(Status::InternalServerError)
    }
}

// ---------------------------------------------------------------------------
// The digest store and its tickets

/// The answer to an upload whose digest does not match its bytes.
pub open spec fn digest_mismatch_response() -> ResponseView {
    ResponseView {
        status: Status::BadRequest,
        headers: seq![json_content_type()],
        body: BodyView::Errors(
            seq![
                ErrorView {
                    code: "DIGEST_INVALID"@,
                    message: "provided digest did not match uploaded content"@,
                    detail: ""@,
                },
            ],
        ),
    }
}

/// The answer to an upload under a ticket that was never issued.
pub open spec fn missing_ticket_response() -> ResponseView {
    ResponseView {
        status: Status::BadRequest,
        headers: seq![json_content_type()],
        body: BodyView::Errors(
            seq![
                ErrorView {
                    code: "BLOB_UPLOAD_INVALID"@,
                    message: "No reference found for blob"@,
                    detail: ""@,
                },
            ],
        ),
    }
}

/// The state after a ticket is issued under `id` at `now`, and the answer
/// that points the client at it.
pub open spec fn issue_ticket_step(
    s: StateView,
    name: Seq<char>,
    id: Seq<char>,
    now: Duration,
) -> (StateView, ResponseView) {
    (
        StateView { tickets: s.tickets.insert(id, now), ..s },
        bare(Status::Accepted, seq![("Location"@, upload_location(name, id))]),
    )
}

/// Issues a ticket under `id`, received at `now`.
pub fn issue_ticket(state: &mut AppState, name: &String, id: String, now: Duration) -> (r: HttpResponse)
    requires
        old(state).wf(),
    ensures
        final(state).wf(),
        (final(state)@, r@) == issue_ticket_step(old(state)@, name@, id@, now),
{
    let location = header("Location", upload_location_text(name, &id));
    state.tickets.insert(id, now);
    respond_with_header(Status::Accepted, location)
}

/// The uploads that can be served: a digest must come with the bytes.
pub open spec fn stores_with_digest(digest: Option<Seq<char>>) -> bool {
    digest is Some
}

/// What a direct upload of `body` under `digest` does once the SHA-256 hex
/// digest of the body is known: when `sha256:<hex>` equals the digest, the
/// body is kept under it unless something is kept there already, and the
/// answer is 202; otherwise the answer is a digest error.
pub open spec fn store_checked_step(
    s: StateView,
    digest: Option<Seq<char>>,
    sha_hex: Seq<char>,
    body: Seq<u8>,
) -> (StateView, ResponseView) {
    let key = content_digest(sha_hex);
    if key != digest.unwrap() {
        (s, digest_mismatch_response())
    } else if !s.db.dom().contains(key) {
        (StateView { db: s.db.insert(key, body), ..s }, bare(Status::Accepted, Seq::empty()))
    } else {
        (s, bare(Status::Accepted, Seq::empty()))
    }
}

/// Keeps the body under its digest when the digest is right.
pub fn store_checked(
    state: &mut AppState,
    digest: &Option<String>,
    sha_hex: &String,
    body: &Vec<u8>,
) -> (r: HttpResponse)
    requires
        old(state).wf(),
        stores_with_digest(opt_text(*digest)),
    ensures
        final(state).wf(),
        (final(state)@, r@) == store_checked_step(old(state)@, opt_text(*digest), sha_hex@, body@),
{
    let key = content_digest_text(sha_hex);
    let given = match digest {
        Some(d) => d,
        None => {
            return respond_empty(Status::Accepted);
        },
    };
    if !(key == *given) {
        return json_error("DIGEST_INVALID", "provided digest did not match uploaded content", "");
    }
    if !state.db.contains_key(&key) {
        let ghost before = state@;
        state.db.insert(key, copy_bytes(body));
        assert(state@.db =~= before.db.insert(content_digest(sha_hex@), body@));
    }
    respond_empty(Status::Accepted)
}

/// What `PUT` under a ticket does once the SHA-256 hex digest of the body is
/// known: without the ticket the answer is an error; with it, the body is
/// checked against the digest, and when it is kept under a new key the
/// ticket is used up.
pub open spec fn upload_with_ticket_step(
    s: StateView,
    reference: Seq<char>,
    digest: Option<Seq<char>>,
    sha_hex: Seq<char>,
    body: Seq<u8>,
) -> (StateView, ResponseView) {
    if !s.tickets.dom().contains(reference) {
        (s, missing_ticket_response())
    } else {
        let key = content_digest(sha_hex);
        let (t, r) = store_checked_step(s, digest, sha_hex, body);
        if key == digest.unwrap() && !s.db.dom().contains(key) {
            (StateView { tickets: t.tickets.remove(reference), ..t }, r)
        } else {
            (t, r)
        }
    }
}

/// The uploads under a ticket that can be served: once the ticket is known,
/// a digest must come with the bytes.
pub open spec fn upload_with_ticket_accepts(
    s: StateView,
    reference: Seq<char>,
    digest: Option<Seq<char>>,
) -> bool {
    s.tickets.dom().contains(reference) ==> digest is Some
}

/// The rest of `upload_blob_with_reference` once the SHA-256 hex digest of
/// the body is known.
pub fn upload_with_ticket(
    state: &mut AppState,
    reference: &String,
    digest: &Option<String>,
    sha_hex: &String,
    body: &Vec<u8>,
) -> (r: HttpResponse)
    requires
        old(state).wf(),
        upload_with_ticket_accepts(old(state)@, reference@, opt_text(*digest)),
    ensures
        final(state).wf(),
        (final(state)@, r@) == upload_with_ticket_step(
            old(state)@,
            reference@,
            opt_text(*digest),
            sha_hex@,
            body@,
        ),
{
    if !state.tickets.contains_key(reference) {
        return json_error("BLOB_UPLOAD_INVALID", "No reference found for blob", "");
    }
    let key = content_digest_text(sha_hex);
    let fresh = match digest {
        Some(d) => key == *d && !state.db.contains_key(&key),
        None => false,
    };
    let r = store_checked(state, digest, sha_hex, body);
    if fresh {
        let _ = state.tickets.remove(reference);
    }
    r
}

/// Answers `PUT /v2/<name>/blobs/uploads/<reference>` for an upload under a
/// ticket: the bytes are kept under `sha256:` and their SHA-256 digest when
/// that is the digest the client gave.
pub fn upload_blob_with_reference(
    state: &mut AppState,
    _name: &String,
    reference: &String,
    digest: &Option<String>,
    body: &Vec<u8>,
) -> (r: HttpResponse)
    requires
        old(state).wf(),
        upload_with_ticket_accepts(old(state)@, reference@, opt_text(*digest)),
    ensures
        final(state).wf(),
        (final(state)@, r@) == upload_with_ticket_step(
            old(state)@,
            reference@,
            opt_text(*digest),
            sha256_hex(body@),
            body@,
        ),
{
    if !state.tickets.contains_key(reference) {
        return json_error("BLOB_UPLOAD_INVALID", "No reference found for blob", "");
    }
    let sha = sha256_digest(body);
    upload_with_ticket(state, reference, digest, &sha, body)
}

/// Answers `PATCH /v2/<name>/blobs/uploads/<reference>` in the ticket scheme:
/// issues a ticket under a fresh random id, received at `now`.
pub fn patch_upload_blob_with_reference(
    state: &mut AppState,
    name: &String,
    _reference: &String,
    now: Duration,
) -> (r: HttpResponse)
    requires
        old(state).wf(),
    ensures
        final(state).wf(),
        exists|id: Seq<char>|
            is_v4_uuid_text(id) && (final(state)@, r@) == #[trigger] issue_ticket_step(
                old(state)@,
                name@,
                id,
                now,
            ),
{
    let id = new_v4_uuid_text();
    let ghost g = id@;
    let r = issue_ticket(state, name, id, now);
    assert(is_v4_uuid_text(g) && (state@, r@) == issue_ticket_step(old(state)@, name@, g, now));
    r
}

/// The uploads that `upload_blob_old` serves: bytes must come with a digest.
pub open spec fn upload_blob_old_accepts(digest: Option<Seq<char>>, body: Seq<u8>) -> bool {
    body.len() > 0 ==> digest is Some
}

/// Answers `POST /v2/<name>/blobs/uploads/` in the ticket scheme: an empty
/// body asks for a ticket under a fresh random id; bytes are kept under their
/// digest when it is the one the client gave.
pub fn upload_blob_old(
    state: &mut AppState,
    name: &String,
    digest: &Option<String>,
    body: &Vec<u8>,
    now: Duration,
) -> (r: HttpResponse)
    requires
        old(state).wf(),
        upload_blob_old_accepts(opt_text(*digest), body@),
    ensures
        final(state).wf(),
        body@.len() == 0 ==> exists|id: Seq<char>|
            is_v4_uuid_text(id) && (final(state)@, r@) == #[trigger] issue_ticket_step(
                old(state)@,
                name@,
                id,
                now,
            ),
        body@.len() > 0 ==> (final(state)@, r@) == store_checked_step(
            old(state)@,
            opt_text(*digest),
            sha256_hex(body@),
            body@,
        ),
{
    if body.len() == 0 {
        let id = new_v4_uuid_text();
        let ghost g = id@;
        let r = issue_ticket(state, name, id, now);
        assert(is_v4_uuid_text(g) && (state@, r@) == issue_ticket_step(old(state)@, name@, g, now));
        return r;
    }
    let sha = sha256_digest(body);
    store_checked(state, digest, &sha, body)
}

/// The answer to `HEAD /v2/<name>/blobs/<digest>` in the ticket scheme: the
/// bytes kept under the digest when the repository is `registry`, else 404.
pub open spec fn blob_exists_old_response(s: StateView, name: Seq<char>, digest: Seq<char>) -> ResponseView {
    if name == "registry"@ && s.db.dom().contains(digest) {
        with_bytes(Status::Okay, seq![("content-type"@, "application/octet-stream"@)], s.db[digest])
    } else {
        bare(Status::NotFound, Seq::empty())
    }
}

/// Answers `HEAD /v2/<name>/blobs/<digest>` in the ticket scheme.
pub fn blob_exists_old(state: &AppState, name: &String, digest: &String) -> (r: HttpResponse)
    requires
        state.wf(),
    ensures
        r@ == blob_exists_old_response(state@, name@, digest@),
{
    let registry = String::from_str("registry");
    if *name == registry {
        match state.db.get(digest) {
            Some(data) => {
                let h = header("content-type", String::from_str("application/octet-stream"));
                let r = respond(Status::Okay, vec![h], copy_bytes(data));
                assert(r@.headers =~= seq![("content-type"@, "application/octet-stream"@)]);
                return r;
            },
            None => {},
        }
    }
    respond_empty(Status::NotFound)
}

// ---------------------------------------------------------------------------
// Fixed answers

/// Answers `HEAD /v2/<name>/manifests/<reference>`: only `registry:latest`
/// is known.
pub fn manifest_exists(name: &String, reference: &String) -> (r: Result<Status, Status>)
    ensures
        r == (if name@ == "registry"@ && reference@ == "latest"@ {
            Ok::<Status, Status>(Status::Okay)
        } else {
            Err::<Status, Status>(Status::NotFound)
        }),
{
    if *name == String::from_str("registry") && *reference == String::from_str("latest") {
        Ok(Status::Okay)
    } else {
        Err(Status::NotFound)
    }
}

/// The answer to `GET /v2/`.
pub open spec fn with_status_ok_response() -> ResponseView {
    with_bytes(
        Status::Okay,
        seq![
            ("Docker-Distribution-API-Version"@, "application/json; charset=utf-8"@),
            ("Content-Type"@, "registry/2.0"@),
        ],
        seq![123u8, 125u8],
    )
}

/// Answers `GET /v2/`: the API version check, with the body `{}`.
pub fn with_status_ok() -> (r: HttpResponse)
    ensures
        r@ == with_status_ok_response(),
{
    let a = header("Docker-Distribution-API-Version", String::from_str("application/json; charset=utf-8"));
    let b = header("Content-Type", String::from_str("registry/2.0"));
    let r = respond(Status::Okay, vec![a, b], vec![123u8, 125u8]);
    assert(r@.headers =~= seq![a@, b@]);
    assert(r@.body == BodyView::Bytes(seq![123u8, 125u8]));
    r
}

/// Answers the endpoints that are not served: 404 with the JSON object
/// `{"status": "success"}`.
pub fn with_status() -> (r: HttpResponse)
    ensures
        r@ == (ResponseView {
            status: Status::NotFound,
            headers: Seq::empty(),
            body: BodyView::StatusJson("success"@),
        }),
{
    let r = HttpResponse {
        status: Status::NotFound,
        headers: Vec::new(),
        body: ResponseBody::StatusJson(String::from_str("success")),
    };
    assert(r@.headers =~= Seq::<(Seq<char>, Seq<char>)>::empty());
    r
}

/// The request body of user creation.
pub struct CreateUser {
    pub username: String,
}

/// A created user.
pub struct User {
    pub id: u64,
    pub username: String,
}

/// Creates a user: the id is always 1337 and the answer is 201.
pub fn create_user(payload: CreateUser) -> (r: (Status, User))
    ensures
        r.0 == Status::Created,
        r.1.id == 1337,
        r.1.username@ == payload.username@,
{
    (Status::Created, User { id: 1337, username: payload.username })
}

/// A query value that is missing or empty counts as absent.
pub open spec fn empty_as_none(o: Option<Seq<char>>) -> Option<Seq<char>> {
    match o {
        Some(s) => if s.len() == 0 {
            None
        } else {
            Some(s)
        },
        None => None,
    }
}

/// Reads the `digest` query value: an empty value counts as absent.
pub fn empty_string_as_none(raw: Option<String>) -> (r: Option<String>)
    ensures
        opt_text(r) == empty_as_none(opt_text(raw)),
{
    match raw {
        None => None,
        Some(s) => {
            if s == String::new() {
                None
            } else {
                assert(s@.len() != 0) by {
                    if s@.len() == 0 {
                        assert(s@ =~= Seq::<char>::empty());
                    }
                }
                Some(s)
            }
        },
    }
}

} // verus!
