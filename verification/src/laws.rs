//! What holds of the registry across its handlers.
use vstd::prelude::*;
use core::time::Duration;
use crate::blob::{
    blob_exists_response, get_blob_response, patch_upload_blob_step, put_upload_blob_step,
    with_new_session,
};
use crate::handlers::{
    blob_exists_old_response, content_digest, empty_as_none, get_manifest_response,
    issue_ticket_step, missing_ticket_response, put_upload_manifest_step, store_checked_step,
    upload_with_ticket_step,
};
use crate::http::{bare, with_bytes, Status};
use crate::registry::{manifest_digest_is, ManifestView};
use crate::search::{
    first_match, is_first_match, lemma_first_match, lemma_first_match_is, lemma_first_match_push,
    lemma_first_match_same,
};
use crate::state::{has_digest, named_by, opened_as, RegistryView, StateView, StoredView, UploadView};
use crate::text::{decimal, digit_char, parse_i32};
use crate::trusted::sha256_hex;

verus! {

/// `HEAD` on a blob answers 200 exactly when `GET` on it does, and never
/// sends a body.
pub proof fn law_blob_exists_agrees_with_get_blob(s: StateView, digest: Seq<char>)
    ensures
        blob_exists_response(s, digest).status == get_blob_response(s, digest).status,
        blob_exists_response(s, digest) == bare(blob_exists_response(s, digest).status, Seq::empty()),
{
}

/// A chunked upload stores what it received: open a session under fresh ids,
/// send a chunk with a positive length under the opening id, close it under
/// the closing id with a positive length, a digest that no blob has yet and
/// a last chunk; then reading the blob gives both chunks in order.
pub proof fn law_chunked_upload_round_trip(
    s: StateView,
    name: Seq<char>,
    session_id: Seq<char>,
    close_session_id: Seq<char>,
    now: Duration,
    patch_length: Seq<u8>,
    chunk: Seq<u8>,
    put_length: Seq<u8>,
    digest: Seq<char>,
    last: Seq<u8>,
)
    requires
        first_match(s.registry.uploads, opened_as(session_id)) is None,
        first_match(s.registry.uploads, named_by(close_session_id)) is None,
        first_match(s.registry.blobs, has_digest(digest)) is None,
        parse_i32(patch_length) matches Some(n) && n > 0,
        parse_i32(put_length) matches Some(n) && n > 0,
    ensures
        ({
            let s1 = with_new_session(s, session_id, close_session_id, now);
            let (s2, r2) = patch_upload_blob_step(s1, name, session_id, Some(patch_length), chunk);
            let (s3, r3) = put_upload_blob_step(s2, name, close_session_id, Some(put_length), Some(digest), last);
            &&& r2.status == Status::Accepted
            &&& r3.status == Status::Created
            &&& get_blob_response(s3, digest) == with_bytes(
                Status::Okay,
                seq![("content-type"@, "application/octet-stream"@)],
                chunk + last,
            )
        }),
{
    let s1 = with_new_session(s, session_id, close_session_id, now);
    let n = s.registry.uploads.len() as int;
    let u = s1.registry.uploads[n];
    lemma_first_match_push(s.registry.uploads, opened_as(session_id), u);
    let (s2, r2) = patch_upload_blob_step(s1, name, session_id, Some(patch_length), chunk);
    assert(s2.registry.uploads[n].data == chunk);
    lemma_first_match_push(s.registry.uploads, named_by(close_session_id), u);
    lemma_first_match_same(s1.registry.uploads, s2.registry.uploads, named_by(close_session_id));
    let (s3, r3) = put_upload_blob_step(s2, name, close_session_id, Some(put_length), Some(digest), last);
    let b = StoredView { digest, data: chunk + last };
    assert(s3.registry.blobs == s.registry.blobs.push(b));
    lemma_first_match_push(s.registry.blobs, has_digest(digest), b);
}

/// A manifest that was put can be read back under its digest; when no
/// manifest was kept under that digest before, the read gives the bytes that
/// were put. Putting the same manifest again changes nothing.
pub proof fn law_manifest_round_trip(s: StateView, name: Seq<char>, digest: Seq<char>, body: Seq<u8>)
    ensures
        ({
            let (s1, r1) = put_upload_manifest_step(s, name, digest, body);
            &&& r1.status == Status::Created
            &&& get_manifest_response(s1, digest).status == Status::Okay
            &&& first_match(s.registry.manifests, has_digest(digest)) is None ==> get_manifest_response(
                s1,
                digest,
            ) == with_bytes(
                Status::Okay,
                seq![("content-type"@, "application/vnd.docker.distribution.manifest.v2+json"@)],
                body,
            )
            &&& put_upload_manifest_step(s1, name, digest, body).0 == s1
        }),
{
    let m = StoredView { digest, data: body };
    lemma_first_match_push(s.registry.manifests, has_digest(digest), m);
    let (s1, r1) = put_upload_manifest_step(s, name, digest, body);
    lemma_first_match(s.registry.manifests, has_digest(digest));
    assert(s1.registry == s.registry || first_match(s.registry.manifests, has_digest(digest)) is None);
}

/// A ticket admits one upload: after a ticket is issued, an upload under it
/// with the right digest for new content is accepted, keeps the bytes, and
/// uses the ticket up, so that a second upload under it is refused and
/// changes nothing. The kept bytes can be read back.
pub proof fn law_ticket_admits_one_upload(
    s: StateView,
    name: Seq<char>,
    id: Seq<char>,
    now: Duration,
    sha_hex: Seq<char>,
    body: Seq<u8>,
)
    requires
        !s.db.dom().contains(content_digest(sha_hex)),
    ensures
        ({
            let key = content_digest(sha_hex);
            let (s1, r1) = issue_ticket_step(s, name, id, now);
            let (s2, r2) = upload_with_ticket_step(s1, id, Some(key), sha_hex, body);
            let (s3, r3) = upload_with_ticket_step(s2, id, Some(key), sha_hex, body);
            &&& r1.status == Status::Accepted
            &&& r2 == bare(Status::Accepted, Seq::empty())
            &&& s2.db == s.db.insert(key, body)
            &&& !s2.tickets.dom().contains(id)
            &&& r3 == missing_ticket_response()
            &&& s3 == s2
            &&& blob_exists_old_response(s2, "registry"@, key) == with_bytes(
                Status::Okay,
                seq![("content-type"@, "application/octet-stream"@)],
                body,
            )
        }),
{
}

/// The digest store keeps each key's first bytes: an upload whose digest
/// does not match its bytes changes nothing, and an upload under a key that
/// is already kept changes nothing either.
pub proof fn law_store_keeps_first_write(
    s: StateView,
    digest: Seq<char>,
    sha_hex: Seq<char>,
    body: Seq<u8>,
)
    requires
        digest != content_digest(sha_hex) || s.db.dom().contains(digest),
    ensures
        store_checked_step(s, Some(digest), sha_hex, body).0 == s,
{
}

/// Everything the digest store keeps is filed under `sha256:` and the
/// SHA-256 digest of its bytes.
pub open spec fn db_content_addressed(s: StateView) -> bool {
    forall|k: Seq<char>| #[trigger] s.db.dom().contains(k) ==> k == content_digest(sha256_hex(s.db[k]))
}

/// Every manifest is filed under `sha256:` and the SHA-256 digest of its
/// bytes.
pub open spec fn manifests_content_addressed(s: StateView) -> bool {
    forall|i: int|
        0 <= i < s.registry.manifests.len() ==> (#[trigger] s.registry.manifests[i]).digest == content_digest(
            sha256_hex(s.registry.manifests[i].data),
        )
}

/// The uploads that hash their bytes keep the digest store content
/// addressed.
pub proof fn law_uploads_keep_db_content_addressed(
    s: StateView,
    reference: Seq<char>,
    digest: Option<Seq<char>>,
    body: Seq<u8>,
)
    requires
        db_content_addressed(s),
        digest is Some,
    ensures
        db_content_addressed(store_checked_step(s, digest, sha256_hex(body), body).0),
        db_content_addressed(upload_with_ticket_step(s, reference, digest, sha256_hex(body), body).0),
{
}

/// Putting manifests keeps them content addressed.
pub proof fn law_put_manifest_keeps_content_addressed(s: StateView, name: Seq<char>, body: Seq<u8>)
    requires
        manifests_content_addressed(s),
    ensures
        manifests_content_addressed(
            put_upload_manifest_step(s, name, content_digest(sha256_hex(body)), body).0,
        ),
{
    let d = content_digest(sha256_hex(body));
    let s1 = put_upload_manifest_step(s, name, d, body).0;
    assert forall|i: int| 0 <= i < s1.registry.manifests.len() implies (#[trigger] s1.registry.manifests[i]).digest
        == content_digest(sha256_hex(s1.registry.manifests[i].data)) by {
        if i < s.registry.manifests.len() {
            assert(s1.registry.manifests[i] == s.registry.manifests[i]);
        }
    }
}

/// No two blobs share a digest.
pub open spec fn distinct_digests(blobs: Seq<StoredView>) -> bool {
    forall|i: int, j: int|
        0 <= i < j < blobs.len() ==> (#[trigger] blobs[i]).digest != (#[trigger] blobs[j]).digest
}

/// Adding blobs as `add_blob` does keeps digests distinct, makes the added
/// blob the one found under its digest, and refuses a second blob under the
/// same digest.
pub proof fn law_add_blob(blobs: Seq<StoredView>, b: StoredView)
    requires
        distinct_digests(blobs),
    ensures
        first_match(blobs, has_digest(b.digest)) is None ==> {
            let after = blobs.push(b);
            &&& distinct_digests(after)
            &&& first_match(after, has_digest(b.digest)) == Some(blobs.len() as int)
            &&& after[blobs.len() as int] == b
            &&& first_match(after, has_digest(b.digest)) is Some
        },
{
    lemma_first_match(blobs, has_digest(b.digest));
    lemma_first_match_push(blobs, has_digest(b.digest), b);
    if first_match(blobs, has_digest(b.digest)) is None {
        let after = blobs.push(b);
        assert forall|i: int, j: int| 0 <= i < j < after.len() implies (#[trigger] after[i]).digest
            != (#[trigger] after[j]).digest by {
            if j == blobs.len() {
                assert(!has_digest(b.digest)(blobs[i]));
            } else {
                assert(after[i] == blobs[i] && after[j] == blobs[j]);
            }
        }
    }
}

/// A manifest found by digest is one whose digest is that digest.
pub proof fn law_manifest_found_by_digest(ms: Seq<ManifestView>, digest: Seq<char>)
    ensures
        first_match(ms, manifest_digest_is(digest)) matches Some(i) ==> ms[i].digest == Some(digest),
{
    lemma_first_match(ms, manifest_digest_is(digest));
}

/// The `digest` query value is never present and empty.
pub proof fn law_digest_query_never_empty(raw: Option<Seq<char>>)
    ensures
        empty_as_none(raw) matches Some(d) ==> d.len() > 0,
        raw matches Some(d) && d.len() > 0 ==> empty_as_none(raw) == raw,
{
}

// ---------------------------------------------------------------------------
// Reading blobs and manifests

/// The state with one more blob stored after the others.
pub open spec fn with_blob_added(s: StateView, b: StoredView) -> StateView {
    StateView { registry: RegistryView { blobs: s.registry.blobs.push(b), ..s.registry }, ..s }
}

/// The state with one more manifest stored after the others.
pub open spec fn with_manifest_added(s: StateView, m: StoredView) -> StateView {
    StateView { registry: RegistryView { manifests: s.registry.manifests.push(m), ..s.registry }, ..s }
}

/// `GET` on a blob gives the bytes of the earliest blob stored under the
/// digest, whatever is stored before it under other digests and whatever is
/// stored after it; with no blob under the digest the answer is 404.
pub proof fn law_get_blob_reads_earliest(
    s: StateView,
    digest: Seq<char>,
    before: Seq<StoredView>,
    b: StoredView,
    after: Seq<StoredView>,
)
    ensures
        (s.registry.blobs == before + seq![b] + after && b.digest == digest && (forall|k: int|
            0 <= k < before.len() ==> (#[trigger] before[k]).digest != digest)) ==> get_blob_response(s, digest)
            == with_bytes(Status::Okay, seq![("content-type"@, "application/octet-stream"@)], b.data),
        (forall|k: int| 0 <= k < s.registry.blobs.len() ==> (#[trigger] s.registry.blobs[k]).digest != digest)
            ==> get_blob_response(s, digest) == bare(Status::NotFound, Seq::empty()),
{
    let bs = s.registry.blobs;
    let p = has_digest(digest);
    if bs == before + seq![b] + after && b.digest == digest && (forall|k: int|
        0 <= k < before.len() ==> (#[trigger] before[k]).digest != digest) {
        assert(bs[before.len() as int] == b);
        assert forall|j: int| 0 <= j < before.len() implies !p(#[trigger] bs[j]) by {
            assert(bs[j] == before[j]);
        }
        lemma_first_match_is(bs, p, before.len() as int);
    }
    lemma_first_match(bs, p);
}

/// Storing a blob under one digest leaves the answer of `GET` on every other
/// digest as it was; storing it under a digest that had no blob makes `GET`
/// on that digest give its bytes.
pub proof fn law_get_blob_unaffected_by_other_blobs(s: StateView, digest: Seq<char>, b: StoredView)
    ensures
        b.digest != digest ==> get_blob_response(with_blob_added(s, b), digest) == get_blob_response(s, digest),
        b.digest == digest && first_match(s.registry.blobs, has_digest(digest)) is None ==> get_blob_response(
            with_blob_added(s, b),
            digest,
        ) == with_bytes(Status::Okay, seq![("content-type"@, "application/octet-stream"@)], b.data),
{
    lemma_first_match_push(s.registry.blobs, has_digest(digest), b);
    lemma_first_match(s.registry.blobs, has_digest(digest));
    let t = with_blob_added(s, b);
    if let Some(i) = first_match(s.registry.blobs, has_digest(digest)) {
        assert(t.registry.blobs[i] == s.registry.blobs[i]);
    }
}

/// Closing an upload session under one digest leaves the answer of `GET` on
/// every other digest as it was.
pub proof fn law_put_upload_blob_leaves_other_digests(
    s: StateView,
    name: Seq<char>,
    reference: Seq<char>,
    content_length: Option<Seq<u8>>,
    stored: Seq<char>,
    body: Seq<u8>,
    digest: Seq<char>,
)
    requires
        stored != digest,
    ensures
        get_blob_response(
            put_upload_blob_step(s, name, reference, content_length, Some(stored), body).0,
            digest,
        ) == get_blob_response(s, digest),
{
    let t = put_upload_blob_step(s, name, reference, content_length, Some(stored), body).0;
    if first_match(s.registry.uploads, named_by(reference)) is Some && content_length is Some {
        let n = s.registry.blobs.len();
        assert(t.registry.blobs.drop_last() =~= s.registry.blobs);
        assert(t.registry.blobs == s.registry.blobs.push(t.registry.blobs[n as int]));
        lemma_first_match_push(s.registry.blobs, has_digest(digest), t.registry.blobs[n as int]);
        lemma_first_match(s.registry.blobs, has_digest(digest));
        if let Some(i) = first_match(s.registry.blobs, has_digest(digest)) {
            assert(t.registry.blobs[i] == s.registry.blobs[i]);
        }
    }
}

/// `GET` on a manifest gives the bytes of the earliest manifest stored under
/// the digest, whatever is stored before it under other digests and after
/// it; with no manifest under the digest the answer is 404.
pub proof fn law_get_manifest_reads_earliest(
    s: StateView,
    digest: Seq<char>,
    before: Seq<StoredView>,
    m: StoredView,
    after: Seq<StoredView>,
)
    ensures
        (s.registry.manifests == before + seq![m] + after && m.digest == digest && (forall|k: int|
            0 <= k < before.len() ==> (#[trigger] before[k]).digest != digest)) ==> get_manifest_response(
            s,
            digest,
        ) == with_bytes(
            Status::Okay,
            seq![("content-type"@, "application/vnd.docker.distribution.manifest.v2+json"@)],
            m.data,
        ),
        (forall|k: int|
            0 <= k < s.registry.manifests.len() ==> (#[trigger] s.registry.manifests[k]).digest != digest)
            ==> get_manifest_response(s, digest) == bare(Status::NotFound, Seq::empty()),
{
    let ms = s.registry.manifests;
    let p = has_digest(digest);
    if ms == before + seq![m] + after && m.digest == digest && (forall|k: int|
        0 <= k < before.len() ==> (#[trigger] before[k]).digest != digest) {
        assert(ms[before.len() as int] == m);
        assert forall|j: int| 0 <= j < before.len() implies !p(#[trigger] ms[j]) by {
            assert(ms[j] == before[j]);
        }
        lemma_first_match_is(ms, p, before.len() as int);
    }
    lemma_first_match(ms, p);
}

/// Storing a manifest under one digest leaves the answer of `GET` on every
/// other manifest digest as it was.
pub proof fn law_get_manifest_unaffected_by_other_manifests(s: StateView, digest: Seq<char>, m: StoredView)
    requires
        m.digest != digest,
    ensures
        get_manifest_response(with_manifest_added(s, m), digest) == get_manifest_response(s, digest),
{
    lemma_first_match_push(s.registry.manifests, has_digest(digest), m);
    lemma_first_match(s.registry.manifests, has_digest(digest));
    let t = with_manifest_added(s, m);
    if let Some(i) = first_match(s.registry.manifests, has_digest(digest)) {
        assert(t.registry.manifests[i] == s.registry.manifests[i]);
    }
}

/// Putting a manifest under one digest leaves the answer of `GET` on every
/// other manifest digest as it was.
pub proof fn law_put_manifest_leaves_other_digests(
    s: StateView,
    name: Seq<char>,
    stored: Seq<char>,
    body: Seq<u8>,
    digest: Seq<char>,
)
    requires
        stored != digest,
    ensures
        get_manifest_response(put_upload_manifest_step(s, name, stored, body).0, digest)
            == get_manifest_response(s, digest),
{
    let t = put_upload_manifest_step(s, name, stored, body).0;
    if first_match(s.registry.manifests, has_digest(stored)) is None {
        let m = StoredView { digest: stored, data: body };
        assert(t == with_manifest_added(s, m));
        law_get_manifest_unaffected_by_other_manifests(s, digest, m);
    } else {
        assert(t.registry =~~= s.registry);
    }
}

// ---------------------------------------------------------------------------
// Upload sessions

/// A chunk sent with a positive length is added after all the bytes the
/// session already holds, whatever they are; a chunk sent with another
/// length leaves them. The other sessions, their ids and the blobs stay as
/// they were.
pub proof fn law_patch_appends_chunk(
    s: StateView,
    name: Seq<char>,
    reference: Seq<char>,
    raw: Seq<u8>,
    body: Seq<u8>,
    i: int,
)
    requires
        is_first_match(s.registry.uploads, opened_as(reference), i),
        parse_i32(raw) is Some,
    ensures
        ({
            let (t, r) = patch_upload_blob_step(s, name, reference, Some(raw), body);
            &&& r.status == Status::Accepted
            &&& t.registry.uploads.len() == s.registry.uploads.len()
            &&& t.registry.uploads[i].data == if parse_i32(raw).unwrap() > 0 {
                s.registry.uploads[i].data + body
            } else {
                s.registry.uploads[i].data
            }
            &&& t.registry.uploads[i].session_id == s.registry.uploads[i].session_id
            &&& t.registry.uploads[i].close_session_id == s.registry.uploads[i].close_session_id
            &&& forall|j: int| 0 <= j < s.registry.uploads.len() && j != i ==> #[trigger] t.registry.uploads[j]
                == s.registry.uploads[j]
            &&& t.registry.blobs == s.registry.blobs
            &&& t.db == s.db
            &&& t.tickets == s.tickets
        }),
{
    lemma_first_match_is(s.registry.uploads, opened_as(reference), i);
}

/// Closing a session stores, under the digest, all the bytes the session
/// received so far, followed by the last body when its declared length is
/// positive; when no blob had that digest, `GET` on it gives exactly those
/// bytes.
pub proof fn law_put_stores_session_bytes(
    s: StateView,
    name: Seq<char>,
    reference: Seq<char>,
    raw: Seq<u8>,
    digest: Seq<char>,
    body: Seq<u8>,
    i: int,
)
    requires
        is_first_match(s.registry.uploads, named_by(reference), i),
        parse_i32(raw) is Some,
        first_match(s.registry.blobs, has_digest(digest)) is None,
    ensures
        ({
            let bytes = if parse_i32(raw).unwrap() > 0 {
                s.registry.uploads[i].data + body
            } else {
                s.registry.uploads[i].data
            };
            let (t, r) = put_upload_blob_step(s, name, reference, Some(raw), Some(digest), body);
            &&& r.status == Status::Created
            &&& get_blob_response(t, digest) == with_bytes(
                Status::Okay,
                seq![("content-type"@, "application/octet-stream"@)],
                bytes,
            )
        }),
{
    lemma_first_match_is(s.registry.uploads, named_by(reference), i);
    let (t, r) = put_upload_blob_step(s, name, reference, Some(raw), Some(digest), body);
    let n = s.registry.blobs.len();
    assert(t.registry.blobs.drop_last() =~= s.registry.blobs);
    assert(t.registry.blobs == s.registry.blobs.push(t.registry.blobs[n as int]));
    lemma_first_match_push(s.registry.blobs, has_digest(digest), t.registry.blobs[n as int]);
}

/// The usual push: open a session under fresh ids, send two chunks with
/// positive lengths under the opening id, and close it under the closing id
/// with a digest that no blob has yet. `GET` on the digest then gives both
/// chunks in order, followed by the last body when its declared length is
/// positive.
pub proof fn law_two_chunks_round_trip(
    s: StateView,
    name: Seq<char>,
    session_id: Seq<char>,
    close_session_id: Seq<char>,
    now: Duration,
    length1: Seq<u8>,
    chunk1: Seq<u8>,
    length2: Seq<u8>,
    chunk2: Seq<u8>,
    put_length: Seq<u8>,
    digest: Seq<char>,
    last: Seq<u8>,
)
    requires
        first_match(s.registry.uploads, opened_as(session_id)) is None,
        first_match(s.registry.uploads, named_by(close_session_id)) is None,
        first_match(s.registry.blobs, has_digest(digest)) is None,
        parse_i32(length1) matches Some(n) && n > 0,
        parse_i32(length2) matches Some(n) && n > 0,
        parse_i32(put_length) is Some,
    ensures
        ({
            let s1 = with_new_session(s, session_id, close_session_id, now);
            let s2 = patch_upload_blob_step(s1, name, session_id, Some(length1), chunk1).0;
            let s3 = patch_upload_blob_step(s2, name, session_id, Some(length2), chunk2).0;
            let (s4, r4) = put_upload_blob_step(s3, name, close_session_id, Some(put_length), Some(digest), last);
            &&& r4.status == Status::Created
            &&& get_blob_response(s4, digest) == with_bytes(
                Status::Okay,
                seq![("content-type"@, "application/octet-stream"@)],
                if parse_i32(put_length).unwrap() > 0 {
                    chunk1 + chunk2 + last
                } else {
                    chunk1 + chunk2
                },
            )
        }),
{
    let s1 = with_new_session(s, session_id, close_session_id, now);
    let n = s.registry.uploads.len() as int;
    let u = s1.registry.uploads[n];
    lemma_first_match_push(s.registry.uploads, opened_as(session_id), u);
    lemma_first_match_push(s.registry.uploads, named_by(close_session_id), u);
    lemma_first_match(s1.registry.uploads, opened_as(session_id));
    law_patch_appends_chunk(s1, name, session_id, length1, chunk1, n);
    let s2 = patch_upload_blob_step(s1, name, session_id, Some(length1), chunk1).0;
    assert(s2.registry.uploads[n].data =~= chunk1);
    lemma_first_match_same(s1.registry.uploads, s2.registry.uploads, opened_as(session_id));
    lemma_first_match_same(s1.registry.uploads, s2.registry.uploads, named_by(close_session_id));
    lemma_first_match(s2.registry.uploads, opened_as(session_id));
    law_patch_appends_chunk(s2, name, session_id, length2, chunk2, n);
    let s3 = patch_upload_blob_step(s2, name, session_id, Some(length2), chunk2).0;
    lemma_first_match_same(s2.registry.uploads, s3.registry.uploads, named_by(close_session_id));
    lemma_first_match(s3.registry.uploads, named_by(close_session_id));
    law_put_stores_session_bytes(s3, name, close_session_id, put_length, digest, last, n);
}

// ---------------------------------------------------------------------------
// Tickets

/// Issuing a ticket adds only that ticket: every ticket known before stays
/// known with its time, the new one is known with the time it was issued,
/// and the digest store and the registry stay as they were.
pub proof fn law_issue_ticket_keeps_other_tickets(s: StateView, name: Seq<char>, id: Seq<char>, now: Duration)
    ensures
        ({
            let (t, r) = issue_ticket_step(s, name, id, now);
            &&& r.status == Status::Accepted
            &&& t.tickets.dom().contains(id) && t.tickets[id] == now
            &&& forall|k: Seq<char>| k != id ==> (#[trigger] t.tickets.dom().contains(k) <==> s.tickets.dom().contains(k))
            &&& forall|k: Seq<char>| k != id && #[trigger] s.tickets.dom().contains(k) ==> t.tickets[k] == s.tickets[k]
            &&& t.db == s.db
            &&& t.registry == s.registry
        }),
{
}

/// A ticket stays usable while others are issued: issue a ticket, then a
/// second one, then upload new content under the first with its right
/// digest; the upload is accepted and the bytes are kept.
pub proof fn law_earlier_ticket_survives_later_ones(
    s: StateView,
    name: Seq<char>,
    first: Seq<char>,
    second: Seq<char>,
    now1: Duration,
    now2: Duration,
    sha_hex: Seq<char>,
    body: Seq<u8>,
)
    requires
        !s.db.dom().contains(content_digest(sha_hex)),
    ensures
        ({
            let key = content_digest(sha_hex);
            let s1 = issue_ticket_step(s, name, first, now1).0;
            let s2 = issue_ticket_step(s1, name, second, now2).0;
            let (s3, r3) = upload_with_ticket_step(s2, first, Some(key), sha_hex, body);
            &&& r3 == bare(Status::Accepted, Seq::empty())
            &&& s3.db.dom().contains(key) && s3.db[key] == body
        }),
{
    law_issue_ticket_keeps_other_tickets(s, name, first, now1);
    let s1 = issue_ticket_step(s, name, first, now1).0;
    law_issue_ticket_keeps_other_tickets(s1, name, second, now2);
    let s2 = issue_ticket_step(s1, name, second, now2).0;
    assert(s2.tickets.dom().contains(first));
}

// ---------------------------------------------------------------------------
// Requests that find nothing

/// A chunk or a close for a session that no id names, or one sent without a
/// `content-length`, changes nothing and is answered 400.
pub proof fn law_unmatched_session_requests_change_nothing(
    s: StateView,
    name: Seq<char>,
    reference: Seq<char>,
    content_length: Option<Seq<u8>>,
    digest: Option<Seq<char>>,
    body: Seq<u8>,
)
    ensures
        (first_match(s.registry.uploads, opened_as(reference)) is None || content_length is None) ==> {
            let (t, r) = patch_upload_blob_step(s, name, reference, content_length, body);
            &&& t == s
            &&& r.status == Status::BadRequest
        },
        (first_match(s.registry.uploads, named_by(reference)) is None || content_length is None) ==> {
            let (t, r) = put_upload_blob_step(s, name, reference, content_length, digest, body);
            &&& t == s
            &&& r.status == Status::BadRequest
        },
{
}

/// Keeping bytes under one key of the digest store leaves what `HEAD` in the
/// ticket scheme answers for every other key.
pub proof fn law_store_leaves_other_keys(
    s: StateView,
    name: Seq<char>,
    digest: Option<Seq<char>>,
    sha_hex: Seq<char>,
    body: Seq<u8>,
    other: Seq<char>,
)
    requires
        other != content_digest(sha_hex),
    ensures
        blob_exists_old_response(store_checked_step(s, digest, sha_hex, body).0, name, other)
            == blob_exists_old_response(s, name, other),
{
    let t = store_checked_step(s, digest, sha_hex, body).0;
    assert(t.db.dom().contains(other) == s.db.dom().contains(other));
    if s.db.dom().contains(other) {
        assert(t.db[other] == s.db[other]);
    }
}

// ---------------------------------------------------------------------------
// Numbers in headers

/// The number that a string of decimal digit characters denotes.
pub open spec fn chars_value(s: Seq<char>) -> int
    decreases s.len(),
{
    if s.len() == 0 {
        0
    } else {
        chars_value(s.drop_last()) * 10 + (s.last() as int - 48)
    }
}

/// The decimal text of a number is made of digits, does not start with `0`
/// unless it is `0`, and denotes the number; so the `range` of a chunk
/// names the chunk's length.
pub proof fn law_decimal_denotes(n: nat)
    ensures
        decimal(n).len() > 0,
        forall|i: int| 0 <= i < decimal(n).len() ==> '0' <= #[trigger] decimal(n)[i] <= '9',
        decimal(n)[0] == '0' ==> n == 0,
        chars_value(decimal(n)) == n,
    decreases n,
{
    let d = digit_char(n % 10);
    assert((n % 10 + 48) as u32 as char as int == n % 10 + 48);
    if n >= 10 {
        law_decimal_denotes(n / 10);
        let t = decimal(n);
        assert(t.drop_last() =~= decimal(n / 10));
        assert(t.last() == d);
        assert forall|i: int| 0 <= i < t.len() implies '0' <= #[trigger] t[i] <= '9' by {
            if i < t.len() - 1 {
                assert(t[i] == decimal(n / 10)[i]);
            }
        }
        assert(t[0] == decimal(n / 10)[0]);
        vstd::arithmetic::div_mod::lemma_fundamental_div_mod(n as int, 10);
        assert(chars_value(t) == chars_value(decimal(n / 10)) * 10 + (n % 10));
    } else {
        assert(decimal(n).drop_last() =~= Seq::<char>::empty());
        assert(decimal(n).last() == d);
        assert(chars_value(Seq::<char>::empty()) == 0);
        assert(chars_value(decimal(n)) == n % 10);
    }
}

/// Every search of the registry finds the earliest element that matches:
/// the blob or manifest under a digest, the manifest that carries a tag, the
/// session that an id names. Whatever comes before it does not match, and
/// whatever comes after it does not matter.
pub proof fn law_search_finds_earliest<A>(
    s: Seq<A>,
    p: spec_fn(A) -> bool,
    before: Seq<A>,
    x: A,
    after: Seq<A>,
)
    requires
        s == before + seq![x] + after,
        p(x),
        forall|k: int| 0 <= k < before.len() ==> !p(#[trigger] before[k]),
    ensures
        first_match(s, p) == Some(before.len() as int),
        s[before.len() as int] == x,
{
    assert(s[before.len() as int] == x);
    assert forall|j: int| 0 <= j < before.len() implies !p(#[trigger] s[j]) by {
        assert(s[j] == before[j]);
    }
    lemma_first_match_is(s, p, before.len() as int);
}

} // verus!
