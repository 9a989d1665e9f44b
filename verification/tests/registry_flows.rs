use std::time::Duration;

use docker_registry::blob::{
    blob_exists, get_blob, patch_upload_blob, post_upload_blob, put_upload_blob, IP,
};
use docker_registry::handlers::{
    blob_exists_old, create_user, empty_string_as_none, get_manifest, manifest_exists,
    patch_upload_blob_with_reference, put_upload_manifest, upload_blob, upload_blob_old,
    upload_blob_with_reference, with_status, with_status_ok, CreateUser,
};
use docker_registry::http::{HttpResponse, ResponseBody, Status};
use docker_registry::registry::{Manifest, Registry};
use docker_registry::state::{AppState, Blobs};
use docker_registry::text::{decimal_string, parse_i32_bytes};

const HELLO_SHA: &str = "2cf24dba5fb0a30e26e83b2ac5b9e29e1b161e5c1fa7425e73043362938b9824";

fn s(x: &str) -> String {
    x.to_string()
}

fn header<'a>(r: &'a HttpResponse, name: &str) -> Option<&'a str> {
    r.headers.iter().find(|h| h.name == name).map(|h| h.value.as_str())
}

fn header_names(r: &HttpResponse) -> Vec<String> {
    r.headers.iter().map(|h| h.name.clone()).collect()
}

fn bytes(r: &HttpResponse) -> Vec<u8> {
    match &r.body {
        ResponseBody::Bytes(b) => b.clone(),
        _ => panic!("not a byte body"),
    }
}

fn error_codes(r: &HttpResponse) -> Vec<(String, String, String)> {
    match &r.body {
        ResponseBody::Errors(e) => e
            .errors
            .iter()
            .map(|x| (x.code.clone(), x.message.clone(), x.detail.clone()))
            .collect(),
        _ => panic!("not an error body"),
    }
}

fn last_segment(location: &str) -> String {
    location.rsplit('/').next().unwrap().to_string()
}

fn is_v4_text(id: &str) -> bool {
    let b = id.as_bytes();
    b.len() == 36
        && b.iter().enumerate().all(|(i, c)| {
            if i == 8 || i == 13 || i == 18 || i == 23 {
                *c == b'-'
            } else {
                c.is_ascii_digit() || (b'a'..=b'f').contains(c)
            }
        })
        && b[14] == b'4'
}

fn now() -> Duration {
    Duration::from_secs(1_700_000_000)
}

#[test]
fn get_blob_on_empty_registry_is_not_found() {
    let state = AppState::new();
    let r = get_blob(&state, &s("img"), &s("sha256:x"));
    assert_eq!(r.status, Status::NotFound);
    assert!(r.headers.is_empty());
    assert!(bytes(&r).is_empty());
    let e = blob_exists(&state, &s("img"), &s("sha256:x"));
    assert_eq!(e.status.code(), 404);
}

#[test]
fn chunked_upload_round_trip() {
    let mut state = AppState::new();
    let opened = post_upload_blob(&mut state, &s("img"), &Some(b"0".to_vec()), now());
    assert_eq!(opened.status, Status::Accepted);
    assert_eq!(header_names(&opened), vec![s("range"), s("Location")]);
    assert_eq!(header(&opened, "range"), Some("0-0"));
    let location = header(&opened, "Location").unwrap().to_string();
    assert!(location.starts_with(&format!("{}/v2/img/blobs/uploads/", IP)));
    let session = last_segment(&location);
    assert!(is_v4_text(&session));
    assert_eq!(state.registry.request_chunk_uploads.len(), 1);
    assert_eq!(state.registry.request_chunk_uploads[0].date, now());

    let patched = patch_upload_blob(
        &mut state,
        &s("img"),
        &session,
        &Some(b"5".to_vec()),
        &b"hello".to_vec(),
    );
    assert_eq!(patched.status, Status::Accepted);
    assert_eq!(header(&patched, "range"), Some("0-5"));
    let close = last_segment(header(&patched, "location").unwrap());
    assert!(is_v4_text(&close));
    assert_eq!(close, state.registry.request_chunk_uploads[0].close_session_id);

    let put = put_upload_blob(
        &mut state,
        &s("img"),
        &close,
        &Some(b"6".to_vec()),
        &Some(s("sha256:abc")),
        &b" world".to_vec(),
    );
    assert_eq!(put.status, Status::Created);
    assert_eq!(
        header(&put, "location"),
        Some(format!("{}/v2/img/blobs/sha256:abc", IP).as_str())
    );

    let got = get_blob(&state, &s("img"), &s("sha256:abc"));
    assert_eq!(got.status, Status::Okay);
    assert_eq!(header(&got, "content-type"), Some("application/octet-stream"));
    assert_eq!(bytes(&got), b"hello world".to_vec());
    assert_eq!(blob_exists(&state, &s("img"), &s("sha256:abc")).status, Status::Okay);
}

#[test]
fn post_upload_blob_refuses_non_empty_announcement() {
    let mut state = AppState::new();
    let r = post_upload_blob(&mut state, &s("img"), &Some(b"12".to_vec()), now());
    assert_eq!(r.status, Status::InternalServerError);
    assert!(r.headers.is_empty());
    let r = post_upload_blob(&mut state, &s("img"), &None, now());
    assert_eq!(r.status.code(), 500);
    assert!(state.registry.request_chunk_uploads.is_empty());
}

#[test]
fn upload_blob_opens_session_without_range() {
    let mut state = AppState::new();
    let r = upload_blob(&mut state, &s("img"), &Some(b"0".to_vec()), now());
    assert_eq!(r.status, Status::Accepted);
    assert_eq!(header_names(&r), vec![s("Location")]);
    let id = last_segment(header(&r, "Location").unwrap());
    assert_eq!(id, state.registry.request_chunk_uploads[0].session_id);
    let bad = upload_blob(&mut state, &s("img"), &Some(b"00".to_vec()), now());
    assert_eq!(bad.status, Status::InternalServerError);
    assert_eq!(state.registry.request_chunk_uploads.len(), 1);
}

#[test]
fn two_sessions_get_different_ids() {
    let mut state = AppState::new();
    let a = post_upload_blob(&mut state, &s("img"), &Some(b"0".to_vec()), now());
    let b = post_upload_blob(&mut state, &s("img"), &Some(b"0".to_vec()), now());
    assert_ne!(header(&a, "Location"), header(&b, "Location"));
    let u = &state.registry.request_chunk_uploads;
    assert_ne!(u[0].session_id, u[0].close_session_id);
}

#[test]
fn patch_to_unknown_session_is_an_error() {
    let mut state = AppState::new();
    let r = patch_upload_blob(&mut state, &s("img"), &s("nope"), &Some(b"3".to_vec()), &b"abc".to_vec());
    assert_eq!(r.status, Status::BadRequest);
    assert_eq!(header(&r, "content-type"), Some("application/json"));
    assert_eq!(
        error_codes(&r),
        vec![(s("BLOB_UPLOAD_INVALID"), s("blob upload invalid"), s("reference not found for blob upload"))]
    );
}

#[test]
fn patch_without_length_or_with_zero_length() {
    let mut state = AppState::new();
    let opened = post_upload_blob(&mut state, &s("img"), &Some(b"0".to_vec()), now());
    let session = last_segment(header(&opened, "Location").unwrap());
    let r = patch_upload_blob(&mut state, &s("img"), &session, &None, &b"abc".to_vec());
    assert_eq!(r.status, Status::BadRequest);
    assert_eq!(header(&r, "content-type"), Some("application/json"));
    assert!(bytes(&r).is_empty());
    let r = patch_upload_blob(&mut state, &s("img"), &session, &Some(b"0".to_vec()), &b"abc".to_vec());
    assert_eq!(r.status, Status::Accepted);
    assert_eq!(header(&r, "range"), Some("0-3"));
    assert!(state.registry.request_chunk_uploads[0].data.is_empty());
    let r = patch_upload_blob(&mut state, &s("img"), &session, &Some(b"-4".to_vec()), &b"abcd".to_vec());
    assert_eq!(r.status, Status::Accepted);
    assert!(state.registry.request_chunk_uploads[0].data.is_empty());
}

#[test]
fn patch_by_closing_id_is_refused_but_put_accepts_either_id() {
    let mut state = AppState::new();
    let opened = post_upload_blob(&mut state, &s("img"), &Some(b"0".to_vec()), now());
    let session = last_segment(header(&opened, "Location").unwrap());
    let close = state.registry.request_chunk_uploads[0].close_session_id.clone();
    let r = patch_upload_blob(&mut state, &s("img"), &close, &Some(b"1".to_vec()), &b"x".to_vec());
    assert_eq!(r.status, Status::BadRequest);
    let r = put_upload_blob(&mut state, &s("img"), &session, &Some(b"1".to_vec()), &Some(s("d1")), &b"x".to_vec());
    assert_eq!(r.status, Status::Created);
    assert_eq!(bytes(&get_blob(&state, &s("img"), &s("d1"))), b"x".to_vec());
}

#[test]
fn put_to_unknown_session_or_without_length() {
    let mut state = AppState::new();
    let r = put_upload_blob(&mut state, &s("img"), &s("nope"), &Some(b"1".to_vec()), &Some(s("d")), &b"x".to_vec());
    assert_eq!(r.status, Status::BadRequest);
    assert_eq!(header(&r, "content-type"), Some("application/json"));
    let opened = post_upload_blob(&mut state, &s("img"), &Some(b"0".to_vec()), now());
    let session = last_segment(header(&opened, "Location").unwrap());
    let r = put_upload_blob(&mut state, &s("img"), &session, &None, &Some(s("d")), &b"x".to_vec());
    assert_eq!(r.status, Status::BadRequest);
    assert!(state.registry.blobs.is_empty());
}

#[test]
fn put_twice_keeps_the_first_blob_readable() {
    let mut state = AppState::new();
    state.registry.blobs.push(Blobs { digest: s("d"), data: b"first".to_vec() });
    let opened = post_upload_blob(&mut state, &s("img"), &Some(b"0".to_vec()), now());
    let session = last_segment(header(&opened, "Location").unwrap());
    put_upload_blob(&mut state, &s("img"), &session, &Some(b"6".to_vec()), &Some(s("d")), &b"second".to_vec());
    assert_eq!(state.registry.blobs.len(), 2);
    assert_eq!(bytes(&get_blob(&state, &s("img"), &s("d"))), b"first".to_vec());
}

#[test]
fn manifest_round_trip_uses_sha256_digest() {
    let mut state = AppState::new();
    let r = put_upload_manifest(&mut state, &s("img"), &b"hello".to_vec());
    let digest = format!("sha256:{}", HELLO_SHA);
    assert_eq!(r.status, Status::Created);
    assert_eq!(
        header_names(&r),
        vec![s("content-type"), s("Docker-Content-Digest"), s("Location")]
    );
    assert_eq!(header(&r, "Docker-Content-Digest"), Some(digest.as_str()));
    assert_eq!(
        header(&r, "Location"),
        Some(format!("{}/v2/img/manifest/{}", IP, digest).as_str())
    );
    let got = get_manifest(&state, &s("img"), &digest);
    assert_eq!(got.status, Status::Okay);
    assert_eq!(
        header(&got, "content-type"),
        Some("application/vnd.docker.distribution.manifest.v2+json")
    );
    assert_eq!(bytes(&got), b"hello".to_vec());
    put_upload_manifest(&mut state, &s("img"), &b"hello".to_vec());
    assert_eq!(state.registry.manifests.len(), 1);
    assert_eq!(get_manifest(&state, &s("img"), &s("latest")).status, Status::NotFound);
}

#[test]
fn direct_upload_with_ticket_scheme() {
    let mut state = AppState::new();
    let r = upload_blob_old(&mut state, &s("registry"), &None, &Vec::new(), now());
    assert_eq!(r.status, Status::Accepted);
    let ticket = last_segment(header(&r, "Location").unwrap());
    assert!(is_v4_text(&ticket));
    assert!(state.tickets.contains_key(&ticket));

    let wrong = upload_blob_old(&mut state, &s("registry"), &Some(s("sha256:00")), &b"hello".to_vec(), now());
    assert_eq!(wrong.status, Status::BadRequest);
    assert_eq!(
        error_codes(&wrong),
        vec![(s("DIGEST_INVALID"), s("provided digest did not match uploaded content"), s(""))]
    );

    let key = format!("sha256:{}", HELLO_SHA);
    let ok = upload_blob_old(&mut state, &s("registry"), &Some(key.clone()), &b"hello".to_vec(), now());
    assert_eq!(ok.status, Status::Accepted);
    assert!(ok.headers.is_empty());
    let found = blob_exists_old(&state, &s("registry"), &key);
    assert_eq!(found.status, Status::Okay);
    assert_eq!(bytes(&found), b"hello".to_vec());
    assert_eq!(blob_exists_old(&state, &s("other"), &key).status, Status::NotFound);
    assert_eq!(blob_exists_old(&state, &s("registry"), &s("sha256:00")).status, Status::NotFound);
}

#[test]
fn ticket_admits_one_upload() {
    let mut state = AppState::new();
    let key = format!("sha256:{}", HELLO_SHA);
    let missing = upload_blob_with_reference(&mut state, &s("registry"), &s("t"), &Some(key.clone()), &b"hello".to_vec());
    assert_eq!(missing.status, Status::BadRequest);
    assert_eq!(
        error_codes(&missing),
        vec![(s("BLOB_UPLOAD_INVALID"), s("No reference found for blob"), s(""))]
    );

    let issued = patch_upload_blob_with_reference(&mut state, &s("registry"), &s("anything"), now());
    assert_eq!(issued.status, Status::Accepted);
    let ticket = last_segment(header(&issued, "Location").unwrap());
    assert_eq!(state.tickets.get(&ticket), Some(&now()));

    let bad = upload_blob_with_reference(&mut state, &s("registry"), &ticket, &Some(s("sha256:00")), &b"hello".to_vec());
    assert_eq!(bad.status, Status::BadRequest);
    assert!(state.tickets.contains_key(&ticket));

    let ok = upload_blob_with_reference(&mut state, &s("registry"), &ticket, &Some(key.clone()), &b"hello".to_vec());
    assert_eq!(ok.status, Status::Accepted);
    assert!(!state.tickets.contains_key(&ticket));
    assert_eq!(state.db.get(&key), Some(&b"hello".to_vec()));

    let again = upload_blob_with_reference(&mut state, &s("registry"), &ticket, &Some(key.clone()), &b"hello".to_vec());
    assert_eq!(again.status, Status::BadRequest);
}

#[test]
fn ticket_kept_when_content_already_stored() {
    let mut state = AppState::new();
    let key = format!("sha256:{}", HELLO_SHA);
    upload_blob_old(&mut state, &s("registry"), &Some(key.clone()), &b"hello".to_vec(), now());
    let issued = patch_upload_blob_with_reference(&mut state, &s("registry"), &s("r"), now());
    let ticket = last_segment(header(&issued, "Location").unwrap());
    let ok = upload_blob_with_reference(&mut state, &s("registry"), &ticket, &Some(key), &b"hello".to_vec());
    assert_eq!(ok.status, Status::Accepted);
    assert!(state.tickets.contains_key(&ticket));
}

#[test]
fn manifest_exists_only_for_registry_latest() {
    assert_eq!(manifest_exists(&s("registry"), &s("latest")), Ok(Status::Okay));
    assert_eq!(manifest_exists(&s("registry"), &s("v1")), Err(Status::NotFound));
    assert_eq!(manifest_exists(&s("other"), &s("latest")), Err(Status::NotFound));
}

#[test]
fn fixed_answers() {
    let r = with_status_ok();
    assert_eq!(r.status.code(), 200);
    assert_eq!(
        header(&r, "Docker-Distribution-API-Version"),
        Some("application/json; charset=utf-8")
    );
    assert_eq!(header(&r, "Content-Type"), Some("registry/2.0"));
    assert_eq!(bytes(&r), b"{}".to_vec());
    let r = with_status();
    assert_eq!(r.status.code(), 404);
    match r.body {
        ResponseBody::StatusJson(t) => assert_eq!(t, "success"),
        _ => panic!("expected a status body"),
    }
}

#[test]
fn create_user_answers_created() {
    let (status, user) = create_user(CreateUser { username: s("ana") });
    assert_eq!(status.code(), 201);
    assert_eq!(user.id, 1337);
    assert_eq!(user.username, "ana");
}

#[test]
fn empty_digest_query_is_absent() {
    assert_eq!(empty_string_as_none(Some(s(""))), None);
    assert_eq!(empty_string_as_none(None), None);
    assert_eq!(empty_string_as_none(Some(s("sha256:1"))), Some(s("sha256:1")));
}

#[test]
fn decimal_and_i32_reading() {
    assert_eq!(decimal_string(0), "0");
    assert_eq!(decimal_string(7), "7");
    assert_eq!(decimal_string(1234509), "1234509");
    assert_eq!(parse_i32_bytes(&b"42".to_vec()), Some(42));
    assert_eq!(parse_i32_bytes(&b"+12".to_vec()), Some(12));
    assert_eq!(parse_i32_bytes(&b"-2147483648".to_vec()), Some(i32::MIN));
    assert_eq!(parse_i32_bytes(&b"2147483647".to_vec()), Some(i32::MAX));
    assert_eq!(parse_i32_bytes(&b"2147483648".to_vec()), None);
    assert_eq!(parse_i32_bytes(&b"99999999999999999999".to_vec()), None);
    assert_eq!(parse_i32_bytes(&b"".to_vec()), None);
    assert_eq!(parse_i32_bytes(&b"-".to_vec()), None);
    assert_eq!(parse_i32_bytes(&b"1a".to_vec()), None);
    assert_eq!(parse_i32_bytes(&b" 1".to_vec()), None);
    for text in ["0", "-0", "+7", "0012", "-17", "300", "x", "", "--1"] {
        assert_eq!(parse_i32_bytes(&text.as_bytes().to_vec()), text.parse::<i32>().ok());
    }
}

#[test]
fn add_blob_refuses_taken_digest() {
    let mut reg = Registry::new();
    assert!(reg.add_blob(Blobs { digest: s("d"), data: vec![1, 2] }).is_ok());
    let refused = reg.add_blob(Blobs { digest: s("d"), data: vec![9] });
    match refused {
        Err(e) => {
            assert_eq!(e.blob.data, vec![9]);
            assert_eq!(e.message(), "Blob d not found");
        }
        Ok(()) => panic!("second blob under the same digest was accepted"),
    }
    let got = reg.get_blob_by_digest(s("d")).unwrap();
    assert_eq!(got.data, vec![1, 2]);
    assert!(reg.get_blob_by_digest(s("e")).is_none());
    assert_eq!(reg.blobs.len(), 1);
}

#[test]
fn manifests_found_by_digest_and_tag() {
    let mut reg = Registry::new();
    reg.manifests.push(Manifest { digest: Some(s("m1")), tags: Some(vec![s("latest"), s("v1")]) });
    reg.manifests.push(Manifest { digest: Some(s("m2")), tags: Some(vec![s("v2")]) });
    let m = reg.get_manifest_by_digest(s("m2")).unwrap();
    assert_eq!(m.tags, Some(vec![s("v2")]));
    assert!(reg.get_manifest_by_digest(s("m3")).is_none());
    let t = reg.get_manifest_by_tag(s("v1")).unwrap();
    assert_eq!(t.digest, Some(s("m1")));
    assert!(reg.get_manifest_by_tag(s("v3")).is_none());
}
