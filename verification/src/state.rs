//! The state that the registry's handlers share: stored blobs and manifests,
//! open upload sessions, the digest store and the upload tickets.
use vstd::prelude::*;
use core::time::Duration;
use crate::keyed::StrMap;
use crate::search::{first_match, is_first_match, lemma_first_match_is, lemma_first_match_none};

verus! {

/// What a stored blob or manifest holds: its digest and its bytes.
pub struct StoredView {
    pub digest: Seq<char>,
    pub data: Seq<u8>,
}

/// A blob: a digest and the bytes stored under it.
pub struct Blobs {
    pub digest: String,
    pub data: Vec<u8>,
}

impl View for Blobs {
    type V = StoredView;

    open spec fn view(&self) -> StoredView {
        StoredView { digest: self.digest@, data: self.data@ }
    }
}

/// A manifest: its digest and its bytes.
pub struct Manifests {
    pub digest: String,
    pub data: Vec<u8>,
}

impl View for Manifests {
    type V = StoredView;

    open spec fn view(&self) -> StoredView {
        StoredView { digest: self.digest@, data: self.data@ }
    }
}

/// An image: a name and tag with the digests of its blobs.
pub struct Image {
    pub digest: String,
    pub name: String,
    pub tag: String,
    pub blobs_digest: Vec<String>,
}

/// The view of an `Image`.
pub struct ImageView {
    pub digest: Seq<char>,
    pub name: Seq<char>,
    pub tag: Seq<char>,
    pub blobs_digest: Seq<Seq<char>>,
}

impl View for Image {
    type V = ImageView;

    open spec fn view(&self) -> ImageView {
        ImageView {
            digest: self.digest@,
            name: self.name@,
            tag: self.tag@,
            blobs_digest: self.blobs_digest@.map_values(|s: String| s@),
        }
    }
}

/// An upload session: the id that opened it, the id that closes it, when it
/// was opened, and the bytes received so far.
pub struct RequestChunkUpload {
    pub session_id: String,
    pub close_session_id: String,
    pub date: Duration,
    pub data: Vec<u8>,
}

/// The view of a `RequestChunkUpload`.
pub struct UploadView {
    pub session_id: Seq<char>,
    pub close_session_id: Seq<char>,
    pub date: Duration,
    pub data: Seq<u8>,
}

impl View for RequestChunkUpload {
    type V = UploadView;

    open spec fn view(&self) -> UploadView {
        UploadView {
            session_id: self.session_id@,
            close_session_id: self.close_session_id@,
            date: self.date,
            data: self.data@,
        }
    }
}

/// Images, blobs, manifests and upload sessions, each in the order in which
/// they were added.
pub struct Registry {
    pub images: Vec<Image>,
    pub blobs: Vec<Blobs>,
    pub manifests: Vec<Manifests>,
    pub request_chunk_uploads: Vec<RequestChunkUpload>,
}

/// The view of a `Registry`.
pub struct RegistryView {
    pub images: Seq<ImageView>,
    pub blobs: Seq<StoredView>,
    pub manifests: Seq<StoredView>,
    pub uploads: Seq<UploadView>,
}

impl View for Registry {
    type V = RegistryView;

    open spec fn view(&self) -> RegistryView {
        RegistryView {
            images: self.images@.map_values(|i: Image| i@),
            blobs: self.blobs@.map_values(|b: Blobs| b@),
            manifests: self.manifests@.map_values(|m: Manifests| m@),
            uploads: self.request_chunk_uploads@.map_values(|u: RequestChunkUpload| u@),
        }
    }
}

/// Everything the handlers share: the digest store, the upload tickets and
/// the registry.
pub struct AppState {
    pub db: StrMap<Vec<u8>>,
    pub tickets: StrMap<Duration>,
    pub registry: Registry,
}

/// The view of an `AppState`.
pub struct StateView {
    pub db: Map<Seq<char>, Seq<u8>>,
    pub tickets: Map<Seq<char>, Duration>,
    pub registry: RegistryView,
}

impl View for AppState {
    type V = StateView;

    open spec fn view(&self) -> StateView {
        StateView {
            db: self.db@.map_values(|v: Vec<u8>| v@),
            tickets: self.tickets@,
            registry: self.registry@,
        }
    }
}

/// A stored item whose digest is `d`.
pub open spec fn has_digest(d: Seq<char>) -> spec_fn(StoredView) -> bool {
    |b: StoredView| b.digest == d
}

/// An upload session opened under `id`.
pub open spec fn opened_as(id: Seq<char>) -> spec_fn(UploadView) -> bool {
    |u: UploadView| u.session_id == id
}

/// An upload session that `reference` names: by its closing id or by the id
/// that opened it.
pub open spec fn named_by(reference: Seq<char>) -> spec_fn(UploadView) -> bool {
    |u: UploadView| u.close_session_id == reference || u.session_id == reference
}

/// The empty registry state.
pub open spec fn empty_state() -> StateView {
    StateView {
        db: Map::empty(),
        tickets: Map::empty(),
        registry: RegistryView {
            images: Seq::empty(),
            blobs: Seq::empty(),
            manifests: Seq::empty(),
            uploads: Seq::empty(),
        },
    }
}

/// Copies bytes.
pub fn copy_bytes(v: &Vec<u8>) -> (r: Vec<u8>)
    ensures
        r@ == v@,
{
    let r = v.clone();
    assert(r@ =~= v@);
    r
}

impl AppState {
    /// The digest store and the tickets each hold one value per key.
    pub open spec fn wf(&self) -> bool {
        self.db.wf() && self.tickets.wf()
    }

    /// A state with nothing stored.
    pub fn new() -> (s: Self)
        ensures
            s.wf(),
            s@ == empty_state(),
    {
        let s = AppState {
            db: StrMap::new(),
            tickets: StrMap::new(),
            registry: Registry {
                images: Vec::new(),
                blobs: Vec::new(),
                manifests: Vec::new(),
                request_chunk_uploads: Vec::new(),
            },
        };
        assert(s@.db =~= Map::<Seq<char>, Seq<u8>>::empty());
        assert(s@.registry.images =~= Seq::<ImageView>::empty());
        assert(s@.registry.blobs =~= Seq::<StoredView>::empty());
        assert(s@.registry.manifests =~= Seq::<StoredView>::empty());
        assert(s@.registry.uploads =~= Seq::<UploadView>::empty());
        s
    }
}

impl Default for AppState {
    /// A state with nothing stored.
    fn default() -> (s: Self)
        ensures
            s.wf(),
            s@ == empty_state(),
    {
        AppState::new()
    }
}

impl Registry {
    /// The position of the first blob stored under `digest`.
    pub fn find_blob(&self, digest: &String) -> (r: Option<usize>)
        ensures
            match r {
                Some(i) => first_match(self@.blobs, has_digest(digest@)) == Some(i as int) && is_first_match(
                    self@.blobs,
                    has_digest(digest@),
                    i as int,
                ),
                None => first_match(self@.blobs, has_digest(digest@)) is None,
            },
    {
        let ghost p = has_digest(digest@);
        let mut i: usize = 0;
        while i < self.blobs.len()
            invariant
                i <= self.blobs@.len(),
                p == has_digest(digest@),
                forall|j: int| 0 <= j < i ==> !p(#[trigger] self@.blobs[j]),
            decreases self.blobs@.len() - i,
        {
            if self.blobs[i].digest == *digest {
                proof {
                    lemma_first_match_is(self@.blobs, p, i as int);
                }
                return Some(i);
            }
            i = i + 1;
        }
        proof {
            lemma_first_match_none(self@.blobs, p);
        }
        None
    }

    /// The position of the first manifest stored under `digest`.
    pub fn find_manifest(&self, digest: &String) -> (r: Option<usize>)
        ensures
            match r {
                Some(i) => first_match(self@.manifests, has_digest(digest@)) == Some(i as int) && is_first_match(
                    self@.manifests,
                    has_digest(digest@),
                    i as int,
                ),
                None => first_match(self@.manifests, has_digest(digest@)) is None,
            },
    {
        let ghost p = has_digest(digest@);
        let mut i: usize = 0;
        while i < self.manifests.len()
            invariant
                i <= self.manifests@.len(),
                p == has_digest(digest@),
                forall|j: int| 0 <= j < i ==> !p(#[trigger] self@.manifests[j]),
            decreases self.manifests@.len() - i,
        {
            if self.manifests[i].digest == *digest {
                proof {
                    lemma_first_match_is(self@.manifests, p, i as int);
                }
                return Some(i);
            }
            i = i + 1;
        }
        proof {
            lemma_first_match_none(self@.manifests, p);
        }
        None
    }

    /// The position of the first upload session opened under `id`.
    pub fn find_opened_upload(&self, id: &String) -> (r: Option<usize>)
        ensures
            match r {
                Some(i) => first_match(self@.uploads, opened_as(id@)) == Some(i as int) && is_first_match(
                    self@.uploads,
                    opened_as(id@),
                    i as int,
                ),
                None => first_match(self@.uploads, opened_as(id@)) is None,
            },
    {
        let ghost p = opened_as(id@);
        let mut i: usize = 0;
        while i < self.request_chunk_uploads.len()
            invariant
                i <= self.request_chunk_uploads@.len(),
                p == opened_as(id@),
                forall|j: int| 0 <= j < i ==> !p(#[trigger] self@.uploads[j]),
            decreases self.request_chunk_uploads@.len() - i,
        {
            if self.request_chunk_uploads[i].session_id == *id {
                proof {
                    lemma_first_match_is(self@.uploads, p, i as int);
                }
                return Some(i);
            }
            i = i + 1;
        }
        proof {
            lemma_first_match_none(self@.uploads, p);
        }
        None
    }

    /// The position of the first upload session that `reference` names, by
    /// its closing id or by the id that opened it.
    pub fn find_named_upload(&self, reference: &String) -> (r: Option<usize>)
        ensures
            match r {
                Some(i) => first_match(self@.uploads, named_by(reference@)) == Some(i as int) && is_first_match(
                    self@.uploads,
                    named_by(reference@),
                    i as int,
                ),
                None => first_match(self@.uploads, named_by(reference@)) is None,
            },
    {
        let ghost p = named_by(reference@);
        let mut i: usize = 0;
        while i < self.request_chunk_uploads.len()
            invariant
                i <= self.request_chunk_uploads@.len(),
                p == named_by(reference@),
                forall|j: int| 0 <= j < i ==> !p(#[trigger] self@.uploads[j]),
            decreases self.request_chunk_uploads@.len() - i,
        {
            if self.request_chunk_uploads[i].close_session_id == *reference
                || self.request_chunk_uploads[i].session_id == *reference {
                proof {
                    lemma_first_match_is(self@.uploads, p, i as int);
                }
                return Some(i);
            }
            i = i + 1;
        }
        proof {
            lemma_first_match_none(self@.uploads, p);
        }
        None
    }

    /// Appends bytes to the data of the upload session at position `i`.
    pub fn extend_upload(&mut self, i: usize, bytes: &Vec<u8>)
        requires
            i < old(self)@.uploads.len(),
        ensures
            final(self)@ == (RegistryView {
                uploads: old(self)@.uploads.update(
                    i as int,
                    UploadView { data: old(self)@.uploads[i as int].data + bytes@, ..old(self)@.uploads[i as int] },
                ),
                ..old(self)@
            }),
    {
        let ghost before = self@;
        proof {
            assert(before.uploads[i as int].data + bytes@.take(0) =~= before.uploads[i as int].data);
            assert(before.uploads.update(i as int, before.uploads[i as int]) =~= before.uploads);
        }
        let mut k: usize = 0;
        while k < bytes.len()
            invariant
                i < self@.uploads.len(),
                i < before.uploads.len(),
                k <= bytes@.len(),
                self@ == (RegistryView {
                    uploads: before.uploads.update(
                        i as int,
                        UploadView { data: before.uploads[i as int].data + bytes@.take(k as int), ..before.uploads[i as int] },
                    ),
                    ..before
                }),
            decreases bytes@.len() - k,
        {
            let b = bytes[k];
            let ghost mid = self@;
            let ghost mid_vec = self.request_chunk_uploads@;
            self.request_chunk_uploads[i].data.push(b);
            proof {
                let want = UploadView { data: before.uploads[i as int].data + bytes@.take(k + 1), ..before.uploads[i as int] };
                assert(bytes@.take(k + 1) =~= bytes@.take(k as int).push(b));
                assert(mid.uploads[i as int].data == before.uploads[i as int].data + bytes@.take(k as int));
                assert(before.uploads[i as int].data + bytes@.take(k + 1) =~= mid.uploads[i as int].data.push(b));
                assert(self@.uploads[i as int].session_id == want.session_id);
                assert(self@.uploads[i as int].close_session_id == want.close_session_id);
                assert(self@.uploads[i as int].date == want.date);
                assert(self@.uploads[i as int].data =~= want.data);
                assert(self@.uploads[i as int] == want);
                assert forall|j: int| 0 <= j < self@.uploads.len() && j != i implies
                    #[trigger] self@.uploads[j] == before.uploads[j] by {
                    assert(self.request_chunk_uploads@[j] == mid_vec[j]);
                    assert(mid.uploads[j] == before.uploads[j]);
                }
                assert(self@.uploads =~= before.uploads.update(i as int, want));
                assert(self@.blobs =~= before.blobs);
                assert(self@.manifests =~= before.manifests);
                assert(self@.images =~= before.images);
            }
            k = k + 1;
        }
        assert(bytes@.take(bytes@.len() as int) =~= bytes@);
    }
}

} // verus!
