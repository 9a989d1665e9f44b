//! A registry that keeps blobs under distinct digests and finds manifests by
//! digest or by tag.
use vstd::prelude::*;
use crate::search::{first_match, lemma_first_match_is, lemma_first_match_none};
use crate::state::{copy_bytes, has_digest, Blobs, RequestChunkUpload, StoredView, UploadView};

verus! {

/// A manifest, found by its digest or by any of its tags. Either may be
/// missing.
pub struct Manifest {
    pub digest: Option<String>,
    pub tags: Option<Vec<String>>,
}

/// The view of a `Manifest`.
pub struct ManifestView {
    pub digest: Option<Seq<char>>,
    pub tags: Option<Seq<Seq<char>>>,
}

/// The texts of a list of strings.
pub open spec fn texts(v: Seq<String>) -> Seq<Seq<char>> {
    v.map_values(|s: String| s@)
}

impl View for Manifest {
    type V = ManifestView;

    open spec fn view(&self) -> ManifestView {
        ManifestView {
            digest: match self.digest {
                Some(d) => Some(d@),
                None => None,
            },
            tags: match self.tags {
                Some(t) => Some(texts(t@)),
                None => None,
            },
        }
    }
}

/// Blobs, manifests and upload sessions.
pub struct Registry {
    pub blobs: Vec<Blobs>,
    pub manifests: Vec<Manifest>,
    pub request_chunk_uploads: Vec<RequestChunkUpload>,
}

/// The view of a `Registry`.
pub struct RegistryContents {
    pub blobs: Seq<StoredView>,
    pub manifests: Seq<ManifestView>,
    pub uploads: Seq<UploadView>,
}

impl View for Registry {
    type V = RegistryContents;

    open spec fn view(&self) -> RegistryContents {
        RegistryContents {
            blobs: self.blobs@.map_values(|b: Blobs| b@),
            manifests: self.manifests@.map_values(|m: Manifest| m@),
            uploads: self.request_chunk_uploads@.map_values(|u: RequestChunkUpload| u@),
        }
    }
}

/// The refusal of a blob whose digest is taken; it carries the blob back.
pub struct BlobNotFound {
    pub blob: Blobs,
}

impl BlobNotFound {
    /// The message of the refusal: `Blob <digest> not found`.
    pub fn message(&self) -> (s: String)
        ensures
            s@ == "Blob "@ + self.blob.digest@ + " not found"@,
    {
        let mut s = String::from_str("Blob ");
        s.append(self.blob.digest.as_str());
        s.append(" not found");
        s
    }
}

/// A manifest stored under `digest`.
pub open spec fn manifest_digest_is(digest: Seq<char>) -> spec_fn(ManifestView) -> bool {
    |m: ManifestView| m.digest == Some(digest)
}

/// A manifest that carries `tag`.
pub open spec fn manifest_tagged(tag: Seq<char>) -> spec_fn(ManifestView) -> bool {
    |m: ManifestView| m.tags is Some && m.tags.unwrap().contains(tag)
}

/// No element before position `j` satisfies `p`: a search for `p` from the
/// front reaches position `j`.
pub open spec fn reaches<A>(s: Seq<A>, p: spec_fn(A) -> bool, j: int) -> bool {
    forall|k: int| 0 <= k < j ==> !p(#[trigger] s[k])
}

/// Every manifest that a search by digest reads has a digest.
pub open spec fn digest_search_reads_digests(ms: Seq<ManifestView>, digest: Seq<char>) -> bool {
    forall|j: int|
        0 <= j < ms.len() && #[trigger] reaches(ms, manifest_digest_is(digest), j) ==> ms[j].digest is Some
}

/// Every manifest that a search by tag reads has tags.
pub open spec fn tag_search_reads_tags(ms: Seq<ManifestView>, tag: Seq<char>) -> bool {
    forall|j: int| 0 <= j < ms.len() && #[trigger] reaches(ms, manifest_tagged(tag), j) ==> ms[j].tags is Some
}

/// Copies a blob.
pub fn copy_blob(b: &Blobs) -> (r: Blobs)
    ensures
        r@ == b@,
{
    Blobs { digest: b.digest.clone(), data: copy_bytes(&b.data) }
}

/// Copies a list of strings.
pub fn copy_texts(v: &Vec<String>) -> (r: Vec<String>)
    ensures
        texts(r@) == texts(v@),
{
    let mut r: Vec<String> = Vec::new();
    let mut i: usize = 0;
    while i < v.len()
        invariant
            i <= v@.len(),
            r@.len() == i,
            texts(r@) == texts(v@.take(i as int)),
        decreases v@.len() - i,
    {
        let ghost before = r@;
        r.push(v[i].clone());
        assert forall|k: int| 0 <= k < i + 1 implies #[trigger] texts(r@)[k] == texts(v@.take(i + 1))[k] by {
            if k < i {
                assert(texts(before)[k] == texts(v@.take(i as int))[k]);
                assert(r@[k] == before[k]);
            }
        }
        assert(texts(r@) =~= texts(v@.take(i + 1)));
        i = i + 1;
    }
    assert(v@.take(v@.len() as int) =~= v@);
    r
}

/// Copies a manifest.
pub fn copy_manifest(m: &Manifest) -> (r: Manifest)
    ensures
        r@ == m@,
{
    let digest = match &m.digest {
        Some(d) => Some(d.clone()),
        None => None,
    };
    let tags = match &m.tags {
        Some(t) => Some(copy_texts(t)),
        None => None,
    };
    Manifest { digest, tags }
}

/// Whether a list of tags holds `tag`.
fn has_tag(tags: &Vec<String>, tag: &String) -> (b: bool)
    ensures
        b == texts(tags@).contains(tag@),
{
    let mut i: usize = 0;
    while i < tags.len()
        invariant
            i <= tags@.len(),
            forall|k: int| 0 <= k < i ==> #[trigger] tags@[k]@ != tag@,
        decreases tags@.len() - i,
    {
        if tags[i] == *tag {
            assert(texts(tags@)[i as int] == tag@);
            return true;
        }
        i = i + 1;
    }
    assert forall|k: int| 0 <= k < texts(tags@).len() implies texts(tags@)[k] != tag@ by {
        assert(texts(tags@)[k] == tags@[k]@);
    }
    false
}

impl Registry {
    /// An empty registry.
    pub fn new() -> (r: Self)
        ensures
            r@.blobs == Seq::<StoredView>::empty(),
            r@.manifests == Seq::<ManifestView>::empty(),
            r@.uploads == Seq::<UploadView>::empty(),
    {
        let r = Registry { blobs: Vec::new(), manifests: Vec::new(), request_chunk_uploads: Vec::new() };
        assert(r@.blobs =~= Seq::<StoredView>::empty());
        assert(r@.manifests =~= Seq::<ManifestView>::empty());
        assert(r@.uploads =~= Seq::<UploadView>::empty());
        r
    }

    fn find_blob(&self, digest: &String) -> (r: Option<usize>)
        ensures
            match r {
                Some(i) => i < self@.blobs.len() && first_match(self@.blobs, has_digest(digest@)) == Some(
                    i as int,
                ),
                None => first_match(self@.blobs, has_digest(digest@)) is None,
            },
    {
        let ghost p = has_digest(digest@);
        let mut i: usize = 0;
        while i < self.blobs.len()
            invariant
                i <= self.blobs@.len(),
                p == has_digest(digest@),
                forall|j: int| 0 <= j < i ==> !p(#[trigger] self@.blobs[j]),
            decreases self.blobs@.len() - i,
        {
            if self.blobs[i].digest == *digest {
                proof {
                    lemma_first_match_is(self@.blobs, p, i as int);
                }
                return Some(i);
            }
            i = i + 1;
        }
        proof {
            lemma_first_match_none(self@.blobs, p);
        }
        None
    }

    /// Adds a blob, unless a blob with the same digest is already kept: then
    /// the blob is handed back in the refusal and nothing changes.
    pub fn add_blob(&mut self, blob: Blobs) -> (r: Result<(), BlobNotFound>)
        ensures
            first_match(old(self)@.blobs, has_digest(blob@.digest)) is Some ==> {
                &&& r matches Err(e) && e.blob@ == blob@
                &&& final(self)@ == old(self)@
            },
            first_match(old(self)@.blobs, has_digest(blob@.digest)) is None ==> {
                &&& r is Ok
                &&& final(self)@ == (RegistryContents { blobs: old(self)@.blobs.push(blob@), ..old(self)@ })
            },
    {
        if self.find_blob(&blob.digest).is_some() {
            return Err(BlobNotFound { blob });
        }
        let ghost before = self@;
        let ghost b = blob@;
        self.blobs.push(blob);
        assert(self@.blobs =~= before.blobs.push(b));
        assert(self@.manifests =~= before.manifests);
        assert(self@.uploads =~= before.uploads);
        Ok(())
    }

    /// A copy of the first blob kept under `digest`.
    pub fn get_blob_by_digest(&self, digest: String) -> (r: Option<Blobs>)
        ensures
            match first_match(self@.blobs, has_digest(digest@)) {
                Some(i) => r matches Some(b) && b@ == self@.blobs[i],
                None => r is None,
            },
    {
        match self.find_blob(&digest) {
            Some(i) => Some(copy_blob(&self.blobs[i])),
            None => None,
        }
    }

    /// A copy of the first manifest stored under `digest`. The search reads
    /// the digest of each manifest it passes, so each of those must have one.
    pub fn get_manifest_by_digest(&self, digest: String) -> (r: Option<Manifest>)
        requires
            digest_search_reads_digests(self@.manifests, digest@),
        ensures
            match first_match(self@.manifests, manifest_digest_is(digest@)) {
                Some(i) => r matches Some(m) && m@ == self@.manifests[i],
                None => r is None,
            },
    {
        let ghost p = manifest_digest_is(digest@);
        let mut i: usize = 0;
        while i < self.manifests.len()
            invariant
                i <= self.manifests@.len(),
                p == manifest_digest_is(digest@),
                digest_search_reads_digests(self@.manifests, digest@),
                forall|j: int| 0 <= j < i ==> !p(#[trigger] self@.manifests[j]),
            decreases self.manifests@.len() - i,
        {
            assert(reaches(self@.manifests, p, i as int));
            let found = match &self.manifests[i].digest {
                Some(d) => *d == digest,
                None => false,
            };
            if found {
                proof {
                    lemma_first_match_is(self@.manifests, p, i as int);
                }
                return Some(copy_manifest(&self.manifests[i]));
            }
            i = i + 1;
        }
        proof {
            lemma_first_match_none(self@.manifests, p);
        }
        None
    }

    /// A copy of the first manifest that carries `tag`. The search reads the
    /// tags of each manifest it passes, so each of those must have them.
    pub fn get_manifest_by_tag(&self, tag: String) -> (r: Option<Manifest>)
        requires
            tag_search_reads_tags(self@.manifests, tag@),
        ensures
            match first_match(self@.manifests, manifest_tagged(tag@)) {
                Some(i) => r matches Some(m) && m@ == self@.manifests[i],
                None => r is None,
            },
    {
        let ghost p = manifest_tagged(tag@);
        let mut i: usize = 0;
        while i < self.manifests.len()
            invariant
                i <= self.manifests@.len(),
                p == manifest_tagged(tag@),
                tag_search_reads_tags(self@.manifests, tag@),
                forall|j: int| 0 <= j < i ==> !p(#[trigger] self@.manifests[j]),
            decreases self.manifests@.len() - i,
        {
            assert(reaches(self@.manifests, p, i as int));
            let found = match &self.manifests[i].tags {
                Some(t) => has_tag(t, &tag),
                None => false,
            };
            if found {
                proof {
                    lemma_first_match_is(self@.manifests, p, i as int);
                }
                return Some(copy_manifest(&self.manifests[i]));
            }
            i = i + 1;
        }
        proof {
            lemma_first_match_none(self@.manifests, p);
        }
        None
    }
}

} // verus!
