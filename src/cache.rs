use vstd::prelude::*;
use crate::hex::{hex_string, hex_text};
use sha2::Digest;
use vstd::string::StringSliceAdditionalSpecFns;

verus! {

/// The SHA-256 digest of a byte string.
pub uninterp spec fn sha256_of(bytes: Seq<u8>) -> Seq<u8>;

/// Relies on sha2's `Sha256::digest`: the 32-byte SHA-256 digest of the input.
#[verifier::external_body]
fn sha256(bytes: &Vec<u8>) -> (r: Vec<u8>)
    ensures
        r@ == sha256_of(bytes@),
        r@.len() == 32,
{
    sha2::Sha256::digest(bytes.as_slice()).to_vec()
}

/// The bytes that are hashed for an artifact: the path's UTF-8 bytes, then the purpose's.
pub open spec fn key_message(path: &str, purpose: &str) -> Seq<u8> {
    path.spec_bytes() + purpose.spec_bytes()
}

/// Cache key of an artifact: lower-case hex of the digest of its message.
pub open spec fn key_text(path: &str, purpose: &str) -> Seq<char> {
    hex_text(sha256_of(key_message(path, purpose)))
}

/// File name of an artifact inside the cache directory: `key.extension`.
pub open spec fn artifact_name(path: &str, purpose: &str, ext: &str) -> Seq<char> {
    key_text(path, purpose) + seq!['.'] + ext@
}

fn append_bytes(v: &mut Vec<u8>, s: &str)
    ensures
        final(v)@ == old(v)@ + s.spec_bytes(),
{
    let b = s.as_bytes();
    let mut i: usize = 0;
    while i < b.len()
        invariant
            b@ == s.spec_bytes(),
            i <= b@.len(),
            v@ == old(v)@ + b@.subrange(0, i as int),
        decreases b@.len() - i,
    {
        v.push(b[i]);
        assert(b@.subrange(0, i + 1) =~= b@.subrange(0, i as int).push(b@[i as int]));
        i = i + 1;
    }
    assert(b@.subrange(0, b@.len() as int) =~= b@);
}

/// Deterministic cache key for a source path and a purpose tag.
pub fn cache_key(path: &str, purpose: &str) -> (r: String)
    ensures
        r@ == key_text(path, purpose),
        r@.len() == 64,
{
    let mut msg: Vec<u8> = Vec::new();
    append_bytes(&mut msg, path);
    append_bytes(&mut msg, purpose);
    assert(msg@ =~= key_message(path, purpose));
    let d = sha256(&msg);
    hex_string(&d)
}

/// File name under which the artifact of `path` for `purpose` is stored.
pub fn artifact_file_name(path: &str, purpose: &str, ext: &str) -> (r: String)
    ensures
        r@ == artifact_name(path, purpose, ext),
{
    let mut r = cache_key(path, purpose);
    proof {
        reveal_strlit(".");
    }
    r.append(".");
    r.append(ext);
    assert(r@ =~= artifact_name(path, purpose, ext));
    r
}

/// File name of the cached thumbnail of `path`: a lossy `jpg` file.
pub fn thumbnail_file_name(path: &str) -> (r: String)
    ensures
        r@ == artifact_name(path, "thumb", "jpg"),
{
    artifact_file_name(path, "thumb", "jpg")
}

/// File name of the cached focus heatmap of `path`: a lossless `png` file.
pub fn heatmap_file_name(path: &str) -> (r: String)
    ensures
        r@ == artifact_name(path, "focus_peak", "png"),
{
    artifact_file_name(path, "focus_peak", "png")
}

/// Distinct purpose tags of one path are hashed from distinct messages.
pub proof fn lemma_purposes_hash_distinct_messages(path: &str, p1: &str, p2: &str)
    requires
        p1.spec_bytes() != p2.spec_bytes(),
    ensures
        key_message(path, p1) != key_message(path, p2),
{
    let a = key_message(path, p1);
    let b = key_message(path, p2);
    let n = path.spec_bytes().len();
    if a == b {
        assert(a.subrange(n as int, a.len() as int) =~= p1.spec_bytes());
        assert(b.subrange(n as int, b.len() as int) =~= p2.spec_bytes());
    }
}

/// Artifacts whose extensions differ but have one length never share a
/// file name, whatever their paths and purposes.
pub proof fn lemma_extensions_separate_names(
    path1: &str,
    purpose1: &str,
    path2: &str,
    purpose2: &str,
    ext1: &str,
    ext2: &str,
)
    requires
        ext1@ != ext2@,
        ext1@.len() == ext2@.len(),
    ensures
        artifact_name(path1, purpose1, ext1) != artifact_name(path2, purpose2, ext2),
{
    let a = artifact_name(path1, purpose1, ext1);
    let b = artifact_name(path2, purpose2, ext2);
    if a == b {
        let k = ext1@.len();
        assert(a.subrange(a.len() - k, a.len() as int) =~= ext1@);
        assert(b.subrange(b.len() - k, b.len() as int) =~= ext2@);
    }
}

/// A path's thumbnail and its focus heatmap are hashed from different
/// messages and stored under different file names.
pub proof fn lemma_thumbnail_and_heatmap_apart(path: &str)
    ensures
        key_message(path, "thumb") != key_message(path, "focus_peak"),
        artifact_name(path, "thumb", "jpg") != artifact_name(path, "focus_peak", "png"),
{
    reveal_strlit("thumb");
    reveal_strlit("focus_peak");
    reveal_strlit("jpg");
    reveal_strlit("png");
    assert(vstd::string::is_ascii("thumb"));
    assert(vstd::string::is_ascii("focus_peak"));
    vstd::string::is_ascii_spec_bytes("thumb");
    vstd::string::is_ascii_spec_bytes("focus_peak");
    assert("thumb".spec_bytes().len() == 5);
    assert("focus_peak".spec_bytes().len() == 10);
    lemma_purposes_hash_distinct_messages(path, "thumb", "focus_peak");
    assert("jpg"@[0] != "png"@[0]);
    lemma_extensions_separate_names(path, "thumb", path, "focus_peak", "jpg", "png");
}

/// The artifact file names known to be present in the cache directory.
pub struct ArtifactIndex {
    names: Vec<String>,
}

/// What a cache request resolves to: the artifact's file name, and whether
/// it is missing and has to be built and written under that name.
pub struct CachePlan {
    pub file_name: String,
    pub build: bool,
}

/// Outcome of a request against the present names: the file name, and
/// whether the builder runs.
pub open spec fn plan_of(present: Set<Seq<char>>, name: Seq<char>) -> (Seq<char>, bool) {
    (name, !present.contains(name))
}

impl ArtifactIndex {
    /// The set of present file names.
    pub closed spec fn present(&self) -> Set<Seq<char>> {
        Set::new(|n: Seq<char>| exists|i: int| 0 <= i < self.names@.len() && self.names@[i]@ == n)
    }

    /// An index of an empty cache directory.
    pub fn new() -> (r: ArtifactIndex)
        ensures
            r.present() == Set::<Seq<char>>::empty(),
    {
        let r = ArtifactIndex { names: Vec::new() };
        assert(r.present() =~= Set::<Seq<char>>::empty());
        r
    }

    /// Whether a file of this name is present.
    pub fn contains(&self, name: &String) -> (r: bool)
        ensures
            r == self.present().contains(name@),
    {
        let mut i: usize = 0;
        while i < self.names.len()
            invariant
                i <= self.names@.len(),
                forall|j: int| 0 <= j < i ==> self.names@[j]@ != name@,
            decreases self.names@.len() - i,
        {
            if self.names[i] == *name {
                assert(self.present().contains(name@));
                return true;
            }
            i = i + 1;
        }
        false
    }

    /// Notes that a file of this name now exists.
    pub fn record(&mut self, name: String)
        ensures
            final(self).present() == old(self).present().insert(name@),
    {
        let ghost n = name@;
        self.names.push(name);
        assert(self.present() =~= old(self).present().insert(n)) by {
            assert(self.names@[self.names@.len() - 1]@ == n);
            assert forall|m: Seq<char>| old(self).present().contains(m) implies self.present().contains(
                m,
            ) by {
                let i = choose|i: int| 0 <= i < old(self).names@.len() && old(self).names@[i]@ == m;
                assert(self.names@[i] == old(self).names@[i]);
            }
        }
    }

    /// Resolves a request for the artifact of `path` tagged `purpose`: its
    /// file name, and whether it is missing. A present file is reused as it
    /// is, without any freshness check against the source image.
    pub fn get_or_create(&self, path: &str, purpose: &str, ext: &str) -> (r: CachePlan)
        ensures
            (r.file_name@, r.build) == plan_of(self.present(), artifact_name(path, purpose, ext)),
    {
        let file_name = artifact_file_name(path, purpose, ext);
        let build = !self.contains(&file_name);
        CachePlan { file_name, build }
    }
}

/// Asking twice for one path and purpose gives one file name, and once the
/// first answer's file is recorded the second asks for no build.
pub proof fn lemma_get_or_create_idempotent(
    present: Set<Seq<char>>,
    path: &str,
    purpose: &str,
    ext: &str,
)
    ensures
        ({
            let first = plan_of(present, artifact_name(path, purpose, ext));
            let second = plan_of(present.insert(first.0), artifact_name(path, purpose, ext));
            second.0 == first.0 && !second.1
        }),
{
}

} // verus!
