use std::sync::Arc;
use vstd::prelude::*;

verus! {

/// The decimal digit `d` as a character.
pub open spec fn digit_char(d: nat) -> char {
    if d == 0 {
        '0'
    } else if d == 1 {
        '1'
    } else if d == 2 {
        '2'
    } else if d == 3 {
        '3'
    } else if d == 4 {
        '4'
    } else if d == 5 {
        '5'
    } else if d == 6 {
        '6'
    } else if d == 7 {
        '7'
    } else if d == 8 {
        '8'
    } else {
        '9'
    }
}

/// `n` written in decimal, without leading zeros.
pub open spec fn decimal(n: nat) -> Seq<char>
    decreases n,
{
    if n < 10 {
        seq![digit_char(n)]
    } else {
        decimal(n / 10) + seq![digit_char(n % 10)]
    }
}

fn digit_str(d: u64) -> (r: &'static str)
    requires
        d < 10,
    ensures
        r@ == seq![digit_char(d as nat)],
{
    proof {
        reveal_strlit("0");
        reveal_strlit("1");
        reveal_strlit("2");
        reveal_strlit("3");
        reveal_strlit("4");
        reveal_strlit("5");
        reveal_strlit("6");
        reveal_strlit("7");
        reveal_strlit("8");
        reveal_strlit("9");
    }
    let r = if d == 0 {
        "0"
    } else if d == 1 {
        "1"
    } else if d == 2 {
        "2"
    } else if d == 3 {
        "3"
    } else if d == 4 {
        "4"
    } else if d == 5 {
        "5"
    } else if d == 6 {
        "6"
    } else if d == 7 {
        "7"
    } else if d == 8 {
        "8"
    } else {
        "9"
    };
    assert(r@ =~= seq![digit_char(d as nat)]);
    r
}

/// Writes `n` in decimal.
pub fn to_decimal(n: u64) -> (r: String)
    ensures
        r@ == decimal(n as nat),
    decreases n,
{
    if n < 10 {
        String::from_str(digit_str(n))
    } else {
        let mut s = to_decimal(n / 10);
        s.append(digit_str(n % 10));
        s
    }
}

/// The MIME type that `mime_guess` gives a path, by its extension.
pub uninterp spec fn mime_of(path: Seq<char>) -> Seq<char>;

/// Relies on `mime_guess::from_path(..).first_or_octet_stream()`: the guess depends on
/// the path's extension alone, with `application/octet-stream` where none is known.
#[verifier::external_body]
fn guess_mime(path: &str) -> (r: String)
    ensures
        r@ == mime_of(path@),
{
    mime_guess::from_path(path).first_or_octet_stream().to_string()
}

/// The SHA-256 digest of some bytes, as lowercase hexadecimal.
pub uninterp spec fn sha256_hex(bytes: Seq<u8>) -> Seq<char>;

/// Relies on `sha2::Sha256::digest`, written with `{:x}`: the digest depends on the bytes
/// alone.
#[verifier::external_body]
fn content_digest(bytes: &Vec<u8>) -> (r: String)
    ensures
        r@ == sha256_hex(bytes@),
{
    format!("{:x}", <sha2::Sha256 as sha2::Digest>::digest(bytes.as_slice()))
}

/// Relies on `Arc::clone`: the new handle points at the same value, nothing is copied.
#[verifier::external_body]
pub(crate) fn share<T>(a: &Arc<T>) -> (r: Arc<T>)
    ensures
        r == *a,
{
    Arc::clone(a)
}

/// One servable file: its metadata and its contents.
#[derive(Debug, Clone, PartialEq, Eq)]
pub struct Artifact {
    pub content_type: String,
    pub content_length: u64,
    pub content_hash: Option<String>,
    pub last_modified: Option<String>,
    pub bytes: Arc<Vec<u8>>,
}

/// What an artifact holds, as plain values.
pub struct ArtifactView {
    pub content_type: Seq<char>,
    pub content_length: u64,
    pub content_hash: Option<Seq<char>>,
    pub last_modified: Option<Seq<char>>,
    pub bytes: Seq<u8>,
}

pub open spec fn opt_view(o: Option<String>) -> Option<Seq<char>> {
    match o {
        Some(s) => Some(s@),
        None => None,
    }
}

impl View for Artifact {
    type V = ArtifactView;

    open spec fn view(&self) -> ArtifactView {
        ArtifactView {
            content_type: self.content_type@,
            content_length: self.content_length,
            content_hash: opt_view(self.content_hash),
            last_modified: opt_view(self.last_modified),
            bytes: self.bytes@,
        }
    }
}

/// The strong validator of an artifact: its hash where it has one, else its length in decimal.
pub open spec fn etag_of(a: ArtifactView) -> Seq<char> {
    match a.content_hash {
        Some(h) => h,
        None => decimal(a.content_length as nat),
    }
}

fn copy_opt(o: &Option<String>) -> (r: Option<String>)
    ensures
        opt_view(*o) == opt_view(r),
{
    match o {
        Some(s) => Some(s.clone()),
        None => None,
    }
}

impl Artifact {
    /// A file read from disk: its type guessed from the path's extension, its length
    /// that of `bytes`, its validator the SHA-256 digest of `bytes`.
    pub fn from_file(path: &str, bytes: Vec<u8>, last_modified: Option<String>) -> (r: Artifact)
        ensures
            r@ == (ArtifactView {
                content_type: mime_of(path@),
                content_length: bytes@.len() as u64,
                content_hash: Some(sha256_hex(bytes@)),
                last_modified: opt_view(last_modified),
                bytes: bytes@,
            }),
    {
        let content_type = guess_mime(path);
        let content_length = bytes.len() as u64;
        let digest = content_digest(&bytes);
        Artifact {
            content_type,
            content_length,
            content_hash: Some(digest),
            last_modified,
            bytes: Arc::new(bytes),
        }
    }

    /// A copy of this artifact that shares its bytes.
    pub fn duplicate(&self) -> (r: Artifact)
        ensures
            r@ == self@,
    {
        Artifact {
            content_type: self.content_type.clone(),
            content_length: self.content_length,
            content_hash: copy_opt(&self.content_hash),
            last_modified: copy_opt(&self.last_modified),
            bytes: share(&self.bytes),
        }
    }

    /// The value of the `ETag` header for this artifact.
    pub fn etag(&self) -> (r: String)
        ensures
            r@ == etag_of(self@),
    {
        match &self.content_hash {
            Some(h) => h.clone(),
            None => to_decimal(self.content_length),
        }
    }
}

} // verus!
