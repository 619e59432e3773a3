//! Content-addressed names for remote files, and where such a file lives
//! under a storage root. A file's identifier is derived from its bytes: a
//! truncated digest, a fixed marker byte, and a population-count checksum
//! that guards against mistyped identifiers.

use vstd::prelude::*;

use crate::text::is_dec_digit;

verus! {

/// The lowercase hex digit for a value below sixteen.
pub open spec fn hex_digit_char(n: nat) -> char
    recommends
        n < 16,
{
    if n == 0 {
        '0'
    } else if n == 1 {
        '1'
    } else if n == 2 {
        '2'
    } else if n == 3 {
        '3'
    } else if n == 4 {
        '4'
    } else if n == 5 {
        '5'
    } else if n == 6 {
        '6'
    } else if n == 7 {
        '7'
    } else if n == 8 {
        '8'
    } else if n == 9 {
        '9'
    } else if n == 10 {
        'a'
    } else if n == 11 {
        'b'
    } else if n == 12 {
        'c'
    } else if n == 13 {
        'd'
    } else if n == 14 {
        'e'
    } else {
        'f'
    }
}

/// A hex digit of either case.
pub open spec fn is_hex_digit(c: char) -> bool {
    is_dec_digit(c) || ('a' <= c && c <= 'f') || ('A' <= c && c <= 'F')
}

/// A lowercase hex digit.
pub open spec fn is_lower_hex_digit(c: char) -> bool {
    is_dec_digit(c) || ('a' <= c && c <= 'f')
}

/// The value of a hex digit of either case.
pub open spec fn hex_val(c: char) -> nat
    recommends
        is_hex_digit(c),
{
    if is_dec_digit(c) {
        (c as nat - '0' as nat) as nat
    } else if 'a' <= c && c <= 'f' {
        (c as nat - 'a' as nat + 10) as nat
    } else {
        (c as nat - 'A' as nat + 10) as nat
    }
}

/// The lowercase hex encoding of a run of bytes: two digits per byte,
/// high nibble first.
pub open spec fn hex_encoding(bytes: Seq<u8>) -> Seq<char> {
    Seq::new(
        bytes.len() * 2,
        |i: int|
            if i % 2 == 0 {
                hex_digit_char((bytes[i / 2] >> 4) as nat)
            } else {
                hex_digit_char((bytes[i / 2] & 0xf) as nat)
            },
    )
}

/// The bytes denoted by a run of hex digits, two digits per byte.
pub open spec fn hex_decoding(s: Seq<char>) -> Seq<u8> {
    Seq::new(s.len() / 2, |i: int| (hex_val(s[2 * i]) * 16 + hex_val(s[2 * i + 1])) as u8)
}

/// Encode bytes as lowercase hex.
///
/// Relies on `hex::encode`: two lowercase hex digits per byte, high
/// nibble first.
#[verifier::external_body]
pub fn hex_encode(data: &[u8]) -> (r: String)
    ensures
        r@ == hex_encoding(data@),
{
    hex::encode(data)
}

/// Decode a hex string into bytes.
///
/// Relies on `hex::decode`: succeeds exactly on an even run of hex digits
/// of either case, reading two digits per byte, high nibble first.
#[verifier::external_body]
pub fn hex_decode(s: &str) -> (r: Option<Vec<u8>>)
    ensures
        r is Some <==> (s@.len() % 2 == 0 && forall|i: int|
            0 <= i < s@.len() ==> is_hex_digit(#[trigger] s@[i])),
        r is Some ==> r->0@ == hex_decoding(s@),
{
    hex::decode(s).ok()
}

/// The hex form of the SHA-256 digest of a run of bytes; a function of
/// the bytes alone.
pub uninterp spec fn sha256_hex(data: Seq<u8>) -> Seq<char>;

/// Digest bytes with SHA-256 and render the digest as hex.
///
/// Relies on `sha256::digest`, which hex-encodes the 32-byte SHA-256
/// digest: 64 lowercase hex digits, depending on the input bytes alone.
#[verifier::external_body]
pub fn sha256_digest_hex(data: &[u8]) -> (r: String)
    ensures
        r@ == sha256_hex(data@),
        r@.len() == 64,
        forall|i: int| 0 <= i < 64 ==> is_lower_hex_digit(#[trigger] r@[i]),
{
    sha256::digest(data)
}

/// How many bits are set in a byte.
pub open spec fn popcount_byte(b: u8) -> nat {
    ((b & 1) + ((b >> 1) & 1) + ((b >> 2) & 1) + ((b >> 3) & 1) + ((b >> 4) & 1) + ((b >> 5)
        & 1) + ((b >> 6) & 1) + ((b >> 7) & 1)) as nat
}

/// How many bits are set across a run of bytes.
pub open spec fn checksum_of(bytes: Seq<u8>) -> nat
    decreases bytes.len(),
{
    if bytes.len() == 0 {
        0
    } else {
        checksum_of(bytes.drop_last()) + popcount_byte(bytes.last())
    }
}

/// Count the set bits of one byte.
fn byte_ones(b: u8) -> (r: u8)
    ensures
        r == popcount_byte(b),
        r <= 8,
{
    proof {
        assert((b & 1) <= 1 && ((b >> 1) & 1) <= 1 && ((b >> 2) & 1) <= 1 && ((b >> 3) & 1)
            <= 1 && ((b >> 4) & 1) <= 1 && ((b >> 5) & 1) <= 1 && ((b >> 6) & 1) <= 1 && ((b
            >> 7) & 1) <= 1) by (bit_vector);
    }
    (b & 1) + ((b >> 1) & 1) + ((b >> 2) & 1) + ((b >> 3) & 1) + ((b >> 4) & 1) + ((b >> 5)
        & 1) + ((b >> 6) & 1) + ((b >> 7) & 1)
}

/// A run of bytes has at most eight set bits per byte.
proof fn lemma_checksum_bound(bytes: Seq<u8>)
    ensures
        checksum_of(bytes) <= 8 * bytes.len(),
    decreases bytes.len(),
{
    if bytes.len() > 0 {
        lemma_checksum_bound(bytes.drop_last());
        let b = bytes.last();
        assert((b & 1) + ((b >> 1) & 1) + ((b >> 2) & 1) + ((b >> 3) & 1) + ((b >> 4) & 1) + (
        (b >> 5) & 1) + ((b >> 6) & 1) + ((b >> 7) & 1) <= 8) by (bit_vector);
    }
}

/// Count the set bits across a run of bytes.
fn checksum(bytes: &[u8]) -> (r: u8)
    requires
        bytes@.len() <= 30,
    ensures
        r == checksum_of(bytes@),
{
    let n = bytes.len();
    let mut acc: u8 = 0;
    let mut i: usize = 0;
    while i < n
        invariant
            0 <= i <= n,
            n == bytes@.len(),
            n <= 30,
            acc == checksum_of(bytes@.take(i as int)),
            acc <= 8 * i,
        decreases n - i,
    {
        proof {
            let t = bytes@.take(i + 1);
            assert(t.drop_last() =~= bytes@.take(i as int));
            assert(t.last() == bytes@[i as int]);
        }
        acc = acc + byte_ones(bytes[i]);
        i = i + 1;
    }
    proof {
        assert(bytes@.take(n as int) =~= bytes@);
    }
    acc
}

/// The marker byte every identifier carries.
pub open spec fn identifier_magic() -> u8 {
    0x69
}

/// The content-derived name of a remote file: thirty digest bytes, the
/// marker byte, and a set-bit checksum of the digest bytes.
#[derive(Clone, Debug, PartialEq, Eq, Hash)]
pub struct RemoteFileIdentifier {
    pub hash: Vec<u8>,
    pub magic: u8,
    pub check: u8,
}

impl RemoteFileIdentifier {
    /// The identifier invariant: thirty digest bytes, the marker, and a
    /// matching checksum.
    pub open spec fn wf(self) -> bool {
        &&& self.hash@.len() == 30
        &&& self.magic == identifier_magic()
        &&& self.check == checksum_of(self.hash@)
    }

    /// The identifier's thirty-two bytes: digest, marker, checksum.
    pub open spec fn bytes_spec(self) -> Seq<u8> {
        self.hash@ + seq![self.magic, self.check]
    }

    /// Name a file by its bytes: the first thirty bytes of the SHA-256
    /// digest, the marker, and the checksum.
    pub fn digest(data: &[u8]) -> (r: RemoteFileIdentifier)
        ensures
            r.wf(),
            r.hash@ == hex_decoding(sha256_hex(data@).take(60)),
    {
        let hex = sha256_digest_hex(data);
        let head = hex.as_str().substring_char(0, 60);
        proof {
            assert(head@ =~= sha256_hex(data@).take(60));
            assert forall|i: int| 0 <= i < head@.len() implies is_hex_digit(
                #[trigger] head@[i],
            ) by {
                assert(is_lower_hex_digit(sha256_hex(data@)[i]));
            }
        }
        let decoded = match hex_decode(head) {
            Some(v) => v,
            None => {
                proof {
                    assert(head@.len() % 2 == 0);
                }
                // Unreachable: sixty lowercase hex digits always decode.
                Vec::new()
            },
        };
        proof {
            assert(decoded@.len() == 30);
        }
        let check = checksum(decoded.as_slice());
        RemoteFileIdentifier { hash: decoded, magic: 0x69, check }
    }

    /// Read an identifier back from its sixty-four hex digits.
    ///
    /// Succeeds exactly when the string is sixty-four hex digits whose
    /// last four encode the marker byte and the checksum of the first
    /// thirty decoded bytes.
    pub fn from_str(s: &str) -> (r: Result<RemoteFileIdentifier, ()>)
        ensures
            r is Ok <==> ({
                &&& s@.len() == 64
                &&& (forall|i: int| 0 <= i < 64 ==> is_hex_digit(#[trigger] s@[i]))
                &&& hex_decoding(s@.subrange(60, 62))[0] == identifier_magic()
                &&& hex_decoding(s@.subrange(62, 64))[0] == checksum_of(
                    hex_decoding(s@.take(60)),
                )
            }),
            r matches Ok(id) ==> id.wf() && id.hash@ == hex_decoding(s@.take(60)),
    {
        let n = s.unicode_len();
        if n != 64 {
            return Err(());
        }
        let head = s.substring_char(0, 60);
        proof {
            assert(head@ =~= s@.take(60));
        }
        let hash = match hex_decode(head) {
            Some(v) => v,
            None => {
                proof {
                    assert(head@.len() % 2 == 0);
                    let w = choose|i: int|
                        !(0 <= i < head@.len() ==> is_hex_digit(#[trigger] head@[i]));
                    assert(!is_hex_digit(s@[w]));
                }
                return Err(());
            },
        };
        let magic_str = s.substring_char(60, 62);
        proof {
            assert(magic_str@ =~= s@.subrange(60, 62));
        }
        let magic = match hex_decode(magic_str) {
            Some(v) => v,
            None => {
                proof {
                    let w = choose|i: int|
                        !(0 <= i < magic_str@.len() ==> is_hex_digit(
                            #[trigger] magic_str@[i],
                        ));
                    assert(!is_hex_digit(s@[60 + w]));
                }
                return Err(());
            },
        };
        if magic.len() != 1 || magic[0] != 0x69 {
            proof {
                assert(magic@.len() == 1);
            }
            return Err(());
        }
        let check_str = s.substring_char(62, 64);
        proof {
            assert(check_str@ =~= s@.subrange(62, 64));
        }
        let check = match hex_decode(check_str) {
            Some(v) => v,
            None => {
                proof {
                    let w = choose|i: int|
                        !(0 <= i < check_str@.len() ==> is_hex_digit(
                            #[trigger] check_str@[i],
                        ));
                    assert(!is_hex_digit(s@[62 + w]));
                }
                return Err(());
            },
        };
        let expected = checksum(hash.as_slice());
        if check.len() != 1 || check[0] != expected {
            proof {
                assert(check@.len() == 1);
            }
            return Err(());
        }
        proof {
            assert forall|i: int| 0 <= i < 64 implies is_hex_digit(#[trigger] s@[i]) by {
                if i < 60 {
                    assert(is_hex_digit(head@[i]));
                } else if i < 62 {
                    assert(is_hex_digit(magic_str@[i - 60]));
                } else {
                    assert(is_hex_digit(check_str@[i - 62]));
                }
            }
        }
        Ok(RemoteFileIdentifier { hash, magic: 0x69, check: expected })
    }

    /// Read an identifier back from its thirty-two raw bytes.
    ///
    /// Succeeds exactly when there are thirty-two bytes, the thirty-first
    /// is the marker, and the last is the checksum of the first thirty.
    pub fn try_from(value: &[u8]) -> (r: Result<RemoteFileIdentifier, ()>)
        ensures
            r is Ok <==> (value@.len() == 32 && value@[30] == identifier_magic() && value@[31]
                == checksum_of(value@.take(30))),
            r matches Ok(id) ==> id.wf() && id.hash@ == value@.take(30),
    {
        if value.len() != 32 {
            return Err(());
        }
        let marker = value[30];
        if marker != 0x69 {
            return Err(());
        }
        let mut hash: Vec<u8> = Vec::new();
        let mut i: usize = 0;
        while i < 30
            invariant
                0 <= i <= 30,
                value@.len() == 32,
                hash@ =~= value@.take(i as int),
            decreases 30 - i,
        {
            hash.push(value[i]);
            proof {
                assert(hash@ =~= value@.take(i + 1));
            }
            i = i + 1;
        }
        let expected = checksum(hash.as_slice());
        if value[31] != expected {
            return Err(());
        }
        Ok(RemoteFileIdentifier { hash, magic: 0x69, check: expected })
    }

    /// The identifier's thirty-two bytes.
    pub fn to_bytes(&self) -> (r: Vec<u8>)
        ensures
            r@ == self.bytes_spec(),
    {
        let mut out: Vec<u8> = Vec::new();
        let n = self.hash.len();
        let mut i: usize = 0;
        while i < n
            invariant
                0 <= i <= n,
                n == self.hash@.len(),
                out@ =~= self.hash@.take(i as int),
            decreases n - i,
        {
            out.push(self.hash[i]);
            proof {
                assert(out@ =~= self.hash@.take(i + 1));
            }
            i = i + 1;
        }
        out.push(self.magic);
        out.push(self.check);
        proof {
            assert(self.hash@.take(n as int) =~= self.hash@);
            assert(out@ =~= self.hash@ + seq![self.magic, self.check]);
        }
        out
    }

    /// The identifier rendered as sixty-four hex digits.
    pub fn to_hex_string(&self) -> (r: String)
        ensures
            r@ == hex_encoding(self.bytes_spec()),
    {
        let bytes = self.to_bytes();
        hex_encode(bytes.as_slice())
    }
}

/// The scheme of a URL held as text: what stands before its first colon,
/// or nothing without one.
pub open spec fn spec_url_scheme(s: Seq<char>) -> Option<Seq<char>> {
    if crate::text::has_match(s, ":"@) {
        Some(s.take(crate::text::first_match(s, ":"@)))
    } else {
        None
    }
}

/// Where a file can be fetched from, held as the URL's text.
#[derive(Clone, Debug)]
pub struct FileUrl {
    pub url: String,
}

impl FileUrl {
    /// Wrap a URL's text.
    pub fn new(url: String) -> (r: FileUrl)
        ensures
            r.url@ == url@,
    {
        FileUrl { url }
    }

    /// The URL's text.
    pub fn as_str(&self) -> (r: &str)
        ensures
            r@ == self.url@,
    {
        self.url.as_str()
    }

    /// The URL as the transcoder wants it: it follows `http` URLs as they
    /// are, but reads local files only with the slashes after `file:`
    /// dropped.
    pub fn to_string_for_ffmpeg(&self) -> (r: String)
        ensures
            r@ == (if spec_url_scheme(self.url@) == Some("file"@) {
                crate::text::spec_replace(self.url@, "file://"@, "file:"@)
            } else {
                self.url@
            }),
    {
        let is_file = match crate::text::find_sub(self.url.as_str(), ":") {
            Some(k) => {
                proof {
                    crate::text::lemma_first_match_at(self.url@, ":"@, k as int);
                }
                let scheme = self.url.as_str().substring_char(0, k);
                proof {
                    assert(scheme@ =~= self.url@.take(k as int));
                }
                crate::text::str_eq(scheme, "file")
            },
            None => false,
        };
        if is_file {
            proof {
                reveal_strlit("file://");
            }
            crate::text::replace_all(self.url.as_str(), "file://", "file:")
        } else {
            String::from_str(self.url.as_str())
        }
    }
}

/// What went wrong between the service and its caller.
pub enum VoiceError {
    NetworkError,
    HttpError(u16),
    InvalidFileType { expected: RemoteFileKind, got: RemoteFileKind },
    InvalidFileContents(String),
    Internal(String),
}

/// What went wrong inside a remote file store.
#[derive(Debug)]
pub enum RemoteFileManagerError {
    ReadError,
    WriteError,
    ChildError(String),
    Unspecified(String),
}

/// A value whose contents stay out of diagnostic output.
pub struct PrivateDebug<T>(pub T);

impl<T> PrivateDebug<T> {
    /// The wrapped value.
    pub fn value(&self) -> (r: &T)
        ensures
            r == &self.0,
    {
        &self.0
    }
}

/// What role a stored file plays; derived files carry the identifier of
/// the video they came from.
#[derive(Clone, Debug)]
pub enum RemoteFileKind {
    VideoInput,
    VideoOutput(RemoteFileIdentifier),
    VideoAnalysis(RemoteFileIdentifier),
    Waveform(RemoteFileIdentifier),
}

/// The directory name of each file role.
pub open spec fn spec_dir_name(kind: RemoteFileKind) -> Seq<char> {
    match kind {
        RemoteFileKind::VideoInput => "input"@,
        RemoteFileKind::VideoOutput(_) => "output"@,
        RemoteFileKind::VideoAnalysis(_) => "analyse"@,
        RemoteFileKind::Waveform(_) => "waveform"@,
    }
}

impl RemoteFileKind {
    /// The directory a file of this role lives under.
    pub fn as_dir_name(&self) -> (r: &'static str)
        ensures
            r@ == spec_dir_name(*self),
    {
        match self {
            RemoteFileKind::VideoInput => "input",
            RemoteFileKind::VideoOutput(_) => "output",
            RemoteFileKind::VideoAnalysis(_) => "analyse",
            RemoteFileKind::Waveform(_) => "waveform",
        }
    }
}

/// A stored file: its role and its content-derived name.
#[derive(Debug)]
pub struct RemoteFile {
    pub kind: RemoteFileKind,
    pub name: RemoteFileIdentifier,
}

impl RemoteFile {
    /// Pair a role with an identifier.
    pub fn new(kind: RemoteFileKind, name: RemoteFileIdentifier) -> (r: RemoteFile)
        ensures
            r.kind == kind,
            r.name == name,
    {
        RemoteFile { kind, name }
    }

    /// The file's identifier.
    pub fn identifier(&self) -> (r: &RemoteFileIdentifier)
        ensures
            r == &self.name,
    {
        &self.name
    }

    /// Where the file lives inside a storage bucket: its identifier's hex
    /// form, a slash, and its role's directory name.
    pub fn bucket_path(&self) -> (r: String)
        ensures
            r@ == hex_encoding(self.name.bytes_spec()) + "/"@ + spec_dir_name(self.kind),
    {
        let mut out = self.name.to_hex_string();
        out.append("/");
        out.append(self.kind.as_dir_name());
        out
    }
}

/// A file store rooted in a local directory, for running without a cloud
/// bucket. The shell around the library creates the directory and moves
/// the bytes; the store only lays out paths.
#[derive(Debug)]
pub struct DebugRemoteManager {
    pub root: String,
}

impl DebugRemoteManager {
    /// A store rooted at an absolute path.
    pub fn new(root: String) -> (r: DebugRemoteManager)
        requires
            root@.len() > 0 && root@[0] == '/',
        ensures
            r.root@ == root@,
    {
        DebugRemoteManager { root }
    }

    /// The path of a stored file under the root: root, slash, the file's
    /// bucket path.
    pub fn make_file_path(&self, file: &RemoteFile) -> (r: String)
        ensures
            r@ == self.root@ + "/"@ + hex_encoding(file.name.bytes_spec()) + "/"@
                + spec_dir_name(file.kind),
    {
        let mut out = String::from_str(self.root.as_str());
        out.append("/");
        let rest = file.bucket_path();
        out.append(rest.as_str());
        proof {
            assert(out@ =~= self.root@ + "/"@ + hex_encoding(file.name.bytes_spec()) + "/"@
                + spec_dir_name(file.kind));
        }
        out
    }
}

} // verus!
