//! License checksum entries.  Each license token of the root package maps to
//! a `file://<name>;md5=<checksum>` clause; a file that is absent or
//! unreadable gets a fixed placeholder instead of failing the run.

use vstd::prelude::*;

verus! {

/// The checksum placeholder written when no license file can be read.
pub open spec fn placeholder() -> Seq<char> {
    "generateme"@
}

/// What the md5 digest of a byte sequence prints as in lower-case hex.
pub uninterp spec fn md5_hex_of(bytes: Seq<u8>) -> Seq<char>;

/// Relies on `md5::compute` and its `Digest` lower-hex formatting: the
/// 128-bit digest of the input bytes alone, printed as two hex digits per
/// digest byte, 32 characters in all.
#[verifier::external_body]
fn md5_hex(bytes: &[u8]) -> (r: String)
    ensures
        r@ == md5_hex_of(bytes@),
        r@.len() == 32,
{
    format!("{:x}", md5::compute(bytes))
}

/// What the file system reported about one license token: whether a file
/// named exactly like the token exists at the project root, whether the
/// `LICENSE-<token>` fallback exists, and the bytes of the chosen file
/// (`None` when it could not be read).
pub struct LicenseProbe {
    pub plain_exists: bool,
    pub special_exists: bool,
    pub bytes: Option<Vec<u8>>,
}

/// The file name a token resolves to: the token itself when present, else
/// the `LICENSE-<token>` fallback when present, else the token unverified.
pub open spec fn spec_license_name(token: Seq<char>, plain: bool, special: bool) -> Seq<char> {
    if plain {
        token
    } else if special {
        "LICENSE-"@ + token
    } else {
        token
    }
}

/// The checksum written for a probe: the digest of the bytes read, or the
/// placeholder when no file was found or the file could not be read.
pub open spec fn spec_checksum(probe: LicenseProbe) -> Seq<char> {
    if probe.plain_exists || probe.special_exists {
        match probe.bytes {
            Some(b) => md5_hex_of(b@),
            None => placeholder(),
        }
    } else {
        placeholder()
    }
}

/// The full checksum clause for one token.
pub open spec fn spec_license_entry(token: Seq<char>, probe: LicenseProbe) -> Seq<char> {
    "file://"@ + spec_license_name(token, probe.plain_exists, probe.special_exists) + ";md5="@
        + spec_checksum(probe) + " \\\n"@
}

/// The file a token's checksum should be read from, if any file is to be
/// read at all.
pub fn license_file_target(token: &str, plain_exists: bool, special_exists: bool) -> (r: Option<
    String,
>)
    ensures
        match r {
            Some(name) => (plain_exists || special_exists) && name@ == spec_license_name(
                token@,
                plain_exists,
                special_exists,
            ),
            None => !plain_exists && !special_exists,
        },
{
    if plain_exists {
        Some(token.to_owned())
    } else if special_exists {
        let mut n = String::from_str("LICENSE-");
        n.append(token);
        Some(n)
    } else {
        None
    }
}

/// Formats the checksum clause for one license token.
pub fn license_file(token: &str, probe: &LicenseProbe) -> (r: String)
    ensures
        r@ == spec_license_entry(token@, *probe),
{
    let mut out = String::from_str("file://");
    if probe.plain_exists {
        out.append(token);
    } else if probe.special_exists {
        out.append("LICENSE-");
        out.append(token);
    } else {
        out.append(token);
    }
    out.append(";md5=");
    if probe.plain_exists || probe.special_exists {
        match &probe.bytes {
            Some(b) => {
                let h = md5_hex(b.as_slice());
                out.append(h.as_str());
            },
            None => {
                out.append("generateme");
            },
        }
    } else {
        out.append("generateme");
    }
    out.append(" \\\n");
    out
}

/// A token whose license file is missing still yields an entry, with the
/// checksum placeholder in place of a digest: the run never fails over it.
pub proof fn lemma_missing_file_placeholder(token: Seq<char>, probe: LicenseProbe)
    requires
        !probe.plain_exists && !probe.special_exists,
    ensures
        spec_license_entry(token, probe) == "file://"@ + token + ";md5="@ + placeholder()
            + " \\\n"@,
{
}

/// An unreadable license file likewise falls back to the placeholder.
pub proof fn lemma_unreadable_file_placeholder(token: Seq<char>, probe: LicenseProbe)
    requires
        probe.bytes is None,
    ensures
        spec_checksum(probe) == placeholder(),
{
}

} // verus!
