//! Checks on an uploaded update package.
//!
//! Unpacking the package and reading its files is left to the caller; what is
//! decided of their contents is decided here.

use crate::decimal::{parse_unsigned, parse_unsigned_range};
use crate::text::{chars_of, option_string_view, split, split_range, str_eq};
use vstd::prelude::*;
use vstd::string::StringExecFns;

verus! {

/// The target for which the binary of a package has to be built.
pub open spec fn required_arch() -> Seq<char> {
    "aarch64-unknown-linux-musl"@
}

/// Whether `data` starts with the four magic bytes of a ZIP archive (`PK\x03\x04`).
pub open spec fn is_zip_magic(data: Seq<u8>) -> bool {
    data.len() >= 4 && data[0] == 0x50 && data[1] == 0x4B && data[2] == 0x03 && data[3] == 0x04
}

/// Tells a ZIP upload from any other by its leading magic bytes.
pub fn detect_zip_format(data: &[u8]) -> (zip: bool)
    ensures
        zip == is_zip_magic(data@),
{
    if data.len() < 4 {
        return false;
    }
    data[0] == 0x50 && data[1] == 0x4B && data[2] == 0x03 && data[3] == 0x04
}

/// The numbers among `pieces`: each piece that reads as a `u32`, in order.
pub open spec fn numbers_among(pieces: Seq<Seq<char>>) -> Seq<u32>
    decreases pieces.len(),
{
    if pieces.len() == 0 {
        Seq::empty()
    } else {
        let init: Seq<u32> = numbers_among(pieces.drop_last());
        match parse_unsigned(pieces.last(), u32::MAX as nat) {
            Some(n) => init.push(n as u32),
            None => init,
        }
    }
}

/// The numbers of a version text: its pieces between dots, those left out that
/// are no numbers.
pub open spec fn version_numbers(version: Seq<char>) -> Seq<u32> {
    numbers_among(split(version, '.'))
}

/// The number at place `i` of a version, 0 behind its end.
pub open spec fn version_part(numbers: Seq<u32>, i: int) -> u32 {
    if 0 <= i < numbers.len() {
        numbers[i]
    } else {
        0
    }
}

/// Whether version `a` is later than version `b`: at the first place where
/// they differ, `a` has the greater number. A shorter version counts as filled
/// up with zeros.
pub open spec fn newer_than(a: Seq<u32>, b: Seq<u32>) -> bool {
    exists|i: int|
        0 <= i && (i < a.len() || i < b.len()) && #[trigger] version_part(a, i) > version_part(b, i)
            && forall|j: int| 0 <= j < i ==> version_part(a, j) == version_part(b, j)
}

/// The numbers of a version text.
pub fn version_parts(version: &str) -> (numbers: Vec<u32>)
    ensures
        numbers@ == version_numbers(version@),
{
    let s = chars_of(version);
    assert(s@.subrange(0, s.len() as int) == s@);
    let bounds = split_range(&s, 0, s.len(), '.');
    let ghost pieces = split(s@, '.');
    let mut numbers: Vec<u32> = Vec::new();
    let mut k: usize = 0;
    assert(pieces.take(0) == Seq::<Seq<char>>::empty());
    while k < bounds.len()
        invariant
            k <= bounds.len(),
            bounds.len() == pieces.len(),
            forall|i: int|
                0 <= i < bounds.len() ==> (#[trigger] bounds[i]).0 <= bounds[i].1 <= s.len()
                    && s@.subrange(bounds[i].0 as int, bounds[i].1 as int) == pieces[i],
            numbers@ == numbers_among(pieces.take(k as int)),
        decreases bounds.len() - k,
    {
        let (from, to) = bounds[k];
        assert(pieces.take(k as int + 1).drop_last() == pieces.take(k as int));
        assert(pieces.take(k as int + 1).last() == pieces[k as int]);
        match parse_unsigned_range(&s, from, to, 0xFFFF_FFFF) {
            Some(n) => numbers.push(n as u32),
            None => {},
        }
        k += 1;
    }
    assert(pieces.take(pieces.len() as int) == pieces);
    numbers
}

/// Whether the version `v1` is later than the version `v2`.
pub fn compare_versions(v1: &str, v2: &str) -> (newer: bool)
    ensures
        newer == newer_than(version_numbers(v1@), version_numbers(v2@)),
{
    let a = version_parts(v1);
    let b = version_parts(v2);
    let n: usize = if a.len() > b.len() {
        a.len()
    } else {
        b.len()
    };
    let mut i: usize = 0;
    while i < n
        invariant
            i <= n,
            n >= a.len(),
            n >= b.len(),
            n == a.len() || n == b.len(),
            a@ == version_numbers(v1@),
            b@ == version_numbers(v2@),
            forall|j: int| 0 <= j < i ==> version_part(a@, j) == version_part(b@, j),
        decreases n - i,
    {
        let left: u32 = if i < a.len() {
            a[i]
        } else {
            0
        };
        let right: u32 = if i < b.len() {
            b[i]
        } else {
            0
        };
        if left > right {
            assert(version_part(a@, i as int) > version_part(b@, i as int));
            return true;
        } else if left < right {
            proof {
                lemma_not_newer(a@, b@, i as int);
            }
            return false;
        }
        i += 1;
    }
    proof {
        lemma_not_newer(a@, b@, n as int);
    }
    false
}

/// Versions that agree before place `i`, where the first has the smaller number
/// or both have ended, are not in the order later, earlier.
proof fn lemma_not_newer(a: Seq<u32>, b: Seq<u32>, i: int)
    requires
        0 <= i,
        forall|j: int| 0 <= j < i ==> version_part(a, j) == version_part(b, j),
        version_part(a, i) < version_part(b, i) || (i >= a.len() && i >= b.len()),
    ensures
        !newer_than(a, b),
{
    if newer_than(a, b) {
        let w = choose|w: int|
            0 <= w && (w < a.len() || w < b.len()) && #[trigger] version_part(a, w) > version_part(
                b,
                w,
            ) && forall|j: int| 0 <= j < w ==> version_part(a, j) == version_part(b, j);
        if w < i {
            assert(version_part(a, w) == version_part(b, w));
        } else if w > i {
            assert(version_part(a, i) == version_part(b, i));
        }
    }
}

/// What a package says of itself.
#[derive(Debug, Clone, PartialEq, Eq)]
pub struct OtaMeta {
    pub version: String,
    /// The MD5 digest of the binary, in lower-case hexadecimal.
    pub binary_md5: String,
    /// The target that the binary was built for.
    pub arch: String,
}

/// The mathematical content of an [`OtaMeta`].
pub struct OtaMetaView {
    pub version: Seq<char>,
    pub binary_md5: Seq<char>,
    pub arch: Seq<char>,
}

impl View for OtaMeta {
    type V = OtaMetaView;

    open spec fn view(&self) -> OtaMetaView {
        OtaMetaView { version: self.version@, binary_md5: self.binary_md5@, arch: self.arch@ }
    }
}

/// What the checks on a package found.
#[derive(Debug, Clone, PartialEq, Eq)]
pub struct OtaValidation {
    pub valid: bool,
    pub is_newer: bool,
    pub binary_md5_match: bool,
    pub frontend_md5_match: bool,
    pub arch_match: bool,
    pub error: Option<String>,
}

/// The mathematical content of an [`OtaValidation`].
pub struct OtaValidationView {
    pub valid: bool,
    pub is_newer: bool,
    pub binary_md5_match: bool,
    pub frontend_md5_match: bool,
    pub arch_match: bool,
    pub error: Option<Seq<char>>,
}

impl View for OtaValidation {
    type V = OtaValidationView;

    open spec fn view(&self) -> OtaValidationView {
        OtaValidationView {
            valid: self.valid,
            is_newer: self.is_newer,
            binary_md5_match: self.binary_md5_match,
            frontend_md5_match: self.frontend_md5_match,
            arch_match: self.arch_match,
            error: option_string_view(self.error),
        }
    }
}

/// The MD5 digest of `data` as 32 lower-case hexadecimal digits.
pub uninterp spec fn md5_hex(data: Seq<u8>) -> Seq<char>;

/// Computes the MD5 digest of `data` with `md5::compute` and writes it out with
/// the digest's `LowerHex` form, two digits for each of its sixteen bytes. The
/// result is a function of the bytes alone.
#[verifier::external_body]
fn md5_hex_digest(data: &[u8]) -> (digest: String)
    ensures
        digest@ == md5_hex(data@),
{
    format!("{:x}", md5::compute(data))
}

/// What is reported of a package that lacks a part.
pub open spec fn rejected(error: Seq<char>) -> OtaValidationView {
    OtaValidationView {
        valid: false,
        is_newer: false,
        binary_md5_match: false,
        frontend_md5_match: false,
        arch_match: false,
        error: Some(error),
    }
}

/// The complaint about a binary whose digest is not the one announced.
pub open spec fn md5_mismatch(expected: Seq<char>, actual: Seq<char>) -> Seq<char> {
    "Binary MD5 mismatch: expected="@ + expected + ", actual="@ + actual
}

/// The complaint about a binary built for another target.
pub open spec fn arch_mismatch(actual: Seq<char>) -> Seq<char> {
    "Arch mismatch: expected=aarch64-unknown-linux-musl, actual="@ + actual
}

/// The complaints about a package, joined by `; `, or none.
pub open spec fn validation_error(
    meta: OtaMetaView,
    digest: Seq<char>,
) -> Option<Seq<char>> {
    let md5_ok: bool = digest == meta.binary_md5;
    let arch_ok: bool = meta.arch == required_arch();
    if md5_ok && arch_ok {
        None
    } else if !md5_ok && !arch_ok {
        Some(md5_mismatch(meta.binary_md5, digest) + "; "@ + arch_mismatch(meta.arch))
    } else if !md5_ok {
        Some(md5_mismatch(meta.binary_md5, digest))
    } else {
        Some(arch_mismatch(meta.arch))
    }
}

/// What the checks find of a package described by `meta` whose binary has the
/// digest `digest`, on a device that runs `current_version`. The package is
/// valid where the digest is the announced one and the target is the required
/// one. The digest of the frontend is not checked and counts as matching.
pub open spec fn validation_of(
    meta: OtaMetaView,
    digest: Seq<char>,
    current_version: Seq<char>,
) -> OtaValidationView {
    OtaValidationView {
        valid: digest == meta.binary_md5 && meta.arch == required_arch(),
        is_newer: newer_than(version_numbers(meta.version), version_numbers(current_version)),
        binary_md5_match: digest == meta.binary_md5,
        frontend_md5_match: true,
        arch_match: meta.arch == required_arch(),
        error: validation_error(meta, digest),
    }
}

/// What the checks find of an unpacked package: whether its binary and its
/// frontend directory are there, and if so, what [`validation_of`] says of the
/// bytes of the binary.
pub open spec fn validate_spec(
    meta: OtaMetaView,
    binary_present: bool,
    frontend_present: bool,
    binary: Seq<u8>,
    current_version: Seq<char>,
) -> OtaValidationView {
    if !binary_present {
        rejected("Binary file not found in package"@)
    } else if !frontend_present {
        rejected("Frontend directory not found in package"@)
    } else {
        validation_of(meta, md5_hex(binary), current_version)
    }
}

fn reject(error: &str) -> (v: OtaValidation)
    ensures
        v@ == rejected(error@),
{
    OtaValidation {
        valid: false,
        is_newer: false,
        binary_md5_match: false,
        frontend_md5_match: false,
        arch_match: false,
        error: Some(error.to_string()),
    }
}

/// Judges a package by the digest of its binary, once both parts were found.
pub fn validate_digest(meta: &OtaMeta, digest: &str, current_version: &str) -> (v: OtaValidation)
    ensures
        v@ == validation_of(meta@, digest@, current_version@),
{
    let binary_md5_match: bool = str_eq(digest, meta.binary_md5.as_str());
    let arch_match: bool = str_eq(meta.arch.as_str(), "aarch64-unknown-linux-musl");
    let is_newer: bool = compare_versions(meta.version.as_str(), current_version);
    let valid: bool = binary_md5_match && arch_match;
    let error: Option<String> = if valid {
        None
    } else {
        let mut message = String::new();
        if !binary_md5_match {
            message.append("Binary MD5 mismatch: expected=");
            message.append(meta.binary_md5.as_str());
            message.append(", actual=");
            message.append(digest);
            assert(message@ == md5_mismatch(meta.binary_md5@, digest@));
        }
        if !arch_match {
            if !binary_md5_match {
                message.append("; ");
            }
            message.append("Arch mismatch: expected=aarch64-unknown-linux-musl, actual=");
            message.append(meta.arch.as_str());
            proof {
                let arch = arch_mismatch(meta.arch@);
                if binary_md5_match {
                    assert(message@ == arch);
                } else {
                    let md5 = md5_mismatch(meta.binary_md5@, digest@);
                    assert(message@ == md5 + "; "@ + arch);
                }
            }
        }
        Some(message)
    };
    OtaValidation {
        valid,
        is_newer,
        binary_md5_match,
        frontend_md5_match: true,
        arch_match,
        error,
    }
}

/// Checks an unpacked package. `binary_present` and `frontend_present` say
/// whether its two parts were found; `binary` holds the bytes of the binary and
/// is looked at only where both were.
pub fn validate_ota_package(
    meta: &OtaMeta,
    binary_present: bool,
    frontend_present: bool,
    binary: &[u8],
    current_version: &str,
) -> (v: OtaValidation)
    ensures
        v@ == validate_spec(meta@, binary_present, frontend_present, binary@, current_version@),
{
    if !binary_present {
        return reject("Binary file not found in package");
    }
    if !frontend_present {
        return reject("Frontend directory not found in package");
    }
    let digest = md5_hex_digest(binary);
    validate_digest(meta, digest.as_str(), current_version)
}

/// The commit that the running build was made from: the one that the build
/// recorded, or `unknown`.
pub fn get_current_commit(recorded: Option<&str>) -> (commit: String)
    ensures
        commit@ == match recorded {
            Some(c) => c@,
            None => "unknown"@,
        },
{
    match recorded {
        Some(c) => c.to_string(),
        None => "unknown".to_string(),
    }
}

/// What the device reports of its own version and of an update that waits.
#[derive(Debug, Clone, PartialEq, Eq)]
pub struct OtaStatusResponse {
    pub current_version: String,
    pub current_commit: String,
    pub pending_update: bool,
    pub pending_meta: Option<OtaMeta>,
}

/// Puts the status report together. `pending_meta` is what a staged package
/// says of itself, if one is staged.
pub fn get_ota_status(
    current_version: &str,
    recorded_commit: Option<&str>,
    pending_meta: Option<OtaMeta>,
) -> (status: OtaStatusResponse)
    ensures
        status.current_version@ == current_version@,
        status.current_commit@ == match recorded_commit {
            Some(c) => c@,
            None => "unknown"@,
        },
        status.pending_update == pending_meta is Some,
        status.pending_meta == pending_meta,
{
    OtaStatusResponse {
        current_version: current_version.to_string(),
        current_commit: get_current_commit(recorded_commit),
        pending_update: pending_meta.is_some(),
        pending_meta,
    }
}

} // verus!
