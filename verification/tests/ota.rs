use udx710_backend::ota::{
    compare_versions, detect_zip_format, get_current_commit, get_ota_status,
    validate_digest, validate_ota_package, version_parts, OtaMeta, OtaValidation,
};

const ARCH: &str = "aarch64-unknown-linux-musl";
const MD5_OF_ABC: &str = "900150983cd24fb0d6963f7d28e17f72";

fn meta(version: &str, md5: &str, arch: &str) -> OtaMeta {
    OtaMeta { version: version.to_string(), binary_md5: md5.to_string(), arch: arch.to_string() }
}

#[test]
fn zip_magic() {
    assert!(detect_zip_format(&[0x50, 0x4B, 0x03, 0x04]));
    assert!(detect_zip_format(b"PK\x03\x04rest of the archive"));
    assert!(!detect_zip_format(&[0x1f, 0x8b, 0x08, 0x00]));
    assert!(!detect_zip_format(&[0x50, 0x4B, 0x03]));
    assert!(!detect_zip_format(&[0x50, 0x4B, 0x05, 0x06]));
    assert!(!detect_zip_format(&[]));
}

#[test]
fn version_parts_keep_numbers_only() {
    assert_eq!(version_parts("1.2.3"), vec![1, 2, 3]);
    assert_eq!(version_parts("1.x.3"), vec![1, 3]);
    assert_eq!(version_parts("v1.2"), vec![2]);
    assert_eq!(version_parts(""), Vec::<u32>::new());
    assert_eq!(version_parts("..7.."), vec![7]);
    assert_eq!(version_parts("+4.007.4294967295.4294967296"), vec![4, 7, 4294967295]);
    assert_eq!(version_parts("1.2-beta.3"), vec![1, 3]);
    assert_eq!(version_parts(" 1.2"), vec![2]);
    assert_eq!(version_parts("-1.+.2"), vec![2]);
    assert_eq!(version_parts("99999999999999999999999999.1"), vec![1]);
}

#[test]
fn versions_compare_place_by_place() {
    assert!(compare_versions("1.2.4", "1.2.3"));
    assert!(!compare_versions("1.2.3", "1.2.3"));
    assert!(!compare_versions("1.2.3", "1.2.4"));
    assert!(compare_versions("1.10.0", "1.9.9"));
    assert!(compare_versions("2.0", "1.99.99"));
    assert!(!compare_versions("1.99.99", "2.0"));
}

#[test]
fn shorter_version_counts_as_filled_with_zeros() {
    assert!(!compare_versions("1.2", "1.2.0"));
    assert!(!compare_versions("1.2.0", "1.2"));
    assert!(compare_versions("1.2.1", "1.2"));
    assert!(!compare_versions("1.2", "1.2.1"));
    assert!(!compare_versions("", ""));
    assert!(compare_versions("1", ""));
    assert!(!compare_versions("", "1"));
    assert!(!compare_versions("0.0.0", ""));
}

#[test]
fn pieces_that_are_no_numbers_are_left_out_before_comparing() {
    assert!(compare_versions("1.x.3", "1.2"));
    assert!(!compare_versions("v2.0", "1.0"));
    assert!(compare_versions("1.0.1-rc1.5", "1.0.4"));
}

#[test]
fn package_without_binary_or_frontend_is_rejected() {
    let m = meta("9.9.9", MD5_OF_ABC, ARCH);
    let missing_binary = validate_ota_package(&m, false, true, b"abc", "1.0.0");
    assert_eq!(
        missing_binary,
        OtaValidation {
            valid: false,
            is_newer: false,
            binary_md5_match: false,
            frontend_md5_match: false,
            arch_match: false,
            error: Some("Binary file not found in package".to_string()),
        }
    );
    let both_missing = validate_ota_package(&m, false, false, b"", "1.0.0");
    assert_eq!(both_missing, missing_binary);
    let missing_frontend = validate_ota_package(&m, true, false, b"abc", "1.0.0");
    assert_eq!(
        missing_frontend.error,
        Some("Frontend directory not found in package".to_string())
    );
    assert!(!missing_frontend.valid && !missing_frontend.frontend_md5_match);
}

#[test]
fn package_with_matching_digest_and_arch_is_valid() {
    let v = validate_ota_package(&meta("1.3.0", MD5_OF_ABC, ARCH), true, true, b"abc", "1.2.9");
    assert_eq!(
        v,
        OtaValidation {
            valid: true,
            is_newer: true,
            binary_md5_match: true,
            frontend_md5_match: true,
            arch_match: true,
            error: None,
        }
    );
    let same = validate_ota_package(&meta("1.2.9", MD5_OF_ABC, ARCH), true, true, b"abc", "1.2.9");
    assert!(same.valid && !same.is_newer);
}

#[test]
fn digest_is_of_the_bytes_given() {
    let empty = "d41d8cd98f00b204e9800998ecf8427e";
    assert!(validate_ota_package(&meta("1", empty, ARCH), true, true, b"", "1").valid);
    assert!(!validate_ota_package(&meta("1", empty, ARCH), true, true, b"abc", "1").valid);
    assert!(!validate_ota_package(&meta("1", "abc", ARCH), true, true, b"abc", "1").valid);
    let upper = MD5_OF_ABC.to_uppercase();
    assert!(!validate_ota_package(&meta("1", &upper, ARCH), true, true, b"abc", "1").valid);
}

#[test]
fn mismatches_are_named() {
    let wrong_md5 = validate_ota_package(&meta("2", "00ff", ARCH), true, true, b"abc", "1");
    assert!(!wrong_md5.valid && !wrong_md5.binary_md5_match && wrong_md5.arch_match);
    assert!(wrong_md5.frontend_md5_match && wrong_md5.is_newer);
    assert_eq!(
        wrong_md5.error,
        Some(format!("Binary MD5 mismatch: expected=00ff, actual={}", MD5_OF_ABC))
    );
    let wrong_arch =
        validate_ota_package(&meta("2", MD5_OF_ABC, "x86_64-unknown-linux-gnu"), true, true, b"abc", "1");
    assert!(!wrong_arch.valid && wrong_arch.binary_md5_match && !wrong_arch.arch_match);
    assert_eq!(
        wrong_arch.error,
        Some(
            "Arch mismatch: expected=aarch64-unknown-linux-musl, actual=x86_64-unknown-linux-gnu"
                .to_string()
        )
    );
    let both = validate_ota_package(&meta("0", "00ff", "arm"), true, true, b"abc", "1");
    assert_eq!(
        both.error,
        Some(format!(
            "Binary MD5 mismatch: expected=00ff, actual={}; Arch mismatch: expected=aarch64-unknown-linux-musl, actual=arm",
            MD5_OF_ABC
        ))
    );
    assert!(!both.is_newer);
}

#[test]
fn validate_digest_takes_the_digest_as_given() {
    let v = validate_digest(&meta("1.0.1", "feed", ARCH), "feed", "1.0.0");
    assert!(v.valid && v.is_newer && v.error.is_none());
    let w = validate_digest(&meta("1.0.1", "feed", ARCH), "beef", "1.0.0");
    assert_eq!(w.error, Some("Binary MD5 mismatch: expected=feed, actual=beef".to_string()));
}

#[test]
fn current_commit_defaults_to_unknown() {
    assert_eq!(get_current_commit(Some("abc1234")), "abc1234");
    assert_eq!(get_current_commit(None), "unknown");
    assert_eq!(get_current_commit(Some("")), "");
}

#[test]
fn status_reports_pending_update() {
    let none = get_ota_status("1.2.3", None, None);
    assert_eq!(none.current_version, "1.2.3");
    assert_eq!(none.current_commit, "unknown");
    assert!(!none.pending_update);
    assert_eq!(none.pending_meta, None);
    let m = meta("1.3.0", MD5_OF_ABC, ARCH);
    let some = get_ota_status("1.2.3", Some("abc1234"), Some(m.clone()));
    assert!(some.pending_update);
    assert_eq!(some.pending_meta, Some(m));
    assert_eq!(some.current_commit, "abc1234");
}
