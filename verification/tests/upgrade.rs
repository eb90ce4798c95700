use akc::upgrade::{
    confirm_answer, download_url, find_published_checksum, hex_encode, latest_release_url,
    parse_release, plan_upgrade, platform_binary_name, release_by_tag_url, release_tag, strip_v,
    verify_checksum, Direction, ParsedVersion, UpgradeError, UpgradePlan, VersionOrder,
};

const ABC_SHA256: &str = "ba7816bf8f01cfea414140de5dae2223b00361a396177a9cb410ff61f20015ad";

#[test]
fn urls() {
    assert_eq!(latest_release_url(), "https://api.github.com/repos/ataidecarlos/akc/releases/latest");
    assert_eq!(
        release_by_tag_url("v1.0.2"),
        "https://api.github.com/repos/ataidecarlos/akc/releases/tags/v1.0.2"
    );
    assert_eq!(
        download_url("v2.0.0", "akc.exe"),
        "https://github.com/ataidecarlos/akc/releases/download/v2.0.0/akc.exe"
    );
}

#[test]
fn platform_names() {
    assert_eq!(platform_binary_name("windows", "x86_64"), Ok("akc.exe".to_string()));
    assert_eq!(platform_binary_name("linux", "x86_64"), Ok("akc-x86_64".to_string()));
    assert_eq!(platform_binary_name("linux", "aarch64"), Ok("akc-arm64".to_string()));
    assert_eq!(
        platform_binary_name("macos", "aarch64"),
        Err(UpgradeError::UnsupportedPlatform { os: "macos".into(), arch: "aarch64".into() })
    );
}

#[test]
fn versions() {
    assert_eq!(strip_v("v1.0.2"), "1.0.2");
    assert_eq!(strip_v("1.0.2"), "1.0.2");
    assert_eq!(strip_v("vv1"), "v1");
    let a = ParsedVersion::parse("1.0.2").unwrap();
    let b = ParsedVersion::parse("1.10.0").unwrap();
    let pre = ParsedVersion::parse("1.10.0-rc.1").unwrap();
    assert_eq!(a.compare(&b), VersionOrder::Less);
    assert_eq!(b.compare(&a), VersionOrder::Greater);
    assert_eq!(pre.compare(&b), VersionOrder::Less);
    assert_eq!(a.compare(&a), VersionOrder::Equal);
    assert!(ParsedVersion::parse("1.0").is_none());
    assert_eq!(release_tag(&pre), "v1.10.0-rc.1");
}

#[test]
fn release_parsing() {
    let info = parse_release(Some("v2.0.0"), "linux", "x86_64").unwrap();
    assert_eq!(info.tag_name, "v2.0.0");
    assert_eq!(info.version.to_text(), "2.0.0");
    assert_eq!(info.binary_name, "akc-x86_64");
    assert_eq!(
        info.download_url,
        "https://github.com/ataidecarlos/akc/releases/download/v2.0.0/akc-x86_64"
    );
    assert_eq!(
        info.checksum_url,
        "https://github.com/ataidecarlos/akc/releases/download/v2.0.0/checksums.txt"
    );
    assert!(matches!(parse_release(None, "windows", "x86_64"), Err(UpgradeError::MissingTagName)));
    assert_eq!(
        parse_release(Some("vnext"), "windows", "x86_64").err(),
        Some(UpgradeError::InvalidVersion("vnext".to_string()))
    );
    // The tag is checked before the platform.
    assert_eq!(
        parse_release(Some("vnext"), "plan9", "mips").err(),
        Some(UpgradeError::InvalidVersion("vnext".to_string()))
    );
    assert_eq!(
        parse_release(Some("v1.0.0"), "plan9", "mips").err(),
        Some(UpgradeError::UnsupportedPlatform { os: "plan9".into(), arch: "mips".into() })
    );
}

#[test]
fn upgrade_plans() {
    assert_eq!(plan_upgrade(false, false, false, VersionOrder::Equal), UpgradePlan::AlreadyUpToDate);
    assert_eq!(plan_upgrade(false, false, false, VersionOrder::Greater), UpgradePlan::AlreadyUpToDate);
    assert_eq!(
        plan_upgrade(false, false, false, VersionOrder::Less),
        UpgradePlan::Confirm(Direction::Upgrade)
    );
    assert_eq!(
        plan_upgrade(true, false, false, VersionOrder::Equal),
        UpgradePlan::Confirm(Direction::Downgrade)
    );
    assert_eq!(
        plan_upgrade(false, false, true, VersionOrder::Greater),
        UpgradePlan::Confirm(Direction::Downgrade)
    );
    assert_eq!(plan_upgrade(false, true, false, VersionOrder::Less), UpgradePlan::Install);
}

#[test]
fn confirmation_answers() {
    assert!(confirm_answer("y\n"));
    assert!(confirm_answer("  Y "));
    assert!(!confirm_answer("yes"));
    assert!(!confirm_answer(""));
    assert!(!confirm_answer("n"));
}

#[test]
fn hex_of_digest() {
    assert_eq!(hex_encode(&[0x00, 0x0f, 0xa5, 0xff]), "000fa5ff");
    assert_eq!(hex_encode(&[]), "");
}

#[test]
fn checksum_lines() {
    let text = "\nabc  akc.exe\r\n  111 akc-x86_64 extra\n222\takc-x86_64\n333 akc-x86_64\n";
    assert_eq!(find_published_checksum(text, "akc.exe"), Some("abc".to_string()));
    assert_eq!(find_published_checksum(text, "akc-x86_64"), Some("222".to_string()));
    assert_eq!(find_published_checksum(text, "akc-arm64"), None);
}

#[test]
fn checksum_verification() {
    let good = format!("{ABC_SHA256}  akc.exe\n");
    assert_eq!(verify_checksum(b"abc", good.as_bytes(), "akc.exe"), Ok(()));
    assert_eq!(
        verify_checksum(b"abc", good.as_bytes(), "akc-arm64"),
        Err(UpgradeError::ChecksumNotFound("akc-arm64".to_string()))
    );
    let upper = format!("{}  akc.exe\n", ABC_SHA256.to_uppercase());
    assert_eq!(
        verify_checksum(b"abc", upper.as_bytes(), "akc.exe"),
        Err(UpgradeError::ChecksumMismatch {
            expected: ABC_SHA256.to_uppercase(),
            actual: ABC_SHA256.to_string()
        })
    );
}

#[test]
fn checksum_text_with_invalid_utf8() {
    let mut data = b"\xff\xfe garbage\n".to_vec();
    data.extend_from_slice(format!("{ABC_SHA256} akc-arm64\n").as_bytes());
    assert_eq!(verify_checksum(b"abc", &data, "akc-arm64"), Ok(()));
}
