use rbln_features::collector::daemon_features;
use rbln_features::collector::sysfs_features;
use rbln_features::collector::temp_file_name;
use rbln_features::collector::vendor_matches;
use rbln_features::collector::DaemonObservation;
use rbln_features::collector::RBLNFeaturesCollector;
use rbln_features::collector::SysfsDevice;
use rbln_features::errors::FeatureError;
use rbln_features::features::from_plain_text;
use rbln_features::features::RBLNFeatures;
use rbln_features::taxonomy::RBLNDeviceFamily;
use rbln_features::taxonomy::RBLNDeviceProduct;
use rbln_features::text::parse_u8;
use rbln_features::text::trim_string;
use rbln_features::text::u8_to_string;
use rbln_features::version::parse_version;
use rbln_features::version::split_semver;

fn dev(device_id: &str, sriov: Option<&str>) -> SysfsDevice {
    SysfsDevice {
        sriov_numvfs: sriov.map(|s| s.to_string()),
        device_id: device_id.to_string(),
    }
}

#[test]
fn taxonomy_known_ids() {
    let table = [
        ("1020", RBLNDeviceProduct::CA02),
        ("1021", RBLNDeviceProduct::CA02),
        ("1120", RBLNDeviceProduct::CA12),
        ("1121", RBLNDeviceProduct::CA12),
        ("1150", RBLNDeviceProduct::CA15),
        ("1220", RBLNDeviceProduct::CA22),
        ("1221", RBLNDeviceProduct::CA22),
        ("1250", RBLNDeviceProduct::CA25),
    ];
    for (id, product) in table {
        let got = RBLNDeviceProduct::from_device_id(id).unwrap();
        assert_eq!(got, product);
        assert_eq!(got.family().unwrap(), RBLNDeviceFamily::ATOM);
    }
}

#[test]
fn taxonomy_feature_strings() {
    assert_eq!(RBLNDeviceProduct::CA02.to_feature_string(), "RBLN-CA02");
    assert_eq!(RBLNDeviceProduct::CA12.to_feature_string(), "RBLN-CA12");
    assert_eq!(RBLNDeviceProduct::CA15.to_feature_string(), "RBLN-CA15");
    assert_eq!(RBLNDeviceProduct::CA22.to_feature_string(), "RBLN-CA22");
    assert_eq!(RBLNDeviceProduct::CA25.to_feature_string(), "RBLN-CA25");
    assert_eq!(RBLNDeviceFamily::ATOM.name(), "ATOM");
    assert_eq!(RBLNDeviceFamily::REBEL.name(), "REBEL");
}

#[test]
fn taxonomy_unknown_ids() {
    for id in ["", "1022", "9999", "CA02", "0x1020"] {
        let got = RBLNDeviceProduct::from_device_id(id);
        assert_eq!(got, Err(FeatureError::UnknownDeviceId));
    }
    assert_eq!(
        FeatureError::UnknownDeviceId.message(),
        "unknown device id"
    );
    // No product of the current table can trigger it, but the variant is
    // still part of the error surface.
    assert_eq!(
        FeatureError::UnknownProductName.message(),
        "unknown product name"
    );
}

#[test]
fn parse_version_with_dash_revision() {
    let (semver, revision) = parse_version("1.2.3-rc1");
    assert_eq!(semver, "1.2.3");
    assert_eq!(revision.as_deref(), Some("rc1"));
}

#[test]
fn parse_version_without_revision() {
    let (semver, revision) = parse_version("1.2.3");
    assert_eq!(semver, "1.2.3");
    assert_eq!(revision, None);
}

#[test]
fn parse_version_with_plus_revision() {
    let (semver, revision) = parse_version("1.2.3+build5");
    assert_eq!(semver, "1.2.3");
    assert_eq!(revision.as_deref(), Some("build5"));
}

#[test]
fn parse_version_with_tilde_revision() {
    let (semver, revision) = parse_version("2.0.1~beta-2");
    assert_eq!(semver, "2.0.1");
    assert_eq!(revision.as_deref(), Some("beta-2"));
}

#[test]
fn split_semver_three_components() {
    let (major, minor, patch) = split_semver("1.2.3").unwrap();
    assert_eq!((major.as_str(), minor.as_str(), patch.as_str()), ("1", "2", "3"));
}

#[test]
fn split_semver_too_few_components() {
    assert_eq!(split_semver("1.2"), Err(FeatureError::SemverSplit));
    assert_eq!(split_semver(""), Err(FeatureError::SemverSplit));
    assert_eq!(
        FeatureError::SemverSplit.message(),
        "failed to split semver with dots"
    );
}

#[test]
fn split_semver_extra_components_ignored() {
    let (major, minor, patch) = split_semver("1.2.3.4").unwrap();
    assert_eq!((major.as_str(), minor.as_str(), patch.as_str()), ("1", "2", "3"));
}

#[test]
fn empty_record_serializes_to_presence_only() {
    let features = RBLNFeatures::new();
    assert_eq!(features.to_plain_text(), "rebellions.ai/npu.present=false\n");
}

#[test]
fn full_record_serializes_in_fixed_order() {
    let dev_ids = vec!["1020".to_string()];
    let features = daemon_features(&dev_ids, &Some("1.2.3-rc1".to_string())).unwrap();
    assert_eq!(
        features.to_plain_text(),
        "rebellions.ai/npu.present=true\n\
         rebellions.ai/npu.count=1\n\
         rebellions.ai/npu.family=ATOM\n\
         rebellions.ai/npu.product=RBLN-CA02\n\
         rebellions.ai/driver-version.full=1.2.3\n\
         rebellions.ai/driver-version.major=1\n\
         rebellions.ai/driver-version.minor=2\n\
         rebellions.ai/driver-version.patch=3\n\
         rebellions.ai/driver-version.revision=rc1\n"
    );
}

#[test]
fn full_record_round_trips_through_text() {
    let dev_ids = vec!["1220".to_string(), "1250".to_string()];
    let features = daemon_features(&dev_ids, &Some("10.20.30-rc7".to_string())).unwrap();
    let text = features.to_plain_text();
    let parsed = from_plain_text(&text).unwrap();
    assert_eq!(parsed.npu_present, features.npu_present);
    assert_eq!(parsed.npu_count, features.npu_count);
    assert_eq!(parsed.npu_family, features.npu_family);
    assert_eq!(parsed.npu_product, features.npu_product);
    assert_eq!(parsed.driver_version_full, features.driver_version_full);
    assert_eq!(parsed.driver_version_major, features.driver_version_major);
    assert_eq!(parsed.driver_version_minor, features.driver_version_minor);
    assert_eq!(parsed.driver_version_patch, features.driver_version_patch);
    assert_eq!(parsed.driver_version_revision, features.driver_version_revision);
}

#[test]
fn partial_records_round_trip_through_text() {
    let devices = vec![dev("0x1150\n", None)];
    let partial = [
        sysfs_features(&Vec::new(), &None).unwrap(),
        sysfs_features(&devices, &None).unwrap(),
        sysfs_features(&devices, &Some("2.1-rc2\n".to_string())).unwrap(),
        sysfs_features(&Vec::new(), &Some("1.2.3\n".to_string())).unwrap(),
    ];
    for features in partial {
        let parsed = from_plain_text(&features.to_plain_text()).unwrap();
        assert_eq!(parsed.npu_present, features.npu_present);
        assert_eq!(parsed.npu_count, features.npu_count);
        assert_eq!(parsed.npu_family, features.npu_family);
        assert_eq!(parsed.npu_product, features.npu_product);
        assert_eq!(parsed.driver_version_full, features.driver_version_full);
        assert_eq!(parsed.driver_version_major, features.driver_version_major);
        assert_eq!(parsed.driver_version_minor, features.driver_version_minor);
        assert_eq!(parsed.driver_version_patch, features.driver_version_patch);
        assert_eq!(parsed.driver_version_revision, features.driver_version_revision);
    }
}

#[test]
fn from_plain_text_rejects_garbage() {
    assert!(from_plain_text("").is_none());
    assert!(from_plain_text("nonsense\n").is_none());
    assert!(from_plain_text("rebellions.ai/npu.present=maybe\n").is_none());
}

#[test]
fn sysfs_no_matching_entries_reports_absent() {
    let features = sysfs_features(&Vec::new(), &None).unwrap();
    assert!(!features.npu_present);
    assert_eq!(features.npu_count, None);
    assert_eq!(features.npu_family, None);
    assert_eq!(features.npu_product, None);
    let text = features.to_plain_text();
    assert_eq!(text, "rebellions.ai/npu.present=false\n");
    assert!(!text.contains("npu.count"));
    assert!(!text.contains("npu.family"));
    assert!(!text.contains("npu.product"));
}

#[test]
fn sysfs_counts_devices_and_takes_first_product() {
    let devices = vec![
        dev("0x1220\n", None),
        dev("0x1020\n", Some("0\n")),
    ];
    let features = sysfs_features(&devices, &None).unwrap();
    assert!(features.npu_present);
    assert_eq!(features.npu_count, Some(2));
    assert_eq!(features.npu_family.as_deref(), Some("ATOM"));
    assert_eq!(features.npu_product.as_deref(), Some("RBLN-CA22"));
    assert_eq!(features.driver_version_full, None);
}

#[test]
fn sysfs_excludes_virtualized_physical_functions() {
    let devices = vec![
        dev("0x1021\n", Some("2\n")),
        dev("0x1020\n", Some("0\n")),
        dev("0x1120\n", None),
    ];
    let features = sysfs_features(&devices, &None).unwrap();
    assert_eq!(features.npu_count, Some(2));
    assert_eq!(features.npu_product.as_deref(), Some("RBLN-CA02"));
}

#[test]
fn sysfs_all_entries_virtualized_reports_absent() {
    let devices = vec![dev("0x1021\n", Some("4\n"))];
    let features = sysfs_features(&devices, &None).unwrap();
    assert!(!features.npu_present);
    assert_eq!(features.npu_count, None);
}

#[test]
fn sysfs_unknown_device_id_is_hard_error() {
    let devices = vec![dev("0xdead\n", None)];
    assert!(matches!(
        sysfs_features(&devices, &None),
        Err(FeatureError::UnknownDeviceId)
    ));
}

#[test]
fn sysfs_unreadable_sriov_count_is_hard_error() {
    let devices = vec![dev("0x1020\n", Some("abc\n"))];
    assert!(matches!(
        sysfs_features(&devices, &None),
        Err(FeatureError::InvalidNumber)
    ));
    assert_eq!(
        FeatureError::InvalidNumber.message(),
        "invalid numeric attribute"
    );
}

#[test]
fn sysfs_version_enrichment_is_best_effort() {
    let devices = vec![dev("0x1150\n", None)];
    let features = sysfs_features(&devices, &Some("2.1-rc2\n".to_string())).unwrap();
    assert_eq!(features.driver_version_full.as_deref(), Some("2.1"));
    assert_eq!(features.driver_version_revision.as_deref(), Some("rc2"));
    assert_eq!(features.driver_version_major, None);
    assert_eq!(features.driver_version_minor, None);
    assert_eq!(features.driver_version_patch, None);
    assert_eq!(features.npu_product.as_deref(), Some("RBLN-CA15"));
}

#[test]
fn sysfs_version_with_three_components() {
    let devices = vec![dev("0x1020\n", None)];
    let features = sysfs_features(&devices, &Some("3.4.5+g1ab2\n".to_string())).unwrap();
    assert_eq!(features.driver_version_full.as_deref(), Some("3.4.5"));
    assert_eq!(features.driver_version_major.as_deref(), Some("3"));
    assert_eq!(features.driver_version_minor.as_deref(), Some("4"));
    assert_eq!(features.driver_version_patch.as_deref(), Some("5"));
    assert_eq!(features.driver_version_revision.as_deref(), Some("g1ab2"));
}

#[test]
fn sysfs_driver_version_without_devices() {
    let features = sysfs_features(&Vec::new(), &Some("1.2.3\n".to_string())).unwrap();
    assert!(!features.npu_present);
    assert_eq!(features.driver_version_full.as_deref(), Some("1.2.3"));
    assert_eq!(features.driver_version_major.as_deref(), Some("1"));
}

#[test]
fn daemon_unsplittable_version_is_hard_error() {
    let dev_ids = vec!["1020".to_string()];
    assert!(matches!(
        daemon_features(&dev_ids, &Some("1.2".to_string())),
        Err(FeatureError::SemverSplit)
    ));
}

#[test]
fn daemon_no_version_keeps_device_fields() {
    let dev_ids = vec!["1120".to_string(), "1150".to_string(), "1220".to_string()];
    let features = daemon_features(&dev_ids, &None).unwrap();
    assert!(features.npu_present);
    assert_eq!(features.npu_count, Some(3));
    assert_eq!(features.npu_product.as_deref(), Some("RBLN-CA12"));
    assert_eq!(features.npu_family.as_deref(), Some("ATOM"));
    assert_eq!(features.driver_version_full, None);
}

#[test]
fn daemon_empty_listing_reports_absent() {
    let features = daemon_features(&Vec::new(), &None).unwrap();
    assert!(!features.npu_present);
    assert_eq!(features.to_plain_text(), "rebellions.ai/npu.present=false\n");
}

#[test]
fn daemon_unknown_device_id_is_hard_error() {
    let dev_ids = vec!["ffff".to_string()];
    assert!(matches!(
        daemon_features(&dev_ids, &None),
        Err(FeatureError::UnknownDeviceId)
    ));
}

fn collector(no_timestamp: bool) -> RBLNFeaturesCollector {
    RBLNFeaturesCollector::new(
        "http://127.0.0.1:50051".to_string(),
        "/tmp/rbln-features".to_string(),
        no_timestamp,
    )
}

#[test]
fn daemon_failure_falls_back_to_sysfs() {
    let devices = vec![dev("0x1020\n", None), dev("0x1021\n", Some("0\n"))];
    let kernel_version = Some("1.2.3-rc1\n".to_string());
    let c = collector(true);
    let direct = sysfs_features(&devices, &kernel_version).unwrap();
    for observation in [DaemonObservation::Unavailable, DaemonObservation::ListFailed] {
        let record = c
            .collect_features(&observation, &devices, &kernel_version)
            .unwrap();
        assert_eq!(record.to_plain_text(), direct.to_plain_text());
    }
    let bad_version = DaemonObservation::Listed {
        dev_ids: vec!["1020".to_string()],
        driver_version: Some("1.2".to_string()),
    };
    let record = c
        .collect_features(&bad_version, &devices, &kernel_version)
        .unwrap();
    assert_eq!(record.to_plain_text(), direct.to_plain_text());
}

#[test]
fn daemon_success_ignores_sysfs_state() {
    let devices = vec![dev("0x1250\n", None)];
    let c = collector(true);
    let observation = DaemonObservation::Listed {
        dev_ids: vec!["1020".to_string()],
        driver_version: None,
    };
    let record = c
        .collect_features(&observation, &devices, &Some("9.9.9\n".to_string()))
        .unwrap();
    assert_eq!(record.npu_product.as_deref(), Some("RBLN-CA02"));
    assert_eq!(record.driver_version_full, None);
}

#[test]
fn render_output_prepends_expiry_line() {
    let features = RBLNFeatures::new();
    let c = collector(false);
    let rendered = c.render_output(&features, &Some("2024-01-02T03:04:05+00:00".to_string()));
    assert_eq!(
        rendered,
        "# +expiry-time=2024-01-02T03:04:05+00:00\nrebellions.ai/npu.present=false\n"
    );
}

#[test]
fn render_output_suppresses_expiry_when_configured() {
    let features = RBLNFeatures::new();
    let c = collector(true);
    let rendered = c.render_output(&features, &Some("2024-01-02T03:04:05+00:00".to_string()));
    assert_eq!(rendered, "rebellions.ai/npu.present=false\n");
}

#[test]
fn repeated_passes_differ_only_in_expiry_line() {
    let devices = vec![dev("0x1020\n", Some("0\n"))];
    let kernel_version = Some("1.2.3-rc1\n".to_string());
    let c = collector(false);
    let first = c.render_output(
        &sysfs_features(&devices, &kernel_version).unwrap(),
        &Some("2024-01-02T03:04:05+00:00".to_string()),
    );
    let second = c.render_output(
        &sysfs_features(&devices, &kernel_version).unwrap(),
        &Some("2024-01-02T04:04:05+00:00".to_string()),
    );
    let first_body = first.split_once('\n').unwrap().1;
    let second_body = second.split_once('\n').unwrap().1;
    assert_ne!(first, second);
    assert_eq!(first_body, second_body);
}

#[test]
fn temp_file_name_is_hidden_and_distinct() {
    assert_eq!(temp_file_name("rbln-features"), ".rbln-features");
    assert_ne!(temp_file_name("x"), "x");
}

#[test]
fn vendor_filter_matches_exact_vendor_only() {
    assert!(vendor_matches("0x1eff\n"));
    assert!(vendor_matches("  0x1eff  "));
    assert!(!vendor_matches("0x8086\n"));
    assert!(!vendor_matches(""));
    assert!(!vendor_matches("0x1eff extra"));
}

#[test]
fn decimal_helpers_round_trip() {
    assert_eq!(u8_to_string(0), "0");
    assert_eq!(u8_to_string(7), "7");
    assert_eq!(u8_to_string(42), "42");
    assert_eq!(u8_to_string(255), "255");
    assert_eq!(parse_u8("0"), Some(0));
    assert_eq!(parse_u8("255"), Some(255));
    assert_eq!(parse_u8("007"), Some(7));
    assert_eq!(parse_u8("256"), None);
    assert_eq!(parse_u8(""), None);
    assert_eq!(parse_u8("1a"), None);
}

#[test]
fn trim_matches_std_trim() {
    for s in ["", "  ", "a", " a ", "\t0x1eff\n", "1.2.3-rc1\n", "\u{a0}x\u{3000}"] {
        assert_eq!(trim_string(s), s.trim());
    }
}
