use gateway_plugin::fault::{AdminReason, ProviderAdminErrorKind, ProviderErrorKind};
use gateway_plugin::json::{encode, json_eq, Json};
use gateway_plugin::request_profile::{
    DesktopReleaseStatus, ProfileDirectory, RequestProfileAttribute, RequestProfileDescriptor,
    RequestProfileLimits, RequestProfileOption, RequestProfilePresentation, RequestProfileRefresh,
    RequestProfileRelease, RequestProfileTarget,
};

const LIMITS: RequestProfileLimits =
    RequestProfileLimits { maximum_sequence: 100, maximum_bytes: 1_000 };

fn choice(name: &str) -> Vec<(String, Json)> {
    vec![("client".to_owned(), Json::text(name))]
}

fn release() -> RequestProfileRelease {
    RequestProfileRelease {
        status: DesktopReleaseStatus::UpdateAvailable,
        checked_at_ms: Some(0),
        latest_version: Some("2".to_owned()),
        latest_build: None,
        published_at_ms: None,
        minimum_system_version: None,
        hardware_requirements: None,
        download_url: Some("https://example.com/app".to_owned()),
        download_size: Some(12),
        signature_present: true,
        error: None,
    }
}

fn option(id: &str, version: &str) -> RequestProfileOption {
    RequestProfileOption {
        id: id.to_owned(),
        label: format!("Client {id}"),
        description: None,
        configuration: choice(id),
        resolved: vec![("version".to_owned(), Json::text(version))],
        presentation: RequestProfilePresentation {
            product: "client".to_owned(),
            version: version.to_owned(),
            build: None,
            target: RequestProfileTarget {
                os_type: "linux".to_owned(),
                os_version: "1".to_owned(),
                arch: "x86_64".to_owned(),
                terminal: "xterm".to_owned(),
            },
            user_agent: "client/1".to_owned(),
            attributes: vec![RequestProfileAttribute {
                label: "a".to_owned(),
                value: String::new(),
            }],
            verified_at_ms: Some(1_500),
            release: Some(release()),
        },
    }
}

fn descriptor(version: &str) -> RequestProfileDescriptor {
    RequestProfileDescriptor {
        default_configuration: choice("b"),
        options: vec![option("a", version), option("b", version)],
    }
}

fn directory() -> ProfileDirectory {
    ProfileDirectory::prepare_descriptor(descriptor("1"), b"first", "custom")
        .ok()
        .expect("a directory")
}

#[test]
fn a_choice_stands_for_what_was_declared() {
    let directory = directory();
    assert_eq!(directory.sequence, 0);
    assert_eq!(directory.default, 1);
    let resolved = directory.resolve(&choice("a")).ok().expect("a choice");
    assert!(json_eq(
        &Json::Object(resolved),
        &Json::Object(vec![("version".to_owned(), Json::text("1"))])
    ));
    assert_eq!(
        directory.resolve(&choice("c")).err().map(|error| error.kind),
        Some(ProviderErrorKind::InvalidRequest)
    );
    assert!(json_eq(
        &Json::Object(directory.default_configuration()),
        &Json::Object(choice("b"))
    ));
    assert_eq!(directory.dashboard(None).expect("the default").product, "client");
    assert!(directory.dashboard(Some(&choice("c"))).is_none());
    assert!(directory.dashboard(Some(&choice("a"))).is_some());
}

#[test]
fn declarations_are_checked() {
    let refused = |descriptor: RequestProfileDescriptor| {
        ProfileDirectory::prepare_descriptor(descriptor, b"x", "custom")
            .err()
            .map(|error| error.reason)
            == Some(AdminReason::RequestProfiles)
    };
    assert!(!refused(descriptor("1")));
    assert!(refused(RequestProfileDescriptor { options: vec![], ..descriptor("1") }));
    assert!(refused(RequestProfileDescriptor {
        default_configuration: choice("c"),
        ..descriptor("1")
    }));
    assert!(refused(RequestProfileDescriptor {
        options: vec![option("b", "1"), option("b", "1")],
        ..descriptor("1")
    }));
    let with = |change: fn(&mut RequestProfileOption)| {
        let mut declared = descriptor("1");
        change(&mut declared.options[0]);
        declared
    };
    assert!(refused(with(|one| one.id = "a b".to_owned())));
    assert!(refused(with(|one| one.label = " a".to_owned())));
    assert!(refused(with(|one| one.presentation.version = String::new())));
    assert!(refused(with(|one| one.presentation.verified_at_ms = Some(i64::MAX))));
    assert!(refused(with(|one| {
        one.presentation.release.as_mut().expect("a release").download_url =
            Some("ftp://example.com/".to_owned());
    })));
    assert!(refused(with(|one| {
        one.resolved = vec![("x".to_owned(), Json::text(&"x".repeat(65_536)))];
    })));
}

fn refresh(sequence: u64, version: &str) -> RequestProfileRefresh {
    RequestProfileRefresh { sequence, profiles: descriptor(version) }
}

#[test]
fn newer_lists_take_the_place_of_older_ones() {
    let mut directory = directory();
    assert!(directory.apply_refresh(refresh(2, "2"), 10, b"second", LIMITS).is_ok());
    assert_eq!(directory.sequence, 2);
    assert_eq!(directory.dashboard(None).expect("the default").version, "2");
    assert!(directory.apply_refresh(refresh(1, "1"), 10, b"older", LIMITS).is_ok());
    assert_eq!(directory.dashboard(None).expect("the default").version, "2");
    assert!(directory.apply_refresh(refresh(2, "2"), 10, b"second", LIMITS).is_ok());
    assert!(directory.apply_refresh(refresh(2, "3"), 10, b"another second", LIMITS).is_err());
    assert_eq!(directory.sequence, 2);
}

#[test]
fn newer_lists_keep_what_people_chose() {
    let mut directory = directory();
    let mut fewer = refresh(3, "3");
    fewer.profiles.options.remove(0);
    assert!(directory.apply_refresh(fewer, 10, b"fewer", LIMITS).is_err());
    let mut moved = refresh(3, "3");
    moved.profiles.default_configuration = choice("a");
    assert!(directory.apply_refresh(moved, 10, b"moved", LIMITS).is_err());
    let mut renamed = refresh(3, "3");
    renamed.profiles.options[0] = option("c", "3");
    assert!(directory.apply_refresh(renamed, 10, b"renamed", LIMITS).is_err());
    assert!(directory.apply_refresh(refresh(0, "3"), 10, b"zero", LIMITS).is_err());
    assert!(directory.apply_refresh(refresh(101, "3"), 10, b"high", LIMITS).is_err());
    assert!(directory.apply_refresh(refresh(3, "3"), 1_001, b"long", LIMITS).is_err());
    assert_eq!(directory.sequence, 0);
    assert!(directory.apply_refresh(refresh(100, "3"), 1_000, b"good", LIMITS).is_ok());
}

fn parsed(json: &Json) -> serde_json::Value {
    serde_json::from_slice(&encode(json).expect("writable")).expect("a JSON document")
}

#[test]
fn clients_are_shown_to_people() {
    let directory = directory();
    let options = parsed(&directory.options());
    let wanted: serde_json::Value = serde_json::from_str(
        r#"{"presets":[
            {"id":"a","label":"Client a","description":null,"configuration":{"client":"a"}},
            {"id":"b","label":"Client b","description":null,"configuration":{"client":"b"}}
        ],"defaultConfiguration":{"client":"b"}}"#,
    )
    .expect("a JSON document");
    assert_eq!(options, wanted);
    let preview = parsed(&directory.preview(&choice("a")).ok().expect("a preview"));
    let wanted: serde_json::Value = serde_json::from_str(
        r#"{"configuration":{"client":"a"},"product":"client","version":"1","build":null,
            "target":{"osType":"linux","osVersion":"1","arch":"x86_64","terminal":"xterm"},
            "userAgent":"client/1","attributes":[{"label":"a","value":""}],
            "verifiedAt":"1970-01-01T00:00:01.500Z",
            "release":{"status":"update_available","checkedAt":"1970-01-01T00:00:00Z",
                "latestVersion":"2","latestBuild":null,"publishedAt":null,
                "minimumSystemVersion":null,"hardwareRequirements":null,
                "downloadUrl":"https://example.com/app","downloadSize":12,
                "signaturePresent":true,"error":null}}"#,
    )
    .expect("a JSON document");
    assert_eq!(preview, wanted);
    assert_eq!(
        directory.preview(&choice("c")).err().map(|error| error.kind),
        Some(ProviderAdminErrorKind::Invalid)
    );
}

#[test]
fn moments_are_shown_as_chrono_shows_them() {
    let mut declared = descriptor("1");
    for (ms, option) in [(1_500_i64, 0_usize), (86_400_000, 1)] {
        declared.options[option].presentation.verified_at_ms = Some(ms);
    }
    let directory = ProfileDirectory::prepare_descriptor(declared, b"x", "custom")
        .ok()
        .expect("a directory");
    for (name, expected) in [("a", "1970-01-01T00:00:01.500Z"), ("b", "1970-01-02T00:00:00Z")] {
        let shown = parsed(&directory.preview(&choice(name)).ok().expect("a preview"));
        assert_eq!(shown["verifiedAt"], expected);
    }
}
