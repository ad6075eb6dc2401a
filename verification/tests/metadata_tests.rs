use tuf::jsonval::JsonValue;
use tuf::DelegatedRole;
use tuf::Delegations;
use tuf::Error;
use tuf::Role;
use tuf::RoleDefinition;
use tuf::RootMetadata;
use tuf::SignedMetadata;
use tuf::SnapshotMetadata;
use tuf::TargetPaths;
use tuf::TargetsMetadata;
use tuf::TimestampMetadata;

fn obj(members: Vec<(&str, JsonValue)>) -> JsonValue {
    JsonValue::Object(members.into_iter().map(|(k, v)| (k.to_string(), v)).collect())
}

fn s(x: &str) -> JsonValue {
    JsonValue::Str(x.to_string())
}

fn str_array(xs: Vec<&str>) -> JsonValue {
    JsonValue::Array(xs.into_iter().map(s).collect())
}

#[test]
fn delegated_role_could_have_target() {
    let vectors = vec![
        ("foo", "foo", true),
        ("foo/", "foo/bar", true),
        ("foo", "foo/bar", false),
        ("foo/bar", "foo/baz", false),
        ("foo/bar/", "foo/bar/baz", true),
    ];

    for &(prefix, target, success) in vectors.iter() {
        let delegation = DelegatedRole {
            name: "".to_string(),
            key_ids: Vec::new(),
            threshold: 1,
            terminating: false,
            paths: TargetPaths::Patterns(vec![prefix.to_string()]),
        };

        assert!(
            !success ^ delegation.could_have_target(target),
            "{}",
            format!("Prefix {} should have target {}: {}", prefix, target, success)
        );
    }
}

#[test]
fn role_names() {
    assert_eq!(Role::from_str("Root"), Ok(Role::Root));
    assert_eq!(Role::from_str("Targets"), Ok(Role::Targets));
    assert_eq!(Role::from_str("Timestamp"), Ok(Role::Timestamp));
    assert_eq!(Role::from_str("Snapshot"), Ok(Role::Snapshot));
    assert_eq!(
        Role::from_str("root"),
        Err(Error::UnknownRole("root".to_string()))
    );
    assert_eq!(Role::Root.name(), "root");
    assert_eq!(Role::TargetsDelegation("sub".to_string()).name(), "sub");
}

fn role_def_json(keyids: Vec<&str>, threshold: i64) -> JsonValue {
    obj(vec![
        ("keyids", str_array(keyids)),
        ("threshold", JsonValue::Int(threshold)),
    ])
}

#[test]
fn role_definition_threshold_bounds() {
    // a threshold below one is rejected
    let r = RoleDefinition::parse(&role_def_json(vec!["a"], 0));
    assert_eq!(r, Err(Error::InvalidThreshold));
    let r = RoleDefinition::parse(&role_def_json(vec!["a"], -3));
    assert_eq!(r, Err(Error::InvalidThreshold));
    // a threshold of one with any positive number of key IDs is accepted
    let d = RoleDefinition::parse(&role_def_json(vec!["a"], 1)).unwrap();
    assert_eq!(d.threshold, 1);
    assert_eq!(d.key_ids.len(), 1);
    let d = RoleDefinition::parse(&role_def_json(vec!["a", "b", "c"], 1)).unwrap();
    assert_eq!(d.key_ids.len(), 3);
    // missing fields are reported by name
    let r = RoleDefinition::parse(&obj(vec![("threshold", JsonValue::Int(1))]));
    assert_eq!(r, Err(Error::MissingField("keyids".to_string())));
    let r = RoleDefinition::parse(&obj(vec![("keyids", str_array(vec![]))]));
    assert_eq!(r, Err(Error::MissingField("threshold".to_string())));
}

#[test]
fn oversized_numbers_are_field_errors() {
    // a threshold beyond the representable range is malformed, not wrapped
    let r = RoleDefinition::parse(&role_def_json(vec!["a"], (i32::MAX as i64) + 1));
    assert!(matches!(r, Err(Error::InvalidFieldValue(ref f, _)) if f == "threshold"));
    // so is a version number
    let doc = obj(vec![
        ("expires", s("2030-06-15T10:20:30Z")),
        ("version", JsonValue::Int((i32::MAX as i64) + 1)),
        ("targets", obj(vec![])),
    ]);
    let r = TargetsMetadata::parse(&doc);
    assert!(matches!(r, Err(Error::InvalidFieldValue(ref f, _)) if f == "version"));
}

fn delegated_role_json(extra: Vec<(&str, JsonValue)>) -> JsonValue {
    let mut members = vec![
        ("name", s("sub")),
        ("keyids", str_array(vec!["a"])),
        ("threshold", JsonValue::Int(1)),
        ("terminating", JsonValue::Bool(false)),
    ];
    members.extend(extra);
    obj(members)
}

#[test]
fn delegations_reject_hash_prefixes() {
    // both paths and path_hash_prefixes present: one distinct error
    let both = delegated_role_json(vec![
        ("paths", str_array(vec!["foo/"])),
        ("path_hash_prefixes", str_array(vec!["ab"])),
    ]);
    let r = DelegatedRole::parse(&both);
    assert_eq!(
        r,
        Err(Error::InvalidFieldValue(
            "paths".to_string(),
            Box::new(Error::UnsupportedFeature("path_hash_prefixes".to_string()))
        ))
    );
    // only path_hash_prefixes: another distinct error
    let only = delegated_role_json(vec![("path_hash_prefixes", str_array(vec!["ab"]))]);
    let r = DelegatedRole::parse(&only);
    assert_eq!(
        r,
        Err(Error::UnsupportedFeature("path_hash_prefixes".to_string()))
    );
    // plain paths parse
    let ok = delegated_role_json(vec![("paths", str_array(vec!["foo/"]))]);
    let d = DelegatedRole::parse(&ok).unwrap();
    assert_eq!(d.name, "sub");
    assert_eq!(d.paths, TargetPaths::Patterns(vec!["foo/".to_string()]));
    assert!(!d.terminating);
}

#[test]
fn delegated_role_threshold_below_one_rejected() {
    for t in [0i64, -2] {
        let doc = obj(vec![
            ("name", s("sub")),
            ("keyids", str_array(vec!["a"])),
            ("threshold", JsonValue::Int(t)),
            ("terminating", JsonValue::Bool(false)),
            ("paths", str_array(vec!["foo/"])),
        ]);
        assert_eq!(DelegatedRole::parse(&doc), Err(Error::InvalidThreshold));
    }
}

fn signatures_json() -> JsonValue {
    JsonValue::Array(vec![obj(vec![
        ("keyid", s("aa")),
        ("method", s("ed25519")),
        ("sig", s("00ff")),
    ])])
}

#[test]
fn envelope_requires_signed_and_signatures() {
    // a document with only signatures is rejected, never treated as
    // trusted-with-zero-anything
    let missing_signed = obj(vec![("signatures", signatures_json())]);
    let r = SignedMetadata::<tuf::Root>::parse(&missing_signed);
    assert_eq!(r.unwrap_err(), Error::MissingField("signed".to_string()));

    let missing_signatures = obj(vec![("signed", obj(vec![]))]);
    let r = SignedMetadata::<tuf::Root>::parse(&missing_signatures);
    assert_eq!(r.unwrap_err(), Error::MissingField("signatures".to_string()));

    let good = obj(vec![
        ("signatures", signatures_json()),
        ("signed", obj(vec![("x", JsonValue::Int(1))])),
    ]);
    let m = SignedMetadata::<tuf::Root>::parse(&good).unwrap();
    assert_eq!(m.signatures.len(), 1);
    assert_eq!(m.signatures[0].key_id.0, "aa");
    // the payload is kept exactly as it arrived
    assert_eq!(
        tuf::canon::canonicalize(&m.signed).unwrap(),
        b"{\"x\":1}".to_vec()
    );
}

fn root_json() -> JsonValue {
    obj(vec![
        ("_type", s("Root")),
        (
            "keys",
            obj(vec![(
                "aa",
                obj(vec![("keytype", s("ed25519")), ("keyval", s("00ff"))]),
            )]),
        ),
        ("expires", s("2038-01-19T03:14:07Z")),
        ("version", JsonValue::Int(1)),
        ("consistent_snapshot", JsonValue::Bool(false)),
        (
            "roles",
            obj(vec![
                ("root", role_def_json(vec!["aa"], 1)),
                ("targets", role_def_json(vec!["aa"], 1)),
                ("timestamp", role_def_json(vec!["aa"], 1)),
                ("snapshot", role_def_json(vec!["aa"], 1)),
            ]),
        ),
    ])
}

fn root_json_without(field: &str) -> JsonValue {
    match root_json() {
        JsonValue::Object(members) => {
            JsonValue::Object(members.into_iter().filter(|(k, _)| k != field).collect())
        }
        _ => unreachable!(),
    }
}

#[test]
fn root_metadata_parses() {
    let m = RootMetadata::parse(&root_json()).unwrap();
    assert_eq!(m.version, 1);
    assert_eq!(m.expires.year, 2038);
    assert!(!m.consistent_snapshot);
    assert_eq!(m.keys.len(), 1);
    assert_eq!(m.root.threshold, 1);
    assert_eq!(m.snapshot.key_ids.len(), 1);
}

#[test]
fn root_metadata_field_errors() {
    let r = RootMetadata::parse(&root_json_without("_type"));
    assert_eq!(r, Err(Error::MissingField("_type".to_string())));
    let r = RootMetadata::parse(&root_json_without("keys"));
    assert_eq!(r, Err(Error::MissingField("keys".to_string())));
    let r = RootMetadata::parse(&root_json_without("expires"));
    assert_eq!(r, Err(Error::MissingField("expires".to_string())));
    let r = RootMetadata::parse(&root_json_without("version"));
    assert_eq!(r, Err(Error::MissingField("version".to_string())));
    let r = RootMetadata::parse(&root_json_without("consistent_snapshot"));
    assert_eq!(r, Err(Error::MissingField("consistent_snapshot".to_string())));
    let r = RootMetadata::parse(&root_json_without("roles"));
    assert_eq!(r, Err(Error::MissingField("roles".to_string())));
    // a wrong _type tag is a field error
    let mut wrong = match root_json() {
        JsonValue::Object(ms) => ms,
        _ => unreachable!(),
    };
    wrong[0].1 = s("Targets");
    let r = RootMetadata::parse(&JsonValue::Object(wrong));
    assert!(matches!(r, Err(Error::InvalidFieldValue(ref f, _)) if f == "_type"));
    // not an object at all
    let r = RootMetadata::parse(&JsonValue::Int(3));
    assert_eq!(r, Err(Error::MalformedDocument));
}

fn target_info_json() -> JsonValue {
    obj(vec![
        ("length", JsonValue::Int(42)),
        ("hashes", obj(vec![("sha256", s("00ff"))])),
    ])
}

#[test]
fn targets_metadata_parses() {
    let doc = obj(vec![
        ("expires", s("2030-06-15T10:20:30Z")),
        ("version", JsonValue::Int(2)),
        ("targets", obj(vec![("foo/bar", target_info_json())])),
    ]);
    let m = TargetsMetadata::parse(&doc).unwrap();
    assert_eq!(m.version, 2);
    assert!(m.delegations.is_none());
    assert_eq!(m.targets.len(), 1);
    assert_eq!(m.targets[0].0, "foo/bar");
    assert_eq!(m.targets[0].1.length, 42);
    assert_eq!(m.targets[0].1.hashes[0].0, tuf::HashType::Sha256);
    assert_eq!(m.targets[0].1.hashes[0].1 .0, vec![0x00, 0xFF]);
    assert!(m.targets[0].1.custom.is_none());
}

#[test]
fn targets_metadata_with_delegations() {
    let delegations = obj(vec![
        (
            "keys",
            obj(vec![(
                "bb",
                obj(vec![("keytype", s("ed25519")), ("keyval", s("00ff"))]),
            )]),
        ),
        (
            "roles",
            JsonValue::Array(vec![delegated_role_json(vec![(
                "paths",
                str_array(vec!["foo/"]),
            )])]),
        ),
    ]);
    let doc = obj(vec![
        ("expires", s("2030-06-15T10:20:30Z")),
        ("version", JsonValue::Int(2)),
        ("targets", obj(vec![])),
        ("delegations", delegations),
    ]);
    let m = TargetsMetadata::parse(&doc).unwrap();
    let d: &Delegations = m.delegations.as_ref().unwrap();
    assert_eq!(d.keys.len(), 1);
    assert_eq!(d.roles.len(), 1);
    assert_eq!(d.roles[0].name, "sub");
    // a present but malformed delegations member is an error, not ignored
    let bad = obj(vec![
        ("expires", s("2030-06-15T10:20:30Z")),
        ("version", JsonValue::Int(2)),
        ("targets", obj(vec![])),
        ("delegations", JsonValue::Int(1)),
    ]);
    let r = TargetsMetadata::parse(&bad);
    assert!(matches!(r, Err(Error::InvalidFieldValue(ref f, _)) if f == "delegations"));
}

#[test]
fn timestamp_metadata_parses() {
    let doc = obj(vec![
        ("expires", s("2030-06-15T10:20:30Z")),
        ("version", JsonValue::Int(3)),
        (
            "meta",
            obj(vec![(
                "snapshot.json",
                obj(vec![
                    ("length", JsonValue::Int(100)),
                    ("hashes", obj(vec![("sha512", s("ab"))])),
                    ("version", JsonValue::Int(7)),
                ]),
            )]),
        ),
    ]);
    let m = TimestampMetadata::parse(&doc).unwrap();
    assert_eq!(m.version, 3);
    assert_eq!(m.meta.len(), 1);
    assert_eq!(m.meta[0].1.length, 100);
    assert_eq!(m.meta[0].1.version, 7);
    // a meta entry without a length is rejected for the timestamp role
    let doc = obj(vec![
        ("expires", s("2030-06-15T10:20:30Z")),
        ("version", JsonValue::Int(3)),
        (
            "meta",
            obj(vec![("snapshot.json", obj(vec![("version", JsonValue::Int(7))]))]),
        ),
    ]);
    assert!(TimestampMetadata::parse(&doc).is_err());
}

#[test]
fn snapshot_metadata_allows_omitted_length_and_hashes() {
    let doc = obj(vec![
        ("expires", s("2030-06-15T10:20:30Z")),
        ("version", JsonValue::Int(4)),
        (
            "meta",
            obj(vec![("targets.json", obj(vec![("version", JsonValue::Int(9))]))]),
        ),
    ]);
    let m = SnapshotMetadata::parse(&doc).unwrap();
    assert_eq!(m.version, 4);
    assert_eq!(m.meta[0].1.version, 9);
    assert!(m.meta[0].1.length.is_none());
    assert!(m.meta[0].1.hashes.is_none());
}
