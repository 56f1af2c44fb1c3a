use borgtui::config::parse_profile;
use borgtui::profiles::{BorgError, RepositoryKind};

const GOLDEN_V1_CONFIG: &str = r#"
{
  "name": "dev",
  "backup_paths": [
    "/home/david/programming/collatz",
    "/home/david/programming/advent-of-code-2020",
    "/home/david/programming/borgtui",
    "/home/david/Pictures"
  ],
  "exclude_patterns": [
    "**/tmp*"
  ],
  "exclude_caches": true,
  "prune_options": {
    "keep_daily": 2,
    "keep_weekly": 1,
    "keep_monthly": 1,
    "keep_yearly": 1
  },
  "action_timeout_seconds": 30,
  "repos": [
    {
      "path": "/home/david/borg-test-repo0",
      "rsh": "foobar",
      "encryption": "None",
      "disabled": false,
      "kind": "Borg"
    },
    {
      "path": "/home/david/restic-test-repo",
      "rsh": null,
      "encryption": {
        "Keyfile": "/home/david/.borg-passphrase"
      },
      "disabled": false,
      "kind": "Rustic"
    }
  ]
}
"#;

const GOLDEN_V2_CONFIG: &str = r#"
{
  "name": "dev",
  "backup_paths": [
    "/home/david/programming/collatz",
    "/home/david/programming/advent-of-code-2020",
    "/home/david/programming/borgtui",
    "/home/david/Pictures"
  ],
  "exclude_patterns": [
    "**/tmp*"
  ],
  "exclude_caches": true,
  "prune_options": {
    "keep_daily": 2,
    "keep_weekly": 1,
    "keep_monthly": 1,
    "keep_yearly": 1
  },
  "action_timeout_seconds": 30,
  "repos": [
    {
      "path": "/home/david/borg-test-repo0",
      "encryption": "None",
      "disabled": false,
      "config": {
        "BorgV1": {
          "rsh": "foobar"
        }
      }
    },
    {
      "path": "/home/david/restic-test-repo",
      "encryption": {
        "Keyfile": "/home/david/.borg-passphrase"
      },
      "disabled": false,
      "config": {
        "Rustic": {}
      }
    }
  ]
}
"#;

const GOLDEN_V2_CONFIG_NON_RUSTIC: &str = r#"
{
"name": "dev",
"backup_paths": [
"/home/david/programming/collatz",
"/home/david/programming/advent-of-code-2020",
"/home/david/programming/borgtui",
"/home/david/Pictures"
],
"exclude_patterns": [
"**/tmp*"
],
"exclude_caches": true,
"prune_options": {
"keep_daily": 2,
"keep_weekly": 1,
"keep_monthly": 1,
"keep_yearly": 1
},
"action_timeout_seconds": 30,
"repos": [
{
  "path": "/home/david/borg-test-repo0",
  "encryption": "None",
  "disabled": false,
  "config": {
    "BorgV1": {
      "rsh": "foobar"
    }
  }
}
]
}
"#;

const GOLDEN_V1_CONFIG_NON_RUSTIC: &str = r#"
{
"name": "dev",
"backup_paths": [
"/home/david/programming/collatz",
"/home/david/programming/advent-of-code-2020",
"/home/david/programming/borgtui",
"/home/david/Pictures"
],
"exclude_patterns": [
"**/tmp*"
],
"exclude_caches": true,
"prune_options": {
"keep_daily": 2,
"keep_weekly": 1,
"keep_monthly": 1,
"keep_yearly": 1
},
"action_timeout_seconds": 30,
"repos": [
{
  "path": "/home/david/borg-test-repo0",
  "rsh": "foobar",
  "encryption": "None",
  "disabled": false,
  "kind": "Borg"
}
]
}
"#;

const GOLDEN_V2_CONFIG_WITH_RESTIC: &str = r#"
{
  "name": "dev",
  "backup_paths": [
    "/home/david/programming/collatz",
    "/home/david/programming/advent-of-code-2020",
    "/home/david/programming/borgtui",
    "/home/david/Pictures"
  ],
  "exclude_patterns": [
    "**/tmp*"
  ],
  "exclude_caches": true,
  "prune_options": {
    "keep_daily": 2,
    "keep_weekly": 1,
    "keep_monthly": 1,
    "keep_yearly": 1
  },
  "action_timeout_seconds": 30,
  "repos": [
    {
      "path": "/home/david/borg-test-repo0",
      "encryption": "None",
      "disabled": false,
      "config": {
        "BorgV1": {
          "rsh": "foobar"
        }
      }
    },
    {
      "path": "/home/david/restic-test-repo",
      "encryption": {
        "Keyfile": "/home/david/.borg-passphrase"
      },
      "disabled": false,
      "config": {
        "Restic": {}
      }
    }
  ]
}
"#;

#[test]
fn can_load_old_config_rustic() {
    let profile = parse_profile(GOLDEN_V1_CONFIG).unwrap();
    assert_eq!(
        profile.repositories()[0]
            .borg_options()
            .expect("should have borg options")
            .rsh,
        Some("foobar".to_string())
    );
    assert!(profile.repositories()[1].borg_options().is_err());
    assert!(profile.repositories()[1].rustic_options().is_ok());
}

#[test]
fn can_load_old_config() {
    let profile = parse_profile(GOLDEN_V1_CONFIG_NON_RUSTIC).unwrap();
    assert_eq!(
        profile.repositories()[0]
            .borg_options()
            .expect("should have borg options")
            .rsh,
        Some("foobar".to_string())
    );
}

#[test]
fn can_load_new_config_rustic() {
    let profile = parse_profile(GOLDEN_V2_CONFIG).unwrap();
    assert_eq!(
        profile.repositories()[0]
            .borg_options()
            .expect("should have borg options")
            .rsh,
        Some("foobar".to_string())
    );
    assert!(profile.repositories()[1].borg_options().is_err());
    assert!(profile.repositories()[1].rustic_options().is_ok());
}

#[test]
fn can_load_new_config_with_restic() {
    let profile = parse_profile(GOLDEN_V2_CONFIG_WITH_RESTIC).unwrap();
    assert_eq!(
        profile.repositories()[0]
            .borg_options()
            .expect("should have borg options")
            .rsh,
        Some("foobar".to_string())
    );
    assert!(profile.repositories()[1].borg_options().is_err());
    assert!(profile.repositories()[1].restic_options().is_ok());
}

#[test]
fn v1_to_v2_config_yields_same_config_rustic() {
    let profile_v1 = parse_profile(GOLDEN_V1_CONFIG).unwrap();
    let profile_v2 = parse_profile(GOLDEN_V2_CONFIG).unwrap();
    profile_v1
        .repositories()
        .iter()
        .zip(profile_v2.repositories())
        .for_each(|(v1, v2)| {
            assert_eq!(v1.path, v2.path);
            assert_eq!(v1.disabled, v2.disabled);
            assert_eq!(v1.kind(), v2.kind());
            match (v1.borg_options(), v2.borg_options()) {
                (Ok(a), Ok(b)) => {
                    assert_eq!(a.rsh, b.rsh);
                    assert_eq!(a.remote_path, b.remote_path);
                }
                (Err(a), Err(b)) => assert_eq!(a, b),
                _ => panic!("engine options differ between the decoded shapes"),
            }
        });
}

#[test]
fn v1_to_v2_config_yields_same_config() {
    let profile_v1 = parse_profile(GOLDEN_V1_CONFIG_NON_RUSTIC).unwrap();
    let profile_v2 = parse_profile(GOLDEN_V2_CONFIG_NON_RUSTIC).unwrap();
    profile_v1
        .repositories()
        .iter()
        .zip(profile_v2.repositories())
        .for_each(|(v1, v2)| {
            assert_eq!(v1.path, v2.path);
            assert_eq!(v1.disabled, v2.disabled);
            assert_eq!(v1.kind(), v2.kind());
            match (v1.borg_options(), v2.borg_options()) {
                (Ok(a), Ok(b)) => {
                    assert_eq!(a.rsh, b.rsh);
                    assert_eq!(a.remote_path, b.remote_path);
                }
                (Err(a), Err(b)) => assert_eq!(a, b),
                _ => panic!("engine options differ between the decoded shapes"),
            }
        });
}

#[test]
fn profile_fields_decode_with_defaults() {
    let profile = parse_profile(
        r#"{"name": "minimal", "backup_paths": ["/data"], "repos": []}"#,
    )
    .unwrap();
    assert_eq!(profile.name(), "minimal");
    assert_eq!(profile.backup_paths(), &vec!["/data".to_string()]);
    assert!(profile.exclude_patterns().is_empty());
    assert!(profile.exclude_caches());
    assert_eq!(profile.action_timeout_seconds(), 30);
    let prune = profile.prune_options();
    assert_eq!(prune.keep_daily, 64);
    assert_eq!(prune.keep_weekly, 128);
    assert_eq!(prune.keep_monthly, 64);
    assert_eq!(prune.keep_yearly, 32);
    assert_eq!(profile.num_repos(), 0);
}

#[test]
fn malformed_documents_are_rejected() {
    assert!(matches!(parse_profile("not json at all"), Err(BorgError::ConfigMalformed)));
    assert!(matches!(parse_profile("{}"), Err(BorgError::ConfigMalformed)));
    assert!(matches!(
        parse_profile(r#"{"name": "x", "backup_paths": "oops", "repos": []}"#),
        Err(BorgError::ConfigMalformed)
    ));
    // a retention count of zero is rejected
    assert!(matches!(
        parse_profile(
            r#"{"name": "x", "backup_paths": [], "repos": [],
                "prune_options": {"keep_daily": 0, "keep_weekly": 1,
                                  "keep_monthly": 1, "keep_yearly": 1}}"#,
        ),
        Err(BorgError::ConfigMalformed)
    ));
}

#[test]
fn v1_kind_defaults_to_borg() {
    let profile = parse_profile(
        r#"{"name": "x", "backup_paths": [], "repos": [
            {"path": "/r", "encryption": "None", "rsh": null}
        ]}"#,
    )
    .unwrap();
    assert_eq!(profile.repositories()[0].kind(), RepositoryKind::Borg);
    assert_eq!(profile.repositories()[0].repo_kind_name(), "Borg");
    assert_eq!(profile.repositories()[0].borg_options().unwrap().rsh, None);
}

#[test]
fn encryption_shapes_decode() {
    let profile = parse_profile(
        r#"{"name": "x", "backup_paths": [], "repos": [
            {"path": "/a", "encryption": {"Raw": "hunter2"}, "disabled": true,
             "config": {"BorgV1": {"rsh": null}}},
            {"path": "/b", "encryption": "Keyring", "config": {"Restic": {}}}
        ]}"#,
    )
    .unwrap();
    assert!(profile.repositories()[0].disabled());
    assert!(!profile.repositories()[1].disabled());
    assert_eq!(profile.num_active_repos(), 1);
}

#[test]
fn log_messages_extract() {
    assert_eq!(
        borgtui::config::extract_log_message(r#"{"type": "progress", "message": "checking segments"}"#),
        Some("checking segments".to_string())
    );
    assert_eq!(borgtui::config::extract_log_message("plain line"), None);
    assert_eq!(borgtui::config::extract_log_message(r#"{"type": "x"}"#), None);
}
