use gitup::{backup_config, configure_git, create_profile, install_after_probe, install_argv,
    install_start, interpret_run, is_git_installed, load_profiles, probe_argv, restore_config,
    use_profile, ConfigState, GitError, GitProfile, HostOs, InstallStep, Manager, ProbeOutcome,
    ProfileRecord, ProfileStore, StoreFile};

#[test]
fn test_configure_git() {
    let name = "Test User";
    let email = "test@example.com";

    let mut cfg = ConfigState::new();
    configure_git(&mut cfg, name, email);

    assert_eq!(cfg.get("user.name"), Some(&name.to_string()));
    assert_eq!(cfg.get("user.email"), Some(&email.to_string()));
}

#[test]
fn test_get_git_config() {
    let name = "Test User";
    let mut cfg = ConfigState::new();
    configure_git(&mut cfg, name, "test@example.com");

    assert_eq!(cfg.get("user.name"), Some(&name.to_string()));
    assert_eq!(cfg.get("nonexistent.key"), None);
}

#[test]
fn test_create_and_use_profile() {
    let profile_name = "test_profile";
    let name = "Profile User";
    let email = "profile@example.com";

    let created = create_profile(StoreFile::Absent, profile_name, name, email);
    assert!(created.is_ok());
    let store = created.unwrap();

    let mut cfg = ConfigState::new();
    assert!(use_profile(StoreFile::Loaded(store), &mut cfg, profile_name).is_ok());

    assert_eq!(cfg.get("user.name"), Some(&name.to_string()));
    assert_eq!(cfg.get("user.email"), Some(&email.to_string()));
}

#[test]
fn test_backup_and_restore_config() {
    let name = "Backup User";
    let email = "backup@example.com";

    let mut cfg = ConfigState::new();
    configure_git(&mut cfg, name, email);
    let backup = backup_config(&cfg);

    configure_git(&mut cfg, "New User", "new@example.com");
    assert_eq!(cfg.get("user.name"), Some(&"New User".to_string()));

    restore_config(&mut cfg, &backup);
    assert_eq!(cfg.get("user.name"), Some(&name.to_string()));
    assert_eq!(cfg.get("user.email"), Some(&email.to_string()));
}

#[test]
fn test_backup_restore_round_trip_exact() {
    let mut cfg = ConfigState::new();
    cfg.set("user.name", "A");
    cfg.set("user.email", "b@c.com");
    let content = backup_config(&cfg);
    assert_eq!(content, "user.name=A\nuser.email=b@c.com\n");

    cfg.set("user.name", "X");
    cfg.set("user.email", "y@z.org");
    restore_config(&mut cfg, &content);
    assert_eq!(cfg.get("user.name"), Some(&"A".to_string()));
    assert_eq!(cfg.get("user.email"), Some(&"b@c.com".to_string()));
}

#[test]
fn test_backup_omits_unset_keys() {
    let mut cfg = ConfigState::new();
    cfg.set("user.name", "OnlyName");
    assert_eq!(backup_config(&cfg), "user.name=OnlyName\n");

    let empty = ConfigState::new();
    assert_eq!(backup_config(&empty), "");
}

#[test]
fn test_restore_skips_malformed_lines() {
    let mut cfg = ConfigState::new();
    cfg.set("user.name", "Keep");
    restore_config(&mut cfg, "noequals\nuser.email=two=parts\n\nuser.name=New");
    assert_eq!(cfg.get("user.name"), Some(&"New".to_string()));
    assert_eq!(cfg.get("user.email"), None);
}

#[test]
fn test_use_profile_not_found() {
    let mut cfg = ConfigState::new();
    let r = use_profile(StoreFile::Absent, &mut cfg, "missing");
    assert!(matches!(r, Err(GitError::NotFound)));

    let store = create_profile(StoreFile::Absent, "home", "A", "a@x").unwrap();
    let r2 = use_profile(StoreFile::Loaded(store), &mut cfg, "work");
    assert!(matches!(r2, Err(GitError::NotFound)));
    assert_eq!(cfg.get("user.name"), None);
}

#[test]
fn test_load_policy() {
    let absent = load_profiles(StoreFile::Absent);
    assert!(absent.is_ok());
    assert_eq!(absent.unwrap().len(), 0);

    let corrupt = load_profiles(StoreFile::Corrupt);
    assert!(matches!(corrupt, Err(GitError::ParseError)));

    let unreadable = load_profiles(StoreFile::Unreadable("denied".to_string()));
    assert!(matches!(unreadable, Err(GitError::IoError(m)) if m == "denied"));
}

#[test]
fn test_profile_overwrite_scenario() {
    let store = create_profile(StoreFile::Absent, "work", "Jane Doe", "jane@co.com").unwrap();
    assert_eq!(store.len(), 1);
    assert_eq!(store.lookup("work").unwrap().name, "Jane Doe");

    let store = create_profile(StoreFile::Loaded(store), "work", "Jane D.", "jane@co.com")
        .unwrap();
    assert_eq!(store.len(), 1);
    let p = store.lookup("work").unwrap();
    assert_eq!(p.name, "Jane D.");
    assert_eq!(p.email, "jane@co.com");
}

#[test]
fn test_from_records_last_wins() {
    let records = vec![
        ProfileRecord {
            key: "work".to_string(),
            profile: GitProfile { name: "First".to_string(), email: "1@x".to_string() },
        },
        ProfileRecord {
            key: "home".to_string(),
            profile: GitProfile { name: "Home".to_string(), email: "h@x".to_string() },
        },
        ProfileRecord {
            key: "work".to_string(),
            profile: GitProfile { name: "Second".to_string(), email: "2@x".to_string() },
        },
    ];
    let store = ProfileStore::from_records(records);
    assert_eq!(store.len(), 2);
    assert_eq!(store.lookup("work").unwrap().name, "Second");
    assert_eq!(store.lookup("home").unwrap().name, "Home");
}

#[test]
fn test_is_git_installed_outcomes() {
    assert_eq!(is_git_installed(ProbeOutcome::Success).unwrap(), true);
    assert_eq!(is_git_installed(ProbeOutcome::Failure).unwrap(), false);
    assert!(matches!(is_git_installed(ProbeOutcome::LaunchError), Err(GitError::NotFound)));
}

#[test]
fn test_install_noop_when_installed() {
    assert!(matches!(install_start(true, HostOs::MacOs), InstallStep::Done));
    assert!(matches!(install_start(true, HostOs::Linux), InstallStep::Done));
    assert!(matches!(install_start(true, HostOs::Windows), InstallStep::Done));
    assert!(matches!(install_start(true, HostOs::Other), InstallStep::Done));
}

#[test]
fn test_install_dispatch_table() {
    assert!(matches!(install_start(false, HostOs::MacOs), InstallStep::Probe(Manager::Brew)));
    assert!(matches!(install_start(false, HostOs::Linux), InstallStep::Probe(Manager::Pacman)));
    assert!(
        matches!(install_start(false, HostOs::Windows), InstallStep::Probe(Manager::Choco))
    );
    match install_start(false, HostOs::Other) {
        InstallStep::Fail(GitError::CommandFailed(msg)) => {
            assert_eq!(msg, "OS not supported");
        },
        _ => panic!("expected a failure on an unsupported OS"),
    }

    assert!(
        matches!(
            install_after_probe(HostOs::MacOs, Manager::Brew, true),
            InstallStep::Run(Manager::Brew)
        )
    );
    match install_after_probe(HostOs::MacOs, Manager::Brew, false) {
        InstallStep::Fail(GitError::CommandFailed(msg)) => {
            assert_eq!(msg, "Homebrew is not installed. Please install Homebrew first.");
        },
        _ => panic!("expected a failure without Homebrew"),
    }

    assert!(
        matches!(
            install_after_probe(HostOs::Linux, Manager::Pacman, true),
            InstallStep::Run(Manager::Pacman)
        )
    );
    assert!(
        matches!(
            install_after_probe(HostOs::Linux, Manager::Pacman, false),
            InstallStep::Run(Manager::AptGet)
        )
    );

    assert!(
        matches!(
            install_after_probe(HostOs::Windows, Manager::Choco, true),
            InstallStep::Run(Manager::Choco)
        )
    );
    assert!(
        matches!(
            install_after_probe(HostOs::Windows, Manager::Choco, false),
            InstallStep::Probe(Manager::Winget)
        )
    );
    assert!(
        matches!(
            install_after_probe(HostOs::Windows, Manager::Winget, true),
            InstallStep::Run(Manager::Winget)
        )
    );
    match install_after_probe(HostOs::Windows, Manager::Winget, false) {
        InstallStep::Fail(GitError::CommandFailed(msg)) => {
            assert_eq!(
                msg,
                "Neither Chocolatey nor Winget is installed. Please install one of them first."
            );
        },
        _ => panic!("expected a failure without Chocolatey and Winget"),
    }
}

#[test]
fn test_interpret_run_outcomes() {
    assert!(interpret_run(true, true, "brew", "0").is_ok());
    match interpret_run(false, false, "brew", "") {
        Err(GitError::CommandFailed(msg)) => {
            assert_eq!(msg, "Failed to run command: brew");
        },
        _ => panic!("expected a launch failure"),
    }
    match interpret_run(true, false, "brew", "exit status: 1") {
        Err(GitError::CommandFailed(msg)) => {
            assert_eq!(msg, "Command failed with status: exit status: 1");
        },
        _ => panic!("expected a status failure"),
    }
}

#[test]
fn test_invocation_tables() {
    assert_eq!(probe_argv(Manager::Brew), ("brew", "--version"));
    assert_eq!(probe_argv(Manager::Pacman), ("pacman", "-V"));
    assert_eq!(probe_argv(Manager::Choco), ("choco", "--version"));
    assert_eq!(probe_argv(Manager::Winget), ("winget", "--version"));

    assert_eq!(install_argv(Manager::Brew), vec!["brew", "install", "git"]);
    assert_eq!(install_argv(Manager::Pacman), vec!["sudo", "pacman", "-S", "--noconfirm", "git"]);
    assert_eq!(install_argv(Manager::AptGet), vec!["sudo", "apt-get", "install", "-y", "git"]);
    assert_eq!(install_argv(Manager::Choco), vec!["choco", "install", "git", "-y"]);
    assert_eq!(
        install_argv(Manager::Winget),
        vec!["winget", "install", "--id", "Git.Git", "--silent"]
    );
}
