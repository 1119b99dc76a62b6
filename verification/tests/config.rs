use mail_pinger::config::{
    check_permissions, config_path, parse_worker_count, worker_count, ConfigError,
    DEFAULT_WORKER_COUNT,
};

#[test]
fn worker_count_is_a_positive_number() {
    assert_eq!(parse_worker_count("10"), Ok(10));
    assert_eq!(parse_worker_count("1"), Ok(1));
    assert_eq!(parse_worker_count("+4"), Ok(4));
    assert_eq!(parse_worker_count("0016"), Ok(16));
    assert_eq!(parse_worker_count(&usize::MAX.to_string()), Ok(usize::MAX));
}

#[test]
fn worker_count_zero_is_rejected() {
    assert_eq!(parse_worker_count("0"), Err(ConfigError::InvalidWorkerCount));
    assert_eq!(parse_worker_count("+0"), Err(ConfigError::InvalidWorkerCount));
    assert_eq!(parse_worker_count("000"), Err(ConfigError::InvalidWorkerCount));
}

#[test]
fn worker_count_negative_or_malformed_is_rejected() {
    assert_eq!(parse_worker_count("-1"), Err(ConfigError::InvalidWorkerCount));
    assert_eq!(parse_worker_count("-0"), Err(ConfigError::InvalidWorkerCount));
    assert_eq!(parse_worker_count(""), Err(ConfigError::InvalidWorkerCount));
    assert_eq!(parse_worker_count("ten"), Err(ConfigError::InvalidWorkerCount));
    assert_eq!(parse_worker_count("1.5"), Err(ConfigError::InvalidWorkerCount));
    assert_eq!(parse_worker_count("4 "), Err(ConfigError::InvalidWorkerCount));
    assert_eq!(
        parse_worker_count("340282366920938463463374607431768211456"),
        Err(ConfigError::InvalidWorkerCount)
    );
}

#[test]
fn worker_count_defaults_to_ten() {
    assert_eq!(DEFAULT_WORKER_COUNT, 10);
    assert_eq!(worker_count(None), Ok(10));
    assert_eq!(worker_count(Some("3")), Ok(3));
    assert_eq!(worker_count(Some("0")), Err(ConfigError::InvalidWorkerCount));
    assert_eq!(worker_count(Some("x")), Err(ConfigError::InvalidWorkerCount));
}

#[test]
fn config_path_given_or_below_home() {
    assert_eq!(config_path(Some("/etc/pinger.yaml"), Some("/home/ann")), Ok("/etc/pinger.yaml".to_string()));
    assert_eq!(config_path(Some("cfg.yaml"), None), Ok("cfg.yaml".to_string()));
    assert_eq!(
        config_path(None, Some("/home/ann")),
        Ok("/home/ann/.config/mail-pinger/config.yaml".to_string())
    );
    assert_eq!(config_path(None, Some("")), Ok("/.config/mail-pinger/config.yaml".to_string()));
    assert_eq!(config_path(None, None), Err(ConfigError::HomeUnset));
}

#[test]
fn permissions_of_the_owner_alone_pass() {
    assert_eq!(check_permissions(0o600), Ok(()));
    assert_eq!(check_permissions(0o400), Ok(()));
    assert_eq!(check_permissions(0o700), Ok(()));
    assert_eq!(check_permissions(0), Ok(()));
    assert_eq!(check_permissions(0o100600), Ok(()));
    assert_eq!(check_permissions(0o104600), Ok(()));
}

#[test]
fn permissions_of_group_or_others_fail() {
    for bit in [0o040, 0o020, 0o010, 0o004, 0o002, 0o001] {
        assert_eq!(check_permissions(bit), Err(ConfigError::InsecurePermissions));
        assert_eq!(check_permissions(0o100600 | bit), Err(ConfigError::InsecurePermissions));
    }
    assert_eq!(check_permissions(0o644), Err(ConfigError::InsecurePermissions));
    assert_eq!(check_permissions(0o660), Err(ConfigError::InsecurePermissions));
    assert_eq!(check_permissions(0o777), Err(ConfigError::InsecurePermissions));
    assert_eq!(check_permissions(u32::MAX), Err(ConfigError::InsecurePermissions));
}

#[test]
fn permissions_agree_with_the_bits_of_libc() {
    let mask = (libc::S_IRGRP
        | libc::S_IWGRP
        | libc::S_IXGRP
        | libc::S_IROTH
        | libc::S_IWOTH
        | libc::S_IXOTH) as u32;
    let mut mode: u32 = 0;
    while mode <= 0o7777 {
        assert_eq!(check_permissions(mode).is_ok(), mode & mask == 0);
        mode += 1;
    }
}

#[test]
fn exit_status_of_each_error() {
    assert_eq!(ConfigError::HomeUnset.exit_status(), 78);
    assert_eq!(ConfigError::InvalidWorkerCount.exit_status(), 78);
    assert_eq!(ConfigError::InsecurePermissions.exit_status(), 77);
    assert_eq!(ConfigError::MetadataUnavailable.exit_status(), 65);
    assert_eq!(ConfigError::Unreadable.exit_status(), 74);
}

#[test]
fn exit_status_agrees_with_exitcode() {
    assert_eq!(ConfigError::HomeUnset.exit_status(), exitcode::CONFIG);
    assert_eq!(ConfigError::InvalidWorkerCount.exit_status(), exitcode::CONFIG);
    assert_eq!(ConfigError::InsecurePermissions.exit_status(), exitcode::NOPERM);
    assert_eq!(ConfigError::MetadataUnavailable.exit_status(), exitcode::DATAERR);
    assert_eq!(ConfigError::Unreadable.exit_status(), exitcode::IOERR);
    assert_ne!(ConfigError::Unreadable.exit_status(), exitcode::OK);
}

#[test]
fn zero_workers_end_the_program_before_any_probe() {
    let error = parse_worker_count("0").unwrap_err();
    assert_eq!(error, ConfigError::InvalidWorkerCount);
    assert_ne!(error.exit_status(), 0);
    let error = parse_worker_count("-3").unwrap_err();
    assert_eq!(error.exit_status(), 78);
}
