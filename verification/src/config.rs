//! What is settled before a run begins: the number of workers, where the
//! configuration file is and whether it is private, and the exit status of
//! each error that ends the program.

use crate::address::{digits_of, is_digit, number_spec, parse_number};
use vstd::prelude::*;
use vstd::string::StringExecFns;

verus! {

/// The number of workers where none is given.
pub const DEFAULT_WORKER_COUNT: usize = 10;

/// The errors that end the program before any endpoint is probed.
#[derive(Clone, Copy, Debug, PartialEq, Eq, Structural)]
pub enum ConfigError {
    /// No configuration file was named and the home directory is unknown.
    HomeUnset,
    /// The number of workers is not a positive number.
    InvalidWorkerCount,
    /// The configuration file can be accessed by others than its owner.
    InsecurePermissions,
    /// The permissions of the configuration file cannot be had.
    MetadataUnavailable,
    /// The configuration file cannot be read as a list of endpoints.
    Unreadable,
}

/// The number of workers that a text names: a number text (see
/// [`crate::address::is_number_text`]) worth at least 1 that fits a `usize`.
pub open spec fn worker_count_spec(text: Seq<char>) -> Result<usize, ConfigError> {
    match number_spec(text, usize::MAX as nat) {
        Some(n) => if n >= 1 {
            Ok(n as usize)
        } else {
            Err(ConfigError::InvalidWorkerCount)
        },
        None => Err(ConfigError::InvalidWorkerCount),
    }
}

/// Reads the number of workers. Zero, a negative number and anything that
/// is not a number are rejected.
pub fn parse_worker_count(text: &str) -> (res: Result<usize, ConfigError>)
    ensures
        res == worker_count_spec(text@),
{
    match parse_number(text, usize::MAX as u64) {
        Some(n) => if n >= 1 {
            Ok(n as usize)
        } else {
            Err(ConfigError::InvalidWorkerCount)
        },
        None => Err(ConfigError::InvalidWorkerCount),
    }
}

/// A number of workers that is accepted is at least 1; a text that starts
/// with a minus sign is never accepted.
pub proof fn lemma_worker_count_is_positive(text: Seq<char>)
    ensures
        worker_count_spec(text) is Ok ==> worker_count_spec(text)->Ok_0 >= 1,
        text.len() > 0 && text[0] == '-' ==> worker_count_spec(text) == Err::<usize, _>(
            ConfigError::InvalidWorkerCount,
        ),
{
    if text.len() > 0 && text[0] == '-' {
        assert(!is_digit(digits_of(text)[0]));
    }
}

/// The number of workers of a run: the one given, or
/// [`DEFAULT_WORKER_COUNT`] where none is given.
pub fn worker_count(given: Option<&str>) -> (res: Result<usize, ConfigError>)
    ensures
        res == match given {
            Some(text) => worker_count_spec(text@),
            None => Ok(DEFAULT_WORKER_COUNT),
        },
{
    match given {
        Some(text) => parse_worker_count(text),
        None => Ok(DEFAULT_WORKER_COUNT),
    }
}

/// Where the configuration file is looked for below the home directory.
pub open spec fn default_config_suffix() -> Seq<char> {
    "/.config/mail-pinger/config.yaml"@
}

/// The path of the configuration file: the one given, else the default
/// below the home directory, and `HomeUnset` where neither is known.
pub fn config_path(given: Option<&str>, home: Option<&str>) -> (res: Result<String, ConfigError>)
    ensures
        match res {
            Ok(path) => match given {
                Some(text) => path@ == text@,
                None => home is Some && path@ == home->0@ + default_config_suffix(),
            },
            Err(error) => given is None && home is None && error == ConfigError::HomeUnset,
        },
{
    match given {
        Some(text) => Ok(text.to_owned()),
        None => match home {
            Some(dir) => {
                let mut path = dir.to_owned();
                path.append("/.config/mail-pinger/config.yaml");
                Ok(path)
            },
            None => Err(ConfigError::HomeUnset),
        },
    }
}

/// The permission bits of a file's group and of all others.
pub open spec fn group_and_others() -> u32 {
    0o077
}

/// `S_IRGRP` of libc: the bit that lets the group read, `0o040`.
#[verifier::external_body]
fn group_read_bit() -> (bit: u32)
    ensures
        bit == 0o040,
{
    libc::S_IRGRP as u32
}

/// `S_IWGRP` of libc: the bit that lets the group write, `0o020`.
#[verifier::external_body]
fn group_write_bit() -> (bit: u32)
    ensures
        bit == 0o020,
{
    libc::S_IWGRP as u32
}

/// `S_IXGRP` of libc: the bit that lets the group execute, `0o010`.
#[verifier::external_body]
fn group_execute_bit() -> (bit: u32)
    ensures
        bit == 0o010,
{
    libc::S_IXGRP as u32
}

/// `S_IROTH` of libc: the bit that lets all others read, `0o004`.
#[verifier::external_body]
fn others_read_bit() -> (bit: u32)
    ensures
        bit == 0o004,
{
    libc::S_IROTH as u32
}

/// `S_IWOTH` of libc: the bit that lets all others write, `0o002`.
#[verifier::external_body]
fn others_write_bit() -> (bit: u32)
    ensures
        bit == 0o002,
{
    libc::S_IWOTH as u32
}

/// `S_IXOTH` of libc: the bit that lets all others execute, `0o001`.
#[verifier::external_body]
fn others_execute_bit() -> (bit: u32)
    ensures
        bit == 0o001,
{
    libc::S_IXOTH as u32
}

/// Checks the mode of the configuration file, which holds secrets: no bit
/// of the group or of others may be set.
pub fn check_permissions(mode: u32) -> (res: Result<(), ConfigError>)
    ensures
        res is Ok <==> mode & group_and_others() == 0,
        res is Err ==> res == Err::<(), _>(ConfigError::InsecurePermissions),
{
    let group: u32 = group_read_bit() | group_write_bit() | group_execute_bit();
    let others: u32 = others_read_bit() | others_write_bit() | others_execute_bit();
    let mask: u32 = group | others;
    assert(mask == 0o077) by (bit_vector)
        requires
            mask == (0o040u32 | 0o020u32 | 0o010u32) | (0o004u32 | 0o002u32 | 0o001u32),
    ;
    if mode & mask > 0 {
        Err(ConfigError::InsecurePermissions)
    } else {
        Ok(())
    }
}

/// The exit status of each error.
pub open spec fn exit_status_spec(error: ConfigError) -> i32 {
    match error {
        ConfigError::HomeUnset => 78,
        ConfigError::InvalidWorkerCount => 78,
        ConfigError::InsecurePermissions => 77,
        ConfigError::MetadataUnavailable => 65,
        ConfigError::Unreadable => 74,
    }
}

/// `exitcode::CONFIG`: something was found unconfigured or misconfigured, 78.
#[verifier::external_body]
fn status_config() -> (code: i32)
    ensures
        code == 78,
{
    exitcode::CONFIG
}

/// `exitcode::NOPERM`: not enough permission to go on, 77.
#[verifier::external_body]
fn status_no_permission() -> (code: i32)
    ensures
        code == 77,
{
    exitcode::NOPERM
}

/// `exitcode::DATAERR`: the input data was incorrect, 65.
#[verifier::external_body]
fn status_data_error() -> (code: i32)
    ensures
        code == 65,
{
    exitcode::DATAERR
}

/// `exitcode::IOERR`: an error occurred while doing I/O on a file, 74.
#[verifier::external_body]
fn status_io_error() -> (code: i32)
    ensures
        code == 74,
{
    exitcode::IOERR
}

impl ConfigError {
    /// The status with which the program ends on this error. It is never
    /// 0, the status of a run that was carried out, however its probes went.
    pub fn exit_status(self) -> (code: i32)
        ensures
            code == exit_status_spec(self),
            code != 0,
    {
        match self {
            ConfigError::HomeUnset => status_config(),
            ConfigError::InvalidWorkerCount => status_config(),
            ConfigError::InsecurePermissions => status_no_permission(),
            ConfigError::MetadataUnavailable => status_data_error(),
            ConfigError::Unreadable => status_io_error(),
        }
    }
}

} // verus!
