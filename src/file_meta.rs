//! The file-metadata capability that the HTML response headers rest on,
//! and the date format of `Last-Modified`.

use vstd::prelude::*;
use vstd::string::*;

verus! {

/// Why file metadata could not be had.
#[derive(Debug, Clone, PartialEq, Eq)]
pub enum FileError {
    /// An I/O failure, with its description.
    Io(String),
    /// A time that cannot be written as an RFC 2822 date.
    TimeFormat,
}

/// The text of a file error.
pub open spec fn file_error_text(e: FileError) -> Seq<char> {
    match e {
        FileError::Io(m) => "I/O error: "@ + m@,
        FileError::TimeFormat => "time formatting error"@,
    }
}

impl FileError {
    /// The text of the error.
    pub fn message(&self) -> (r: String)
        ensures
            r@ == file_error_text(*self),
    {
        match self {
            FileError::Io(m) => "I/O error: ".to_owned().concat(m.as_str()),
            FileError::TimeFormat => "time formatting error".to_owned(),
        }
    }
}

/// Size and modification time of files, looked up by path.
pub trait FileOps {
    /// The size of the file, in bytes.
    fn get_file_size(&self, path: &str) -> Result<u64, FileError>;

    /// The time of the file's last modification, as an RFC 2822 date.
    fn get_file_last_modified_time(&self, path: &str) -> Result<String, FileError>;
}

/// The Unix time of 1900-01-01T00:00:00Z, the first instant with an RFC 2822
/// date.
pub const EARLIEST_RFC2822_SECONDS: i64 = -2_208_988_800;

/// The Unix time of 9999-12-31T23:59:59Z, the last second with an RFC 2822
/// date.
pub const LATEST_RFC2822_SECONDS: i64 = 253_402_300_799;

/// The RFC 2822 date (in UTC) of the instant `unix_seconds` seconds after
/// the Unix epoch, as time writes it.
pub uninterp spec fn rfc2822_of(unix_seconds: int) -> Seq<char>;

/// Relies on time's `OffsetDateTime::from_unix_timestamp` and its `format`
/// with the `Rfc2822` description: the date of the timestamp, in UTC,
/// written as RFC 2822 prescribes, which depends on the timestamp alone.
/// `None` where time refuses the timestamp or the date: the timestamp is
/// accepted for the years -9999 to 9999, and the format refuses the years
/// before 1900 (a UTC date has no offset seconds to refuse), so the dates
/// from 1900-01-01T00:00:00Z to 9999-12-31T23:59:59Z succeed.
#[verifier::external_body]
fn rfc2822_at(unix_seconds: i64) -> (r: Option<String>)
    ensures
        r matches Some(s) ==> s@ == rfc2822_of(unix_seconds as int),
        EARLIEST_RFC2822_SECONDS <= unix_seconds <= LATEST_RFC2822_SECONDS ==> r is Some,
{
    match time::OffsetDateTime::from_unix_timestamp(unix_seconds) {
        Ok(t) => t.format(&time::format_description::well_known::Rfc2822).ok(),
        Err(_) => None,
    }
}

/// The `Last-Modified` value of a file modified `unix_seconds` seconds after
/// the Unix epoch.
pub fn http_date(unix_seconds: i64) -> (r: Result<String, FileError>)
    ensures
        match r {
            Ok(s) => s@ == rfc2822_of(unix_seconds as int),
            Err(e) => e == FileError::TimeFormat,
        },
        EARLIEST_RFC2822_SECONDS <= unix_seconds <= LATEST_RFC2822_SECONDS ==> r is Ok,
{
    match rfc2822_at(unix_seconds) {
        Some(s) => Ok(s),
        None => Err(FileError::TimeFormat),
    }
}

} // verus!
