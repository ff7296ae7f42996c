//! Whether a database connection can search vectors.
use vstd::prelude::*;

use crate::text::number;
use crate::text::number::signed_decimal_of;

verus! {

/// The code by which SQLite reports success.
pub const SQLITE_OK: i32 = 0;

/// Why vectors cannot be searched.
#[derive(Clone, Debug)]
pub struct VecUnavailable {
    pub reason: String,
}

impl VecUnavailable {
    /// The message of the error.
    pub fn message(&self) -> (s: String)
        ensures
            s@ == "sqlite-vec extension unavailable: "@ + self.reason@,
    {
        let mut s: String = "sqlite-vec extension unavailable: ".to_owned();
        s.append(self.reason.as_str());
        s
    }
}

/// Whether the extension is there: it answers with its version, which is not empty. Where the
/// question fails, the reason is passed on.
pub fn probe_sqlite_vec(version: Result<String, String>) -> (r: Result<(), VecUnavailable>)
    ensures
        match version {
            Ok(v) => if v@.len() > 0 {
                r is Ok
            } else {
                r is Err && r->Err_0.reason@ == "vec_version() returned empty string"@
            },
            Err(e) => r is Err && r->Err_0.reason@ == e@,
        },
{
    match version {
        Ok(v) => if v.as_str().is_empty() {
            Err(VecUnavailable { reason: "vec_version() returned empty string".to_owned() })
        } else {
            Ok(())
        },
        Err(e) => Err(VecUnavailable { reason: e }),
    }
}

/// Whether the registration of the extension succeeded, by the code that SQLite returned.
pub fn registration(code: i32) -> (r: Result<(), String>)
    ensures
        match r {
            Ok(_) => code == SQLITE_OK,
            Err(e) => code != SQLITE_OK && e@ == "sqlite3_auto_extension returned "@
                + number::signed_decimal(code as int),
        },
{
    if code == SQLITE_OK {
        Ok(())
    } else {
        let mut s: String = "sqlite3_auto_extension returned ".to_owned();
        s.append(signed_decimal_of(code as i64).as_str());
        Err(s)
    }
}

/// The outcome of the registration, which is kept for the life of the process: each later attempt
/// has the same outcome.
pub fn register_sqlite_vec(kept: &Result<(), String>) -> (r: Result<(), VecUnavailable>)
    ensures
        match *kept {
            Ok(_) => r is Ok,
            Err(e) => r is Err && r->Err_0.reason@ == e@,
        },
{
    match kept {
        Ok(_) => Ok(()),
        Err(e) => Err(VecUnavailable { reason: e.clone() }),
    }
}

} // verus!
