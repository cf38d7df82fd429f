//! The version line of the command-line tool.

use vstd::prelude::*;

verus! {

/// The version line: the semantic version, then the short commit hash and
/// the commit date in parentheses, as in `0.1.0 (2be4034 2022-03-31)`.
pub fn version(semver: &str, sha: &str, date: &str) -> (r: String)
    ensures
        r@ == semver@ + " ("@ + sha@ + " "@ + date@ + ")"@,
{
    let mut s = String::from_str(semver);
    s.append(" (");
    s.append(sha);
    s.append(" ");
    s.append(date);
    s.append(")");
    s
}

/// The version line as a string slice.
pub fn version_info(v: &String) -> (r: &str)
    ensures
        r@ == v@,
{
    v.as_str()
}

} // verus!
