//! Platform constants taken from the C library bindings.

use vstd::prelude::*;

verus! {

/// `ERANGE`: result out of range.
pub open spec fn spec_erange() -> i32 {
    34
}

/// `EINVAL`: invalid argument.
pub open spec fn spec_einval() -> i32 {
    22
}

/// `ENOENT`: no such entry.
pub open spec fn spec_enoent() -> i32 {
    2
}

/// `AF_INET`: the IPv4 address family tag.
pub open spec fn spec_af_inet() -> i32 {
    2
}

/// `AF_INET6`: the IPv6 address family tag.
pub open spec fn spec_af_inet6() -> i32 {
    10
}

/// Relies on libc::ERANGE, which is 34 on Linux.
#[verifier::external_body]
pub(crate) fn erange() -> (r: i32)
    ensures
        r == spec_erange(),
{
    libc::ERANGE
}

/// Relies on libc::EINVAL, which is 22 on Linux.
#[verifier::external_body]
pub(crate) fn einval() -> (r: i32)
    ensures
        r == spec_einval(),
{
    libc::EINVAL
}

/// Relies on libc::ENOENT, which is 2 on Linux.
#[verifier::external_body]
pub(crate) fn enoent() -> (r: i32)
    ensures
        r == spec_enoent(),
{
    libc::ENOENT
}

/// Relies on libc::AF_INET, which is 2 on Linux.
#[verifier::external_body]
pub(crate) fn af_inet() -> (r: i32)
    ensures
        r == spec_af_inet(),
{
    libc::AF_INET
}

/// Relies on libc::AF_INET6, which is 10 on Linux.
#[verifier::external_body]
pub(crate) fn af_inet6() -> (r: i32)
    ensures
        r == spec_af_inet6(),
{
    libc::AF_INET6
}

} // verus!
