//! What the agent reports of the operating system and its kernel.
use vstd::prelude::*;
use crate::metrics::{version_text, KernelInfo, OsBaseInfo, OsInfo, OsVersion, VersionView};
use crate::text::{dec, push_decimal};

verus! {

/// A system call failed; `os_code` is the error number it left, if any.
#[derive(Clone, Copy, Debug, PartialEq, Eq, Structural)]
pub struct OsCallError {
    pub os_code: Option<i32>,
}

/// `uname::uname`: the kernel's release, as the running system reports it, or the error
/// of the `uname` system call.  Nothing is claimed of the text: it is the machine's.
#[verifier::external_body]
fn uname_release() -> (r: Result<String, OsCallError>) {
    match uname::uname() {
        Ok(info) => Ok(info.release),
        Err(e) => Err(OsCallError { os_code: e.raw_os_error() }),
    }
}

/// `os_info::get`: the type of the running system, as text, and its version (semantic
/// versions as numbers, any other as its text).  Of the type's text only that it is not
/// empty is claimed (every type displays a name); which type and version the call
/// reports is the machine's, and is left unsaid.
#[verifier::external_body]
fn os_info_get() -> (r: (String, OsVersion))
    ensures
        r.0@.len() > 0,
{
    let info = os_info::get();
    let version = match info.version() {
        os_info::Version::Semantic(a, b, c) => OsVersion::Numbered(*a, *b, *c),
        other => OsVersion::Custom(other.to_string()),
    };
    (info.os_type().to_string(), version)
}

/// The kernel of the running system: its release as `uname` reports it, or the error of
/// the call.
pub fn collect_kernel() -> (r: Result<Option<KernelInfo>, OsCallError>)
    ensures
        r is Ok ==> r->Ok_0 is Some,
{
    match uname_release() {
        Ok(release) => Ok(Some(KernelInfo { release })),
        Err(e) => Err(e),
    }
}

/// The running system: its type (never empty), which also names it, and its version.
pub fn collect_os() -> (r: OsBaseInfo)
    ensures
        r.os_type@.len() > 0,
        r.os_name@ == r.os_type@,
{
    let (os_type, os_version) = os_info_get();
    let os_name = os_type.clone();
    OsBaseInfo { os_type, os_name, os_version }
}

/// What the operating system report holds: the system, and the kernel if it could be
/// told.
pub fn collect_os_info() -> (r: Result<OsInfo, OsCallError>)
    ensures
        r is Ok ==> r->Ok_0.kernel_info is Some && r->Ok_0.os_base_info.os_type@.len() > 0
            && r->Ok_0.os_base_info.os_name@ == r->Ok_0.os_base_info.os_type@,
{
    match collect_kernel() {
        Ok(kernel_info) => Ok(OsInfo { os_base_info: collect_os(), kernel_info }),
        Err(e) => Err(e),
    }
}

/// The text `major.minor.build` of a Windows version.
pub open spec fn windows_version_text(major: u32, minor: u32, build: u32) -> Seq<char> {
    dec(major as nat) + seq!['.'] + dec(minor as nat) + seq!['.'] + dec(build as nat)
}

/// What Windows is reported as, given its version (`(0, 0, 0)` when it could not be
/// read) and the caption the system gives itself (if it could be read): type
/// `Windows`, named by the caption or else `Windows <version>`.
pub fn windows_os_base(version: (u32, u32, u32), caption: Option<String>) -> (r: OsBaseInfo)
    ensures
        r.os_type@ == "Windows"@,
        r.os_version@ == VersionView::Numbered(version.0 as u64, version.1 as u64, version.2 as u64),
        r.os_name@ == match caption {
            Some(c) => c@,
            None => "Windows "@ + windows_version_text(version.0, version.1, version.2),
        },
{
    let (major, minor, build) = version;
    let os_version = OsVersion::Numbered(major as u64, minor as u64, build as u64);
    let os_name = match caption {
        Some(c) => c,
        None => {
            let mut n = "Windows ".to_owned();
            let v = os_version.to_text();
            n.append(v.as_str());
            assert(n@ =~= "Windows "@ + windows_version_text(major, minor, build));
            n
        },
    };
    OsBaseInfo { os_type: "Windows".to_owned(), os_name, os_version }
}

/// The kernel of Windows is its version.
pub fn windows_kernel(version: (u32, u32, u32)) -> (r: KernelInfo)
    ensures
        r.release@ == windows_version_text(version.0, version.1, version.2),
{
    let mut release = String::new();
    push_decimal(&mut release, version.0 as u64);
    release.push('.');
    push_decimal(&mut release, version.1 as u64);
    release.push('.');
    push_decimal(&mut release, version.2 as u64);
    assert(release@ =~= windows_version_text(version.0, version.1, version.2));
    KernelInfo { release }
}

} // verus!
