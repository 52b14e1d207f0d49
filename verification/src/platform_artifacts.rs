//! Versions that name a platform build rather than a release, such as
//! `1.2.3-linux-x64`.
use vstd::prelude::*;

use crate::text::{chars_of, chars_eq_str, last_index_char, last_index_of, slice_chars};

verus! {

pub open spec fn platform_os(v: Seq<char>) -> bool {
    v == "aix"@ || v == "android"@ || v == "darwin"@ || v == "freebsd"@ || v == "linux"@ || v
        == "openbsd"@ || v == "sunos"@ || v == "win32"@
}

pub open spec fn platform_cpu(v: Seq<char>) -> bool {
    v == "arm"@ || v == "arm64"@ || v == "ia32"@ || v == "loong64"@ || v == "mips"@ || v == "mipsel"@
        || v == "ppc"@ || v == "ppc64"@ || v == "riscv64"@ || v == "s390"@ || v == "s390x"@ || v
        == "x64"@
}

/// A version ends in `-<os>-<cpu>`: the part after its last `-` is a CPU
/// name and the part between that and the `-` before it an OS name.
pub open spec fn is_platform_artifact(v: Seq<char>) -> bool {
    match last_index_of(v, '-') {
        None => false,
        Some(i) => {
            let head = v.take(i);
            match last_index_of(head, '-') {
                None => false,
                Some(j) => platform_os(head.skip(j + 1)) && platform_cpu(v.skip(i + 1)),
            }
        },
    }
}

fn is_platform_os(v: &[char]) -> (r: bool)
    ensures
        r == platform_os(v@),
{
    chars_eq_str(v, "aix") || chars_eq_str(v, "android") || chars_eq_str(v, "darwin")
        || chars_eq_str(v, "freebsd") || chars_eq_str(v, "linux") || chars_eq_str(v, "openbsd")
        || chars_eq_str(v, "sunos") || chars_eq_str(v, "win32")
}

fn is_platform_cpu(v: &[char]) -> (r: bool)
    ensures
        r == platform_cpu(v@),
{
    chars_eq_str(v, "arm") || chars_eq_str(v, "arm64") || chars_eq_str(v, "ia32") || chars_eq_str(
        v,
        "loong64",
    ) || chars_eq_str(v, "mips") || chars_eq_str(v, "mipsel") || chars_eq_str(v, "ppc")
        || chars_eq_str(v, "ppc64") || chars_eq_str(v, "riscv64") || chars_eq_str(v, "s390")
        || chars_eq_str(v, "s390x") || chars_eq_str(v, "x64")
}

pub fn is_platform_artifact_version(version: &str) -> (r: bool)
    ensures
        r == is_platform_artifact(version@),
{
    let v = chars_of(version);
    let i = match last_index_char(v.as_slice(), '-') {
        Some(i) => i,
        None => return false,
    };
    let head = slice_chars(v.as_slice(), 0, i);
    let cpu = slice_chars(v.as_slice(), i + 1, v.len());
    assert(head@ =~= version@.take(i as int));
    assert(cpu@ =~= version@.skip(i + 1));
    let j = match last_index_char(head.as_slice(), '-') {
        Some(j) => j,
        None => return false,
    };
    let os = slice_chars(head.as_slice(), j + 1, head.len());
    assert(os@ =~= head@.skip(j + 1));
    is_platform_os(os.as_slice()) && is_platform_cpu(cpu.as_slice())
}

} // verus!
