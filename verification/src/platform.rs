//! The rendering workaround for packaged Linux builds.
//!
//! An AppImage build on a distribution outside the Debian family has to switch
//! off one renderer of the embedded web view. Which family a system belongs to
//! is read off the lines of its `os-release` description.

use crate::text::{chars_of, contains, position, same, slice, stripped, CharClass};
use crate::text::{has_infix, split_once, strip};
use vstd::prelude::*;

verus! {

/// The value of an `os-release` line as written after the `=`, without the
/// white space around it and without the double quotes around what is left.
pub open spec fn bare_value(value: Seq<char>) -> Seq<char> {
    strip(strip(value, CharClass::Space), CharClass::Exactly('"'))
}

/// The line sets `ID` (the distribution) or `ID_LIKE` (what it is based on)
/// to a value that mentions `debian` or `ubuntu`.
pub open spec fn names_debian_or_ubuntu(line: Seq<char>) -> bool {
    match split_once(line, '=') {
        Some((key, value)) => {
            &&& key == "ID"@ || key == "ID_LIKE"@
            &&& has_infix(bare_value(value), "debian"@) || has_infix(
                bare_value(value),
                "ubuntu"@,
            )
        },
        None => false,
    }
}

/// Some line of the description names Debian or Ubuntu.
pub open spec fn debian_or_ubuntu(lines: Seq<String>) -> bool {
    exists|i: int| 0 <= i < lines.len() && names_debian_or_ubuntu(#[trigger] lines[i]@)
}

/// Tells whether one `os-release` line names Debian or Ubuntu as the
/// distribution or as its base.
pub fn line_names_debian_or_ubuntu(line: &str) -> (r: bool)
    ensures
        r == names_debian_or_ubuntu(line@),
{
    let text = chars_of(line);
    match position(&text, '=') {
        None => false,
        Some(at) => {
            assert(at < text.len());
            let key = slice(&text, 0, at);
            let value = slice(&text, at + 1, text.len());
            let value = stripped(&value, CharClass::Space);
            let value = stripped(&value, CharClass::Exactly('"'));
            let is_id_key = same(&key, &chars_of("ID")) || same(&key, &chars_of("ID_LIKE"));
            let is_debian_or_ubuntu_value = contains(&value, &chars_of("debian")) || contains(
                &value,
                &chars_of("ubuntu"),
            );
            is_id_key && is_debian_or_ubuntu_value
        },
    }
}

/// Tells whether the system described by `lines`, the lines of its
/// `os-release` file, is Debian, Ubuntu or based on one of them. A system
/// without such a file is described by no lines.
pub fn check_if_debian_or_ubuntu(lines: &Vec<String>) -> (r: bool)
    ensures
        r == debian_or_ubuntu(lines@),
{
    let mut i: usize = 0;
    while i < lines.len()
        invariant
            i <= lines.len(),
            forall|j: int| 0 <= j < i ==> !names_debian_or_ubuntu(#[trigger] lines@[j]@),
        decreases lines.len() - i,
    {
        if line_names_debian_or_ubuntu(lines[i].as_str()) {
            return true;
        }
        i += 1;
    }
    false
}

/// Tells whether the renderer workaround is to be set: only for an AppImage
/// build, only on Linux, and only where the system is not of the Debian
/// family.
pub fn should_set_webkit_workaround(is_appimage: bool, is_linux: bool, os_release: &Vec<String>) -> (r:
    bool)
    ensures
        r == (is_appimage && is_linux && !debian_or_ubuntu(os_release@)),
{
    if !is_appimage {
        return false;
    }
    if is_linux {
        let is_debian_based = check_if_debian_or_ubuntu(os_release);
        !is_debian_based
    } else {
        false
    }
}

} // verus!
