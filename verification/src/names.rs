//! Local validation of names and paths before they reach the engine.
//!
//! Two checks live here.  Every string handed to a native call must be free
//! of embedded NUL characters, since the engine takes NUL-terminated
//! strings; a string that fails this check is rejected locally with a
//! validation error instead of being truncated silently.  Volume-group and
//! logical-volume names additionally follow the engine's documented naming
//! rules: a bounded length, a restricted character set, no leading hyphen,
//! and neither of the two relative directory names.  This layer enforces
//! those rules itself, before any request is formed, so that a bad name
//! never depends on an engine round trip to be caught.

use vstd::prelude::*;
use vstd::string::StrSliceExecFns;

verus! {

/// The longest name the engine accepts, in characters.
pub const MAX_NAME_LEN: usize = 127;

/// Whether the string holds an embedded NUL character.
pub open spec fn has_nul(s: Seq<char>) -> bool {
    s.contains('\0')
}

/// Whether the character may appear in a volume-group or logical-volume
/// name: letters, digits, `.`, `_`, `+` and `-`.
pub open spec fn valid_name_char(c: char) -> bool {
    ||| ('a' as u32) <= (c as u32) && (c as u32) <= ('z' as u32)
    ||| ('A' as u32) <= (c as u32) && (c as u32) <= ('Z' as u32)
    ||| ('0' as u32) <= (c as u32) && (c as u32) <= ('9' as u32)
    ||| c == '.'
    ||| c == '_'
    ||| c == '+'
    ||| c == '-'
}

/// Whether the string is exactly `.`.
pub open spec fn is_dot(s: Seq<char>) -> bool {
    s.len() == 1 && s[0] == '.'
}

/// Whether the string is exactly `..`.
pub open spec fn is_dot_dot(s: Seq<char>) -> bool {
    s.len() == 2 && s[0] == '.' && s[1] == '.'
}

/// The naming rule this layer enforces for volume groups and logical
/// volumes: non-empty, at most [`MAX_NAME_LEN`] characters, only characters
/// from the allowed set, no leading hyphen, and not a relative directory
/// name.
pub open spec fn valid_name(s: Seq<char>) -> bool {
    &&& 0 < s.len() <= MAX_NAME_LEN
    &&& (forall|i: int| 0 <= i < s.len() ==> valid_name_char(#[trigger] s[i]))
    &&& s[0] != '-'
    &&& !is_dot(s)
    &&& !is_dot_dot(s)
}

/// Whether `s` holds an embedded NUL character.
pub fn str_has_nul(s: &str) -> (r: bool)
    ensures
        r == has_nul(s@),
{
    let n = s.unicode_len();
    let mut i: usize = 0;
    while i < n
        invariant
            n == s@.len(),
            0 <= i <= n,
            forall|j: int| 0 <= j < i ==> s@[j] != '\0',
        decreases n - i,
    {
        if s.get_char(i) == '\0' {
            return true;
        }
        i = i + 1;
    }
    false
}

/// Whether `s` is a valid volume-group or logical-volume name under this
/// layer's naming rule.
pub fn is_valid_name(s: &str) -> (r: bool)
    ensures
        r == valid_name(s@),
{
    let n = s.unicode_len();
    if n == 0 || n > MAX_NAME_LEN {
        return false;
    }
    if s.get_char(0) == '-' {
        return false;
    }
    if n == 1 && s.get_char(0) == '.' {
        return false;
    }
    if n == 2 && s.get_char(0) == '.' && s.get_char(1) == '.' {
        return false;
    }
    let mut i: usize = 0;
    while i < n
        invariant
            n == s@.len(),
            0 <= i <= n,
            forall|j: int| 0 <= j < i ==> valid_name_char(#[trigger] s@[j]),
        decreases n - i,
    {
        let c = s.get_char(i);
        let ok = (c >= 'a' && c <= 'z') || (c >= 'A' && c <= 'Z') || (c >= '0' && c <= '9')
            || c == '.' || c == '_' || c == '+' || c == '-';
        if !ok {
            return false;
        }
        i = i + 1;
    }
    true
}

} // verus!
