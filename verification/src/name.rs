//! Environment names and the reserved sentinel.

use crate::text::{chars_of, str_eq};
use vstd::prelude::*;

verus! {

/// The value of the marker while no environment is active. It is never the
/// name of an environment.
pub const NO_ENV_ACTIVE: &'static str = "NO ENV";

/// The shell variable that holds the marker.
pub const ENV_VAR: &'static str = "ALIAS_ENV";

/// The characters a name is made of: ASCII letters and digits, `.`, `_`, `-`.
pub open spec fn is_name_char(c: char) -> bool {
    ('a' <= c && c <= 'z') || ('A' <= c && c <= 'Z') || ('0' <= c && c <= '9') || c == '.'
        || c == '_' || c == '-'
}

/// A name an environment can have: not empty, made of name characters only,
/// and not the sentinel.
pub open spec fn valid_env_name(name: Seq<char>) -> bool {
    &&& name.len() > 0
    &&& forall|i: int| 0 <= i < name.len() ==> is_name_char(#[trigger] name[i])
    &&& name != NO_ENV_ACTIVE@
}

/// Whether `c` may stand in a name.
pub fn name_char(c: char) -> (r: bool)
    ensures
        r == is_name_char(c),
{
    ('a' <= c && c <= 'z') || ('A' <= c && c <= 'Z') || ('0' <= c && c <= '9') || c == '.'
        || c == '_' || c == '-'
}

/// Whether `env` can name an environment.
pub fn is_valid_env_name(env: &str) -> (r: bool)
    ensures
        r == valid_env_name(env@),
{
    let cs = chars_of(env);
    if cs.len() == 0 {
        return false;
    }
    let mut i: usize = 0;
    while i < cs.len()
        invariant
            i <= cs@.len(),
            cs@ == env@,
            forall|k: int| 0 <= k < i ==> is_name_char(#[trigger] cs@[k]),
        decreases cs@.len() - i,
    {
        if !name_char(cs[i]) {
            return false;
        }
        i += 1;
    }
    !str_eq(env, NO_ENV_ACTIVE)
}

/// The sentinel holds a space, so the rule on characters alone keeps it out:
/// a text of name characters that is not empty is a name.
pub proof fn name_characters_suffice(name: Seq<char>)
    requires
        name.len() > 0,
        forall|i: int| 0 <= i < name.len() ==> is_name_char(#[trigger] name[i]),
    ensures
        valid_env_name(name),
{
    reveal_strlit("NO ENV");
    if name == NO_ENV_ACTIVE@ {
        assert(!is_name_char(name[2]));
    }
}

} // verus!
