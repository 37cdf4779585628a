//! @property rename coordination.
//!
//! A single `@property (nonatomic, copy) NSString *name` generates:
//!   - a getter selector `name`
//!   - a setter selector `setName:`
//!   - an ivar `_name` (via `@synthesize`)
//!
//! This module computes all the identifiers that must be renamed together.

use vstd::prelude::*;

use crate::text::{append_str, append_string, chars_of, push_char, string_of, to_owned_string};

verus! {

/// What `char::to_uppercase` yields for `c`.
pub uninterp spec fn char_upper(c: char) -> Seq<char>;

/// The ASCII upper case of `c`: `a`–`z` become `A`–`Z`; any other
/// character is left as it is.
pub open spec fn ascii_upper(c: char) -> char {
    if c == 'a' {
        'A'
    } else if c == 'b' {
        'B'
    } else if c == 'c' {
        'C'
    } else if c == 'd' {
        'D'
    } else if c == 'e' {
        'E'
    } else if c == 'f' {
        'F'
    } else if c == 'g' {
        'G'
    } else if c == 'h' {
        'H'
    } else if c == 'i' {
        'I'
    } else if c == 'j' {
        'J'
    } else if c == 'k' {
        'K'
    } else if c == 'l' {
        'L'
    } else if c == 'm' {
        'M'
    } else if c == 'n' {
        'N'
    } else if c == 'o' {
        'O'
    } else if c == 'p' {
        'P'
    } else if c == 'q' {
        'Q'
    } else if c == 'r' {
        'R'
    } else if c == 's' {
        'S'
    } else if c == 't' {
        'T'
    } else if c == 'u' {
        'U'
    } else if c == 'v' {
        'V'
    } else if c == 'w' {
        'W'
    } else if c == 'x' {
        'X'
    } else if c == 'y' {
        'Y'
    } else if c == 'z' {
        'Z'
    } else {
        c
    }
}

/// `char::to_uppercase`, collected into a string.  Its result is named by
/// `char_upper`; for ASCII input the contract also states the mapping that
/// the documentation gives (`a`–`z` become `A`–`Z`, every other ASCII
/// character maps to itself).
#[verifier::external_body]
fn char_to_uppercase(c: char) -> (r: String)
    ensures
        r@ == char_upper(c),
        'a' <= c && c <= 'z' ==> r@ == seq![ascii_upper(c)],
        (c as u32) < 128 && !('a' <= c && c <= 'z') ==> r@ == seq![c],
{
    c.to_uppercase().collect::<String>()
}

/// `s` with its first character upper-cased.
pub open spec fn capitalized(s: Seq<char>) -> Seq<char> {
    if s.len() == 0 {
        seq![]
    } else {
        char_upper(s[0]) + s.drop_first()
    }
}

/// Upper-cases the first character of `s`.
pub fn capitalize_first(s: &str) -> (r: String)
    ensures
        r@ == capitalized(s@),
        s@.len() > 0 && 'a' <= s@[0] && s@[0] <= 'z' ==> r@ == seq![ascii_upper(s@[0])] + s@.drop_first(),
        s@.len() > 0 && (s@[0] as u32) < 128 && !('a' <= s@[0] && s@[0] <= 'z') ==> r@ == s@,
        s@.len() == 0 ==> r@.len() == 0,
{
    let v = chars_of(s);
    if v.len() == 0 {
        return String::new();
    }
    let mut r = char_to_uppercase(v[0]);
    let ghost head = r@;
    let rest = string_of(&v, 1, v.len());
    append_string(&mut r, &rest);
    assert(v@.subrange(1, v.len() as int) =~= v@.drop_first());
    proof {
        if (v@[0] as u32) < 128 {
            assert(head.len() == 1);
            assert(r@ =~= head + v@.drop_first());
            assert(r@.drop_first() =~= v@.drop_first());
            if 'a' <= v@[0] && v@[0] <= 'z' {
                assert(r@ =~= seq![ascii_upper(v@[0])] + v@.drop_first());
            }
            if !('a' <= v@[0] && v@[0] <= 'z') {
                assert(r@ =~= s@);
            }
        }
    }
    r
}

/// The default setter selector of a property: `set<Name>:`.
pub open spec fn default_setter(name: Seq<char>) -> Seq<char> {
    "set"@ + capitalized(name) + seq![':']
}

/// All rename targets derived from a single `@property` name.
#[derive(Debug, Clone)]
pub struct PropertyRenameTargets {
    pub property_name: String,
    /// The getter selector (default: same as property name).
    pub getter: String,
    /// The setter selector (default: `set<Name>:`).
    pub setter: String,
    /// The synthesized ivar (default: `_<name>`).
    pub ivar: String,
}

impl PropertyRenameTargets {
    /// Compute default targets from a property name.
    ///
    /// Pass custom getter/setter if `@property (getter=isHidden)` is used.
    pub fn from_property(
        name: &str,
        custom_getter: Option<&str>,
        custom_setter: Option<&str>,
    ) -> (t: Self)
        ensures
            t.property_name@ == name@,
            t.getter@ == match custom_getter {
                Some(g) => g@,
                None => name@,
            },
            t.setter@ == match custom_setter {
                Some(s) => s@,
                None => default_setter(name@),
            },
            t.ivar@ == seq!['_'] + name@,
    {
        let getter = match custom_getter {
            Some(g) => to_owned_string(g),
            None => to_owned_string(name),
        };
        let setter = match custom_setter {
            Some(s) => to_owned_string(s),
            None => {
                let mut s = String::new();
                append_str(&mut s, "set");
                let cap = capitalize_first(name);
                append_string(&mut s, &cap);
                push_char(&mut s, ':');
                assert(s@ =~= default_setter(name@));
                s
            },
        };
        let mut ivar = String::new();
        push_char(&mut ivar, '_');
        append_str(&mut ivar, name);
        assert(ivar@ =~= seq!['_'] + name@);
        PropertyRenameTargets { property_name: to_owned_string(name), getter, setter, ivar }
    }
}

} // verus!
