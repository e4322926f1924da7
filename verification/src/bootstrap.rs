//! Parsing of bootstrap user descriptions.
//!
//! A user description reads `nickname|password` or
//! `nickname|password|group,group,...`; anything else is a bootstrap error.
//! The splitting follows the usual convention: a separator at the edge or
//! two in a row produce empty pieces, and the empty string is one empty
//! piece.

use vstd::prelude::*;

use crate::error::{AppError, ErrorKind};

verus! {

/// The first position at or after `i` holding `sep`, or the length.
pub open spec fn spec_find(s: Seq<char>, sep: char, i: int) -> int
    decreases s.len() - i,
{
    if i < 0 || i >= s.len() {
        s.len() as int
    } else if s[i] == sep {
        i
    } else {
        spec_find(s, sep, i + 1)
    }
}

/// The pieces of `s` between occurrences of `sep`.
pub open spec fn spec_split(s: Seq<char>, sep: char) -> Seq<Seq<char>>
    decreases s.len(),
    via spec_split_decreases
{
    let i = spec_find(s, sep, 0);
    if i == s.len() {
        seq![s]
    } else {
        seq![s.subrange(0, i)] + spec_split(s.subrange(i + 1, s.len() as int), sep)
    }
}

#[via_fn]
proof fn spec_split_decreases(s: Seq<char>, sep: char) {
    lemma_find_in_range(s, sep, 0);
}

/// The find never leaves the string, and what it points at is the
/// separator.
pub proof fn lemma_find_in_range(s: Seq<char>, sep: char, i: int)
    requires
        0 <= i <= s.len(),
    ensures
        i <= spec_find(s, sep, i) <= s.len(),
        spec_find(s, sep, i) < s.len() ==> s[spec_find(s, sep, i)] == sep,
    decreases s.len() - i,
{
    if i < s.len() && s[i] != sep {
        lemma_find_in_range(s, sep, i + 1);
    }
}

/// True exactly when the two strings read the same.
pub fn str_eq(a: &str, b: &str) -> (r: bool)
    ensures
        r == (a@ == b@),
{
    let la = a.unicode_len();
    let lb = b.unicode_len();
    if la != lb {
        proof {
            assert(a@ != b@);
        }
        return false;
    }
    let mut i: usize = 0;
    #[verifier::loop_isolation(false)]
    while i < la
        invariant
            i <= la,
            forall|k: int| 0 <= k < i ==> a@[k] == b@[k],
        decreases la - i,
    {
        if a.get_char(i) as u32 != b.get_char(i) as u32 {
            proof {
                assert(a@[i as int] != b@[i as int]);
            }
            return false;
        }
        i = i + 1;
    }
    proof {
        assert(a@ =~= b@);
    }
    true
}

/// Splits `s` at every occurrence of `sep`.
pub fn split_str(s: &str, sep: char) -> (r: Vec<String>)
    ensures
        r.deep_view() == spec_split(s@, sep),
    decreases s@.len(),
{
    let len = s.unicode_len();
    let mut j: usize = 0;
    #[verifier::loop_isolation(false)]
    while j < len && s.get_char(j) as u32 != sep as u32
        invariant
            j <= len,
            spec_find(s@, sep, 0) == spec_find(s@, sep, j as int),
        decreases len - j,
    {
        j = j + 1;
    }
    proof {
        assert(spec_find(s@, sep, 0) == j as int);
    }
    if j == len {
        let mut one: Vec<String> = Vec::new();
        one.push(s.to_owned());
        proof {
            assert(one.deep_view() =~= spec_split(s@, sep));
        }
        one
    } else {
        let head = s.substring_char(0, j).to_owned();
        let tail = s.substring_char(j + 1, len);
        let mut rest = split_str(tail, sep);
        proof {
            assert(tail@ == s@.subrange(j + 1, len as int));
        }
        let mut out: Vec<String> = Vec::new();
        out.push(head);
        out.append(&mut rest);
        proof {
            assert(out.deep_view() =~= spec_split(s@, sep));
        }
        out
    }
}

/// Reads one bootstrap user description: the nickname, the raw password,
/// and the group names — none when the two-field form was given.  Any other
/// shape is a bootstrap error.
pub fn parse_user_info(user_info: &str) -> (r: Result<(String, String, Vec<String>), AppError>)
    ensures
        ({
            let parts = spec_split(user_info@, '|');
            match r {
                Ok(p) => {
                    &&& (parts.len() == 2 || parts.len() == 3)
                    &&& p.0@ == parts[0]
                    &&& p.1@ == parts[1]
                    &&& (parts.len() == 2 ==> p.2.deep_view() == Seq::<Seq<char>>::empty())
                    &&& (parts.len() == 3 ==> p.2.deep_view() == spec_split(parts[2], ','))
                },
                Err(e) => e.kind == ErrorKind::BootstrapError && parts.len() != 2 && parts.len()
                    != 3,
            }
        }),
{
    let parts = split_str(user_info, '|');
    proof {
        assert(parts.deep_view().len() == parts@.len());
    }
    if parts.len() == 2 {
        proof {
            assert(parts.deep_view()[0] == parts@[0]@);
            assert(parts.deep_view()[1] == parts@[1]@);
        }
        Ok((parts[0].clone(), parts[1].clone(), Vec::new()))
    } else if parts.len() == 3 {
        proof {
            assert(parts.deep_view()[0] == parts@[0]@);
            assert(parts.deep_view()[1] == parts@[1]@);
            assert(parts.deep_view()[2] == parts@[2]@);
        }
        let groups = split_str(parts[2].as_str(), ',');
        Ok((parts[0].clone(), parts[1].clone(), groups))
    } else {
        Err(AppError::new(ErrorKind::BootstrapError))
    }
}

/// Whether a group's stored description must be rewritten to match the
/// desired one: exactly when no stored description reads as the desired
/// text.
pub fn needs_description_update(current: &Option<String>, desired: &str) -> (r: bool)
    ensures
        r == !(current matches Some(d) && d@ == desired@),
{
    match current {
        Some(d) => !str_eq(d.as_str(), desired),
        None => true,
    }
}

} // verus!
