//! The driver-version parser: a raw version string splits into a semantic
//! part and an optional revision suffix, and the semantic part splits into
//! major, minor and patch on dots.

use vstd::prelude::*;
use crate::errors::FeatureError;
use crate::text::char_pred;
use crate::text::find_char;
use crate::text::first_at;
use crate::text::lemma_first_at_bounds;
use crate::text::lemma_first_at_found;
use crate::text::lemma_first_at_none;

verus! {

/// The characters that separate the semantic version from a revision suffix.
pub open spec fn is_delim(c: char) -> bool {
    c == '-' || c == '+' || c == '~'
}

pub open spec fn delim_pred() -> spec_fn(char) -> bool {
    |c: char| is_delim(c)
}

/// The semantic part of a raw version string: everything before the first
/// delimiter, or the whole string if there is none.
pub open spec fn semver_of(s: Seq<char>) -> Seq<char> {
    if first_at(s, delim_pred()) < 0 {
        s
    } else {
        s.take(first_at(s, delim_pred()))
    }
}

/// The revision suffix: everything after the first delimiter, if any.
pub open spec fn revision_of(s: Seq<char>) -> Option<Seq<char>> {
    if first_at(s, delim_pred()) < 0 {
        None
    } else {
        Some(s.skip(first_at(s, delim_pred()) + 1))
    }
}

/// First `-`, `+` or `~` in `s`.
fn find_delim(s: &str) -> (r: Option<usize>)
    ensures
        match r {
            Some(i) => i < s@.len() && first_at(s@, delim_pred()) == i as int,
            None => first_at(s@, delim_pred()) == -1,
        },
{
    let len = s.unicode_len();
    let mut i: usize = 0;
    while i < len
        invariant
            i <= len,
            len == s@.len(),
            forall|j: int| 0 <= j < i ==> !(delim_pred()(s@[j])),
        decreases len - i,
    {
        let c = s.get_char(i);
        if c == '-' || c == '+' || c == '~' {
            proof {
                lemma_first_at_found(s@, delim_pred(), i as int);
            }
            return Some(i);
        }
        i += 1;
    }
    proof {
        lemma_first_at_none(s@, delim_pred());
    }
    None
}

/// Scans a raw version string for the first `-`, `+` or `~`: the part before
/// it is the semantic version, the part after it the revision. Without a
/// delimiter the whole string is the semantic version and there is no
/// revision.
pub fn parse_version(raw: &str) -> (r: (String, Option<String>))
    ensures
        r.0@ == semver_of(raw@),
        r.1 is Some <==> revision_of(raw@) is Some,
        r.1 matches Some(rev) ==> revision_of(raw@) == Some(rev@),
{
    match find_delim(raw) {
        None => (raw.to_owned(), None),
        Some(i) => {
            let len = raw.unicode_len();
            let sv = raw.substring_char(0, i);
            let rev = raw.substring_char(i + 1, len);
            proof {
                assert(raw@.subrange(0, i as int) =~= raw@.take(i as int));
                assert(raw@.subrange(i + 1, len as int) =~= raw@.skip(i + 1));
            }
            (sv.to_owned(), Some(rev.to_owned()))
        },
    }
}

/// Dot-separated components of a string. The empty string has one (empty)
/// component; every dot opens another.
pub open spec fn dot_split(s: Seq<char>) -> Seq<Seq<char>>
    decreases s.len(),
{
    if s.len() == 0 {
        seq![Seq::<char>::empty()]
    } else {
        let rest = dot_split(s.drop_first());
        if s[0] == '.' {
            seq![Seq::<char>::empty()] + rest
        } else {
            seq![seq![s[0]] + rest[0]] + rest.drop_first()
        }
    }
}

pub proof fn lemma_dot_split_len(s: Seq<char>)
    ensures
        dot_split(s).len() >= 1,
    decreases s.len(),
{
    if s.len() > 0 {
        lemma_dot_split_len(s.drop_first());
    }
}

/// A string without dots is a single component.
pub proof fn lemma_dot_split_no_dot(s: Seq<char>)
    requires
        forall|j: int| 0 <= j < s.len() ==> s[j] != '.',
    ensures
        dot_split(s) == seq![s],
    decreases s.len(),
{
    if s.len() == 0 {
        assert(s =~= Seq::<char>::empty());
    } else {
        assert forall|j: int| 0 <= j < s.drop_first().len() implies s.drop_first()[j] != '.' by {
            assert(s.drop_first()[j] == s[j + 1]);
        }
        lemma_dot_split_no_dot(s.drop_first());
        assert(seq![s[0]] + s.drop_first() =~= s);
    }
}

/// Splitting at the first dot: the head component is what precedes it, the
/// remaining components are those of what follows it.
pub proof fn lemma_dot_split_at_dot(s: Seq<char>, d: int)
    requires
        0 <= d < s.len(),
        s[d] == '.',
        forall|j: int| 0 <= j < d ==> s[j] != '.',
    ensures
        dot_split(s) == seq![s.take(d)] + dot_split(s.skip(d + 1)),
    decreases d,
{
    if d == 0 {
        assert(s.take(0) =~= Seq::<char>::empty());
        assert(s.drop_first() =~= s.skip(1));
    } else {
        let df = s.drop_first();
        assert(df[d - 1] == s[d]);
        assert forall|j: int| 0 <= j < d - 1 implies df[j] != '.' by {
            assert(df[j] == s[j + 1]);
        }
        lemma_dot_split_at_dot(df, d - 1);
        assert(df.take(d - 1) =~= s.subrange(1, d));
        assert(seq![s[0]] + s.subrange(1, d) =~= s.take(d));
        assert(df.skip(d - 1 + 1) =~= s.skip(d + 1));
        let rest = dot_split(df);
        assert(rest == seq![df.take(d - 1)] + dot_split(df.skip(d)));
        assert(rest[0] == df.take(d - 1));
        assert(rest.drop_first() =~= dot_split(df.skip(d)));
        assert(dot_split(s) == seq![seq![s[0]] + rest[0]] + rest.drop_first());
        assert(dot_split(s) =~= seq![s.take(d)] + dot_split(s.skip(d + 1)));
    }
}

/// Splits a semantic version on dots. At least three components are
/// required; the first three are returned and anything beyond them is
/// ignored; fewer than three is an error.
pub fn split_semver(semver: &str) -> (r: Result<(String, String, String), FeatureError>)
    ensures
        r is Ok <==> dot_split(semver@).len() >= 3,
        r matches Ok(t) ==> t.0@ == dot_split(semver@)[0] && t.1@ == dot_split(semver@)[1]
            && t.2@ == dot_split(semver@)[2],
        r matches Err(e) ==> e == FeatureError::SemverSplit,
{
    let len = semver.unicode_len();
    let d1 = match find_char(semver, '.') {
        None => {
            proof {
                lemma_first_at_bounds(semver@, char_pred('.'));
                lemma_dot_split_no_dot(semver@);
            }
            return Err(FeatureError::SemverSplit);
        },
        Some(d1) => d1,
    };
    proof {
        lemma_first_at_bounds(semver@, char_pred('.'));
        lemma_dot_split_at_dot(semver@, d1 as int);
    }
    let c1 = semver.substring_char(0, d1);
    let rest1 = semver.substring_char(d1 + 1, len);
    proof {
        assert(semver@.subrange(0, d1 as int) =~= semver@.take(d1 as int));
        assert(semver@.subrange(d1 + 1, len as int) =~= semver@.skip(d1 + 1));
    }
    let ghost split0 = dot_split(semver@);
    proof {
        assert(split0 == seq![c1@] + dot_split(rest1@));
        assert(split0[0] == c1@);
    }
    let len1 = rest1.unicode_len();
    let d2 = match find_char(rest1, '.') {
        None => {
            proof {
                lemma_first_at_bounds(rest1@, char_pred('.'));
                lemma_dot_split_no_dot(rest1@);
                assert(split0.len() == 2);
            }
            return Err(FeatureError::SemverSplit);
        },
        Some(d2) => d2,
    };
    proof {
        lemma_first_at_bounds(rest1@, char_pred('.'));
        lemma_dot_split_at_dot(rest1@, d2 as int);
    }
    let c2 = rest1.substring_char(0, d2);
    let rest2 = rest1.substring_char(d2 + 1, len1);
    proof {
        assert(rest1@.subrange(0, d2 as int) =~= rest1@.take(d2 as int));
        assert(rest1@.subrange(d2 + 1, len1 as int) =~= rest1@.skip(d2 + 1));
        assert(dot_split(rest1@) == seq![c2@] + dot_split(rest2@));
        assert(split0[1] == c2@);
        lemma_dot_split_len(rest2@);
        assert(split0.len() >= 3);
        assert(split0[2] == dot_split(rest2@)[0]);
    }
    match find_char(rest2, '.') {
        None => {
            proof {
                lemma_first_at_bounds(rest2@, char_pred('.'));
                lemma_dot_split_no_dot(rest2@);
            }
            Ok((c1.to_owned(), c2.to_owned(), rest2.to_owned()))
        },
        Some(d3) => {
            proof {
                lemma_first_at_bounds(rest2@, char_pred('.'));
                lemma_dot_split_at_dot(rest2@, d3 as int);
                assert(dot_split(rest2@)[0] == rest2@.take(d3 as int));
            }
            let c3 = rest2.substring_char(0, d3);
            proof {
                assert(rest2@.subrange(0, d3 as int) =~= rest2@.take(d3 as int));
            }
            Ok((c1.to_owned(), c2.to_owned(), c3.to_owned()))
        },
    }
}

} // verus!
