//! Small verified operations on characters: the part of a string before a
//! separator, and ASCII case-insensitive matching of header names.
use vstd::prelude::*;

verus! {

/// The characters of `s` before the first `sep`, or all of `s`.
pub open spec fn prefix_before(s: Seq<char>, sep: char) -> Seq<char>
    decreases s.len(),
{
    if s.len() == 0 || s[0] == sep {
        Seq::empty()
    } else {
        seq![s[0]] + prefix_before(s.subrange(1, s.len() as int), sep)
    }
}

proof fn lemma_prefix_before(s: Seq<char>, sep: char, i: int)
    requires
        0 <= i <= s.len(),
        forall|j: int| 0 <= j < i ==> s[j] != sep,
        i == s.len() || s[i] == sep,
    ensures
        prefix_before(s, sep) == s.subrange(0, i),
    decreases i,
{
    if i > 0 {
        let rest = s.subrange(1, s.len() as int);
        lemma_prefix_before(rest, sep, i - 1);
        assert(seq![s[0]] + rest.subrange(0, i - 1) =~= s.subrange(0, i));
    } else {
        assert(s.subrange(0, 0) =~= Seq::<char>::empty());
    }
}

/// The part of `s` before the first `sep`, or all of `s`.
pub fn before_first(s: &str, sep: char) -> (r: &str)
    ensures
        r@ == prefix_before(s@, sep),
{
    let n = s.unicode_len();
    let mut i: usize = 0;
    while i < n && s.get_char(i) != sep
        invariant
            n == s@.len(),
            i <= n,
            forall|j: int| 0 <= j < i ==> s@[j] != sep,
        decreases n - i,
    {
        i = i + 1;
    }
    proof {
        lemma_prefix_before(s@, sep, i as int);
    }
    s.substring_char(0, i)
}

/// Character `c` of a name matches character `t` of a lower-case ASCII
/// pattern: equal, or the upper-case form of an ASCII letter.
pub open spec fn char_matches(c: char, t: char) -> bool {
    c == t || ('a' <= t <= 'z' && c as u32 + 32 == t as u32)
}

/// `name` equals the lower-case ASCII `pattern`, ignoring ASCII case.
pub open spec fn name_matches(name: Seq<char>, pattern: Seq<char>) -> bool {
    &&& name.len() == pattern.len()
    &&& forall|i: int| 0 <= i < name.len() ==> char_matches(#[trigger] name[i], pattern[i])
}

pub fn matches_ignoring_case(name: &str, pattern: &str) -> (r: bool)
    ensures
        r == name_matches(name@, pattern@),
{
    let n = name.unicode_len();
    if n != pattern.unicode_len() {
        return false;
    }
    let mut i: usize = 0;
    while i < n
        invariant
            n == name@.len(),
            n == pattern@.len(),
            i <= n,
            forall|j: int| 0 <= j < i ==> char_matches(#[trigger] name@[j], pattern@[j]),
        decreases n - i,
    {
        let c = name.get_char(i);
        let t = pattern.get_char(i);
        let same = c == t || ('a' <= t && t <= 'z' && c as u32 + 32 == t as u32);
        if !same {
            return false;
        }
        i = i + 1;
    }
    true
}

} // verus!
