//! Rate-limit keys: "provider:identifier" keys, and the client address
//! taken from forwarding headers.
use vstd::prelude::*;

use crate::registry::Headers;
use crate::text::{before_first, matches_ignoring_case, name_matches, prefix_before};

verus! {

/// A character with the Unicode White_Space property.
pub open spec fn is_white_space(c: char) -> bool {
    let u = c as u32;
    ||| 0x09 <= u <= 0x0D
    ||| u == 0x20
    ||| u == 0x85
    ||| u == 0xA0
    ||| u == 0x1680
    ||| 0x2000 <= u <= 0x200A
    ||| u == 0x2028
    ||| u == 0x2029
    ||| u == 0x202F
    ||| u == 0x205F
    ||| u == 0x3000
}

/// `s` without its leading whitespace.
pub open spec fn trim_start_of(s: Seq<char>) -> Seq<char>
    decreases s.len(),
{
    if s.len() > 0 && is_white_space(s[0]) {
        trim_start_of(s.subrange(1, s.len() as int))
    } else {
        s
    }
}

/// `s` without its trailing whitespace.
pub open spec fn trim_end_of(s: Seq<char>) -> Seq<char>
    decreases s.len(),
{
    if s.len() > 0 && is_white_space(s.last()) {
        trim_end_of(s.drop_last())
    } else {
        s
    }
}

/// `s` without its leading and trailing whitespace.
pub open spec fn trimmed_of(s: Seq<char>) -> Seq<char> {
    trim_end_of(trim_start_of(s))
}

fn is_white_space_char(c: char) -> (r: bool)
    ensures
        r == is_white_space(c),
{
    let u = c as u32;
    (0x09 <= u && u <= 0x0D) || u == 0x20 || u == 0x85 || u == 0xA0 || u == 0x1680 || (0x2000
        <= u && u <= 0x200A) || u == 0x2028 || u == 0x2029 || u == 0x202F || u == 0x205F || u
        == 0x3000
}

proof fn lemma_trim_start(s: Seq<char>, i: int)
    requires
        0 <= i <= s.len(),
        forall|j: int| 0 <= j < i ==> is_white_space(#[trigger] s[j]),
        i == s.len() || !is_white_space(s[i]),
    ensures
        trim_start_of(s) == s.subrange(i, s.len() as int),
    decreases i,
{
    if i > 0 {
        let rest = s.subrange(1, s.len() as int);
        assert(is_white_space(s[0]));
        assert forall|j: int| 0 <= j < i - 1 implies is_white_space(#[trigger] rest[j]) by {
            assert(rest[j] == s[j + 1]);
        }
        lemma_trim_start(rest, i - 1);
        assert(rest.subrange(i - 1, rest.len() as int) =~= s.subrange(i, s.len() as int));
    } else {
        assert(s.subrange(0, s.len() as int) =~= s);
    }
}

proof fn lemma_trim_end(t: Seq<char>, k: int)
    requires
        0 <= k <= t.len(),
        forall|m: int| k <= m < t.len() ==> is_white_space(#[trigger] t[m]),
        k == 0 || !is_white_space(t[k - 1]),
    ensures
        trim_end_of(t) == t.subrange(0, k),
    decreases t.len() - k,
{
    if k < t.len() {
        assert(is_white_space(t.last()));
        let d = t.drop_last();
        assert forall|m: int| k <= m < d.len() implies is_white_space(#[trigger] d[m]) by {
            assert(d[m] == t[m]);
        }
        lemma_trim_end(d, k);
        assert(d.subrange(0, k) =~= t.subrange(0, k));
    } else {
        assert(t.subrange(0, k) =~= t);
    }
}

/// `s` without its leading and trailing White_Space characters, as
/// `str::trim` gives it.
fn trim(s: &str) -> (r: String)
    ensures
        r@ == trimmed_of(s@),
{
    let n = s.unicode_len();
    let mut i: usize = 0;
    while i < n && is_white_space_char(s.get_char(i))
        invariant
            n == s@.len(),
            i <= n,
            forall|j: int| 0 <= j < i ==> is_white_space(#[trigger] s@[j]),
        decreases n - i,
    {
        i = i + 1;
    }
    proof {
        lemma_trim_start(s@, i as int);
    }
    let mut j: usize = n;
    while j > i && is_white_space_char(s.get_char(j - 1))
        invariant
            n == s@.len(),
            i <= j <= n,
            forall|m: int| j <= m < n ==> is_white_space(#[trigger] s@[m]),
        decreases j,
    {
        j = j - 1;
    }
    proof {
        let t = s@.subrange(i as int, n as int);
        assert forall|m: int| j - i <= m < t.len() implies is_white_space(#[trigger] t[m]) by {
            assert(t[m] == s@[m + i]);
        }
        if j > i {
            assert(t[j - i - 1] == s@[j - 1]);
        }
        lemma_trim_end(t, j - i);
        assert(t.subrange(0, j - i) =~= s@.subrange(i as int, j as int));
    }
    String::from_str(s.substring_char(i, j))
}

/// The client address that the first forwarding header in `h` names:
/// `x-forwarded-for` gives its first comma-separated entry, trimmed;
/// `x-real-ip` and `cf-connecting-ip` give their value as it is. Header
/// names are compared ignoring ASCII case.
pub open spec fn client_ip(h: Seq<(String, String)>) -> Option<Seq<char>>
    decreases h.len(),
{
    if h.len() == 0 {
        None
    } else if name_matches(h[0].0@, "x-forwarded-for"@) {
        Some(trimmed_of(prefix_before(h[0].1@, ',')))
    } else if name_matches(h[0].0@, "x-real-ip"@) || name_matches(h[0].0@, "cf-connecting-ip"@) {
        Some(h[0].1@)
    } else {
        client_ip(h.subrange(1, h.len() as int))
    }
}

/// Generic rate-limit key generator.
pub trait KeyGenerator {
    /// The key `provider:identifier`.
    fn generate_key(&self, provider: &str, identifier: &str) -> (r: String)
        ensures
            r@ == provider@ + ":"@ + identifier@,
    {
        String::from_str(provider).concat(":").concat(identifier)
    }

    /// The client address named by the forwarding headers, if any.
    fn extract_client_ip(&self, headers: &Headers) -> (r: Option<String>)
        ensures
            match r {
                Some(ip) => client_ip(headers@) == Some(ip@),
                None => client_ip(headers@) is None,
            },
    {
        let n = headers.len();
        let mut i: usize = 0;
        assert(headers@.subrange(0, n as int) =~= headers@);
        while i < n
            invariant
                n == headers@.len(),
                i <= n,
                client_ip(headers@) == client_ip(headers@.subrange(i as int, n as int)),
            decreases n - i,
        {
            let ghost rest = headers@.subrange(i as int, n as int);
            assert(rest.subrange(1, rest.len() as int) =~= headers@.subrange(i + 1, n as int));
            let name = headers[i].0.as_str();
            let value = headers[i].1.as_str();
            if matches_ignoring_case(name, "x-forwarded-for") {
                return Some(trim(before_first(value, ',')));
            }
            if matches_ignoring_case(name, "x-real-ip") || matches_ignoring_case(
                name,
                "cf-connecting-ip",
            ) {
                return Some(headers[i].1.clone());
            }
            i = i + 1;
        }
        None
    }
}

/// The key generator with the default behaviour.
pub struct DefaultKeyGenerator;

impl KeyGenerator for DefaultKeyGenerator {

}

} // verus!
