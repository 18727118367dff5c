//! Verified helpers over strings viewed as sequences of characters:
//! equality, lexicographic order, ASCII upper-casing, prefix handling and
//! detection of the verbatim-quote closing delimiter.

use vstd::prelude::*;
use vstd::string::StrSliceExecFns;
use vstd::string::StringExecFns;

verus! {

/// Dropping the first element of a suffix advances the suffix by one.
pub proof fn lemma_skip_first<T>(s: Seq<T>, i: int)
    requires
        0 <= i < s.len(),
    ensures
        s.skip(i).drop_first() =~= s.skip(i + 1),
        s.skip(i).len() == s.len() - i,
        s.skip(i)[0] == s[i],
{
}

/// Character-by-character equality of two string slices.
pub fn str_eq(a: &str, b: &str) -> (r: bool)
    ensures
        r == (a@ == b@),
{
    let alen = a.unicode_len();
    let blen = b.unicode_len();
    if alen != blen {
        assert(a@.len() != b@.len());
        return false;
    }
    let mut i: usize = 0;
    while i < alen
        invariant
            alen == a@.len(),
            blen == b@.len(),
            alen == blen,
            0 <= i <= alen,
            forall|j: int| 0 <= j < i ==> a@[j] == b@[j],
        decreases alen - i,
    {
        if a.get_char(i) != b.get_char(i) {
            return false;
        }
        i = i + 1;
    }
    assert(a@ =~= b@);
    true
}

/// Strict lexicographic order on character sequences, by Unicode scalar value.
pub open spec fn lex_lt(a: Seq<char>, b: Seq<char>) -> bool
    decreases a.len(),
{
    if b.len() == 0 {
        false
    } else if a.len() == 0 {
        true
    } else if a[0] != b[0] {
        a[0] < b[0]
    } else {
        lex_lt(a.drop_first(), b.drop_first())
    }
}

/// Lexicographic order is irreflexive.
pub proof fn lemma_lex_lt_irrefl(a: Seq<char>)
    ensures
        !lex_lt(a, a),
    decreases a.len(),
{
    if a.len() > 0 {
        lemma_lex_lt_irrefl(a.drop_first());
    }
}

/// Any two distinct sequences are ordered one way or the other.
pub proof fn lemma_lex_lt_connected(a: Seq<char>, b: Seq<char>)
    requires
        a != b,
    ensures
        lex_lt(a, b) || lex_lt(b, a),
    decreases a.len(),
{
    if a.len() == 0 {
        if b.len() == 0 {
            assert(a =~= b);
        }
    } else if b.len() == 0 {
    } else if a[0] == b[0] {
        assert(a =~= seq![a[0]] + a.drop_first());
        assert(b =~= seq![b[0]] + b.drop_first());
        if a.drop_first() == b.drop_first() {
            assert(a == b);
        } else {
            lemma_lex_lt_connected(a.drop_first(), b.drop_first());
        }
    }
}

/// Lexicographic order is transitive.
pub proof fn lemma_lex_lt_trans(a: Seq<char>, b: Seq<char>, c: Seq<char>)
    requires
        lex_lt(a, b),
        lex_lt(b, c),
    ensures
        lex_lt(a, c),
    decreases a.len(),
{
    if a.len() == 0 {
    } else if a[0] == b[0] && b[0] == c[0] {
        lemma_lex_lt_trans(a.drop_first(), b.drop_first(), c.drop_first());
    }
}

/// Decides the lexicographic order between two string slices.
pub fn str_lt(a: &str, b: &str) -> (r: bool)
    ensures
        r == lex_lt(a@, b@),
{
    let alen = a.unicode_len();
    let blen = b.unicode_len();
    let mut i: usize = 0;
    proof {
        assert(a@.skip(0) =~= a@);
        assert(b@.skip(0) =~= b@);
    }
    loop
        invariant
            alen == a@.len(),
            blen == b@.len(),
            0 <= i <= alen,
            0 <= i <= blen,
            lex_lt(a@, b@) == lex_lt(a@.skip(i as int), b@.skip(i as int)),
        decreases alen - i,
    {
        if i >= alen || i >= blen {
            proof {
                if i >= alen {
                    assert(a@.skip(i as int).len() == 0);
                } else {
                    assert(b@.skip(i as int).len() == 0);
                }
            }
            return alen < blen;
        }
        let ca = a.get_char(i);
        let cb = b.get_char(i);
        proof {
            assert(a@.skip(i as int)[0] == a@[i as int]);
            assert(b@.skip(i as int)[0] == b@[i as int]);
        }
        if ca != cb {
            return ca < cb;
        }
        proof {
            lemma_skip_first(a@, i as int);
            lemma_skip_first(b@, i as int);
        }
        i = i + 1;
    }
}

/// The upper-case form of one character: ASCII lower-case letters are mapped
/// to their upper-case counterparts, everything else is unchanged.
pub open spec fn upper_char(c: char) -> char {
    if c == 'a' { 'A' }
    else if c == 'b' { 'B' }
    else if c == 'c' { 'C' }
    else if c == 'd' { 'D' }
    else if c == 'e' { 'E' }
    else if c == 'f' { 'F' }
    else if c == 'g' { 'G' }
    else if c == 'h' { 'H' }
    else if c == 'i' { 'I' }
    else if c == 'j' { 'J' }
    else if c == 'k' { 'K' }
    else if c == 'l' { 'L' }
    else if c == 'm' { 'M' }
    else if c == 'n' { 'N' }
    else if c == 'o' { 'O' }
    else if c == 'p' { 'P' }
    else if c == 'q' { 'Q' }
    else if c == 'r' { 'R' }
    else if c == 's' { 'S' }
    else if c == 't' { 'T' }
    else if c == 'u' { 'U' }
    else if c == 'v' { 'V' }
    else if c == 'w' { 'W' }
    else if c == 'x' { 'X' }
    else if c == 'y' { 'Y' }
    else if c == 'z' { 'Z' }
    else { c }
}

/// The upper-case form of a character sequence, applied pointwise.
pub open spec fn upper(s: Seq<char>) -> Seq<char> {
    s.map_values(|c: char| upper_char(c))
}

fn upper_char_exec(c: char) -> (r: char)
    ensures
        r == upper_char(c),
{
    match c {
        'a' => 'A',
        'b' => 'B',
        'c' => 'C',
        'd' => 'D',
        'e' => 'E',
        'f' => 'F',
        'g' => 'G',
        'h' => 'H',
        'i' => 'I',
        'j' => 'J',
        'k' => 'K',
        'l' => 'L',
        'm' => 'M',
        'n' => 'N',
        'o' => 'O',
        'p' => 'P',
        'q' => 'Q',
        'r' => 'R',
        's' => 'S',
        't' => 'T',
        'u' => 'U',
        'v' => 'V',
        'w' => 'W',
        'x' => 'X',
        'y' => 'Y',
        'z' => 'Z',
        _ => c,
    }
}

/// Relies on String::push: appends exactly the given character at the end.
#[verifier::external_body]
fn push_char(s: &mut String, c: char)
    ensures
        final(s)@ == old(s)@ + seq![c],
{
    s.push(c);
}

/// Upper-cases a string, ASCII letters only.
pub fn to_upper(s: &str) -> (r: String)
    ensures
        r@ == upper(s@),
{
    let len = s.unicode_len();
    let mut r = String::new();
    let mut i: usize = 0;
    while i < len
        invariant
            len == s@.len(),
            0 <= i <= len,
            r@ =~= upper(s@.subrange(0, i as int)),
        decreases len - i,
    {
        let c = upper_char_exec(s.get_char(i));
        push_char(&mut r, c);
        proof {
            assert(s@.subrange(0, i + 1) =~= s@.subrange(0, i as int).push(s@[i as int]));
            assert(upper(s@.subrange(0, i + 1)) =~= upper(s@.subrange(0, i as int)).push(
                upper_char(s@[i as int]),
            ));
        }
        i = i + 1;
    }
    proof {
        assert(s@.subrange(0, len as int) =~= s@);
    }
    r
}

/// The two-character sequence that closes a raw-string literal and would
/// therefore corrupt a verbatim-quoted value that contains it.
pub open spec fn close_delim() -> Seq<char> {
    seq!['"', '#']
}

/// Whether `sub` occurs in `s` starting at position `i`.
pub open spec fn contains_at(s: Seq<char>, sub: Seq<char>, i: int) -> bool {
    0 <= i && i + sub.len() <= s.len() && s.subrange(i, i + sub.len()) == sub
}

/// Whether `sub` occurs anywhere in `s`.
pub open spec fn contains_sub(s: Seq<char>, sub: Seq<char>) -> bool {
    exists|i: int| contains_at(s, sub, i)
}

/// Detects the raw-string closing delimiter inside a value.
pub fn has_close_delim(s: &str) -> (r: bool)
    ensures
        r == contains_sub(s@, close_delim()),
{
    let len = s.unicode_len();
    if len < 2 {
        proof {
            assert forall|i: int| !contains_at(s@, close_delim(), i) by {}
        }
        return false;
    }
    let mut i: usize = 0;
    while i < len - 1
        invariant
            len == s@.len(),
            len >= 2,
            0 <= i <= len - 1,
            forall|j: int| 0 <= j < i ==> !contains_at(s@, close_delim(), j),
        decreases len - i,
    {
        if s.get_char(i) == '"' && s.get_char(i + 1) == '#' {
            proof {
                assert(s@.subrange(i as int, i + 2) =~= close_delim());
                assert(contains_at(s@, close_delim(), i as int));
            }
            return true;
        }
        proof {
            if contains_at(s@, close_delim(), i as int) {
                assert(s@.subrange(i as int, i + 2)[0] == s@[i as int]);
                assert(s@.subrange(i as int, i + 2)[1] == s@[i + 1]);
            }
        }
        i = i + 1;
    }
    proof {
        assert forall|j: int| !contains_at(s@, close_delim(), j) by {
            if 0 <= j && j + 2 <= s@.len() {
                assert(j < i);
            }
        }
    }
    false
}

/// The remainder of `s` after a prefix `p`, or `s` itself when `p` is not a
/// prefix of it.
pub open spec fn strip_prefix_spec(s: Seq<char>, p: Seq<char>) -> Seq<char> {
    if p.is_prefix_of(s) {
        s.skip(p.len() as int)
    } else {
        s
    }
}

/// Whether `p` is a prefix of `s`.
pub fn str_is_prefix(s: &str, p: &str) -> (r: bool)
    ensures
        r == p@.is_prefix_of(s@),
{
    let slen = s.unicode_len();
    let plen = p.unicode_len();
    if plen > slen {
        return false;
    }
    let mut i: usize = 0;
    while i < plen
        invariant
            slen == s@.len(),
            plen == p@.len(),
            plen <= slen,
            0 <= i <= plen,
            forall|j: int| 0 <= j < i ==> s@[j] == p@[j],
        decreases plen - i,
    {
        if s.get_char(i) != p.get_char(i) {
            proof {
                assert(s@.subrange(0, plen as int)[i as int] == s@[i as int]);
            }
            return false;
        }
        i = i + 1;
    }
    proof {
        assert(s@.subrange(0, plen as int) =~= p@);
    }
    true
}

/// Removes a leading occurrence of `p` from `s`; returns `s` unchanged when
/// `p` is not a prefix.
pub fn strip_prefix_exec(s: &str, p: &str) -> (r: String)
    ensures
        r@ == strip_prefix_spec(s@, p@),
{
    if str_is_prefix(s, p) {
        let rest = s.substring_char(p.unicode_len(), s.unicode_len());
        proof {
            assert(s@.subrange(p@.len() as int, s@.len() as int) =~= s@.skip(p@.len() as int));
        }
        String::from_str(rest)
    } else {
        String::from_str(s)
    }
}

} // verus!
