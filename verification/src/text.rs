//! Trimming of the strings that the service stores and receives.
use vstd::prelude::*;

verus! {

/// Whether `c` has the Unicode `White_Space` property: the controls U+0009 to
/// U+000D, the space, U+0085, the no-break space, the Ogham space mark, the
/// spaces U+2000 to U+200A, the line and paragraph separators, the narrow
/// no-break space, the medium mathematical space and the ideographic space.
pub open spec fn white_space(c: char) -> bool {
    let n = c as int;
    ||| 0x9 <= n <= 0xd
    ||| n == 0x20
    ||| n == 0x85
    ||| n == 0xa0
    ||| n == 0x1680
    ||| 0x2000 <= n <= 0x200a
    ||| n == 0x2028
    ||| n == 0x2029
    ||| n == 0x202f
    ||| n == 0x205f
    ||| n == 0x3000
}

/// Whether `c` has the Unicode `White_Space` property, as
/// `char::is_whitespace` answers it.
pub fn is_whitespace(c: char) -> (b: bool)
    ensures
        b == white_space(c),
{
    let n = c as u32;
    (0x9 <= n && n <= 0xd) || n == 0x20 || n == 0x85 || n == 0xa0 || n == 0x1680 || (0x2000 <= n
        && n <= 0x200a) || n == 0x2028 || n == 0x2029 || n == 0x202f || n == 0x205f || n == 0x3000
}

/// `s` without its leading and trailing white space.
pub open spec fn trimmed(s: Seq<char>) -> Seq<char>
    decreases s.len(),
{
    if s.len() == 0 {
        s
    } else if white_space(s[0]) {
        trimmed(s.drop_first())
    } else if white_space(s.last()) {
        trimmed(s.drop_last())
    } else {
        s
    }
}

/// What is left of `s` once the leading white space is gone is trimmed like `s`.
proof fn lemma_trimmed_skip(s: Seq<char>, i: int)
    requires
        0 <= i <= s.len(),
        forall|k: int| 0 <= k < i ==> white_space(#[trigger] s[k]),
    ensures
        trimmed(s) == trimmed(s.subrange(i, s.len() as int)),
    decreases i,
{
    if i > 0 {
        assert(s.drop_first() =~= s.subrange(1, s.len() as int));
        let t = s.drop_first();
        assert forall|k: int| 0 <= k < i - 1 implies white_space(#[trigger] t[k]) by {
            assert(t[k] == s[k + 1]);
        }
        lemma_trimmed_skip(t, i - 1);
        assert(t.subrange(i - 1, t.len() as int) =~= s.subrange(i, s.len() as int));
    } else {
        assert(s.subrange(0, s.len() as int) =~= s);
    }
}

/// Once the front is not white space, trimming only drops trailing white space.
proof fn lemma_trimmed_back(s: Seq<char>, i: int, j: int)
    requires
        0 <= i < j <= s.len(),
        !white_space(s[i]),
        forall|k: int| j <= k < s.len() ==> white_space(#[trigger] s[k]),
    ensures
        trimmed(s.subrange(i, s.len() as int)) == trimmed(s.subrange(i, j)),
    decreases s.len() - j,
{
    if j < s.len() {
        let t = s.subrange(i, s.len() as int);
        assert(t[0] == s[i]);
        assert(t.last() == s[s.len() - 1]);
        assert(t.drop_last() =~= s.drop_last().subrange(i, s.len() - 1));
        lemma_trimmed_back(s.drop_last(), i, j);
        assert(s.drop_last().subrange(i, j) =~= s.subrange(i, j));
    }
}

/// A trimmed text is empty, or starts and ends with characters that are not
/// white space.
pub proof fn lemma_trimmed_ends(s: Seq<char>)
    ensures
        trimmed(s).len() <= s.len(),
        trimmed(s).len() == 0 || (!white_space(trimmed(s)[0]) && !white_space(
            trimmed(s).last(),
        )),
    decreases s.len(),
{
    if s.len() == 0 {
    } else if white_space(s[0]) {
        lemma_trimmed_ends(s.drop_first());
    } else if white_space(s.last()) {
        lemma_trimmed_ends(s.drop_last());
    }
}

/// Trimming twice is trimming once.
pub proof fn lemma_trim_idempotent(s: Seq<char>)
    ensures
        trimmed(trimmed(s)) == trimmed(s),
{
    lemma_trimmed_ends(s);
}

/// `s` without its leading and trailing white space.
pub fn trim(s: &str) -> (r: &str)
    ensures
        r@ == trimmed(s@),
{
    let n = s.unicode_len();
    let mut i: usize = 0;
    while i < n && is_whitespace(s.get_char(i))
        invariant
            n == s@.len(),
            i <= n,
            forall|k: int| 0 <= k < i ==> white_space(#[trigger] s@[k]),
        decreases n - i,
    {
        i = i + 1;
    }
    proof {
        lemma_trimmed_skip(s@, i as int);
    }
    if i == n {
        assert(s@.subrange(n as int, n as int).len() == 0);
        return s.substring_char(n, n);
    }
    let mut j: usize = n;
    while j > i + 1 && is_whitespace(s.get_char(j - 1))
        invariant
            n == s@.len(),
            i < j <= n,
            forall|k: int| j <= k < n ==> white_space(#[trigger] s@[k]),
        decreases j,
    {
        j = j - 1;
    }
    proof {
        lemma_trimmed_back(s@, i as int, j as int);
        let t = s@.subrange(i as int, j as int);
        assert(t[0] == s@[i as int]);
        assert(t.last() == s@[j - 1]);
        if j == i + 1 {
            assert(!white_space(t.last()));
        }
    }
    s.substring_char(i, j)
}

} // verus!
