//! Server addresses of the form `host:port`.
use vstd::prelude::*;

verus! {

/// The port assumed when an address names none.
pub open spec fn default_port() -> Seq<char> {
    "8081"@
}

/// `i` is the position of the first `:` in `s`.
pub open spec fn is_first_colon(s: Seq<char>, i: int) -> bool {
    &&& 0 <= i < s.len()
    &&& s[i] == ':'
    &&& forall|j: int| 0 <= j < i ==> s[j] != ':'
}

/// Host and port of an address: what stands before and after its first `:`,
/// or the whole address and the default port when it holds no `:`.
pub open spec fn split_addr(s: Seq<char>) -> (Seq<char>, Seq<char>) {
    if exists|i: int| is_first_colon(s, i) {
        let i = choose|i: int| is_first_colon(s, i);
        (s.subrange(0, i), s.subrange(i + 1, s.len() as int))
    } else {
        (s, default_port())
    }
}

/// The first `:` of a string is unique.
proof fn lemma_first_colon_unique(s: Seq<char>, i: int, k: int)
    requires
        is_first_colon(s, i),
        is_first_colon(s, k),
    ensures
        i == k,
{
}

/// Host and port of `addr`: the text before and after its first `:`, or all
/// of `addr` and port `8081` when it holds no `:`.
pub fn parse_server_addr(addr: &str) -> (r: (String, String))
    ensures
        (r.0@, r.1@) == split_addr(addr@),
{
    let n = addr.unicode_len();
    let mut i: usize = 0;
    while i < n && addr.get_char(i) != ':'
        invariant
            n == addr@.len(),
            i <= n,
            forall|j: int| 0 <= j < i ==> addr@[j] != ':',
        decreases n - i,
    {
        i = i + 1;
    }
    if i == n {
        assert(!exists|k: int| is_first_colon(addr@, k));
        let host = String::from_str(addr);
        let port = String::from_str("8081");
        return (host, port);
    }
    proof {
        assert(is_first_colon(addr@, i as int));
        let k = choose|k: int| is_first_colon(addr@, k);
        lemma_first_colon_unique(addr@, i as int, k);
    }
    let host = String::from_str(addr.substring_char(0, i));
    let port = String::from_str(addr.substring_char(i + 1, n));
    (host, port)
}

/// An address with a `:` is its host, a `:` and its port, and the host holds
/// no `:`; an address without one is its own host, with the default port.
pub proof fn lemma_split_addr_rejoins(s: Seq<char>)
    ensures
        (exists|i: int| 0 <= i < s.len() && s[i] == ':') ==> split_addr(s).0 + seq![':']
            + split_addr(s).1 == s && !split_addr(s).0.contains(':'),
        !(exists|i: int| 0 <= i < s.len() && s[i] == ':') ==> split_addr(s) == (
            s,
            default_port(),
        ),
{
    if exists|i: int| 0 <= i < s.len() && s[i] == ':' {
        let w = choose|i: int| 0 <= i < s.len() && s[i] == ':';
        lemma_first_colon_exists(s, w);
        let i = choose|i: int| is_first_colon(s, i);
        assert(s.subrange(0, i) + seq![':'] + s.subrange(i + 1, s.len() as int) =~= s);
        assert forall|j: int| 0 <= j < i implies s.subrange(0, i)[j] != ':' by {}
    } else {
        assert forall|i: int| !is_first_colon(s, i) by {}
    }
}

/// A string holding a `:` has a first one.
proof fn lemma_first_colon_exists(s: Seq<char>, w: int)
    requires
        0 <= w < s.len(),
        s[w] == ':',
    ensures
        exists|i: int| is_first_colon(s, i),
    decreases w,
{
    if !is_first_colon(s, w) {
        let j = choose|j: int| 0 <= j < w && s[j] == ':';
        lemma_first_colon_exists(s, j);
    }
}

} // verus!
