//! Where report documents are stored on disk.
use vstd::prelude::*;
use crate::text::{lemma_trim_idempotent, trim, trimmed, white_space};

verus! {

/// The lowercase hexadecimal digit for `n` in `0..16`.
pub open spec fn hex_lower(n: int) -> char {
    if n < 10 {
        (48 + n) as char
    } else {
        (87 + n) as char
    }
}

/// The `k`-th hexadecimal digit of `id`, counting from the most significant.
pub open spec fn nibble(id: u128, k: int) -> int {
    ((id >> ((124 - 4 * k) as u128)) & 0xfu128) as int
}

/// Whether position `p` of a hyphenated UUID holds a hyphen.
pub open spec fn is_hyphen_position(p: int) -> bool {
    p == 8 || p == 13 || p == 18 || p == 23
}

/// Which hexadecimal digit stands at position `p` of a hyphenated UUID.
pub open spec fn digit_at(p: int) -> int {
    if p < 8 {
        p
    } else if p < 13 {
        p - 1
    } else if p < 18 {
        p - 2
    } else if p < 23 {
        p - 3
    } else {
        p - 4
    }
}

/// The hyphenated lowercase form of a UUID: its 32 hexadecimal digits, most
/// significant first, in groups of 8, 4, 4, 4 and 12 joined by hyphens.
pub open spec fn hyphenated(id: u128) -> Seq<char> {
    Seq::new(
        36,
        |p: int|
            if is_hyphen_position(p) {
                '-'
            } else {
                hex_lower(nibble(id, digit_at(p)))
            },
    )
}

/// Calls `uuid::Uuid::from_u128(id).to_string()`: the UUID whose 128-bit value
/// is `id`, in its hyphenated lowercase form.
#[verifier::external_body]
fn uuid_text(id: u128) -> (s: String)
    ensures
        s@ == hyphenated(id),
{
    uuid::Uuid::from_u128(id).to_string()
}

/// File name, relative to the reports directory, of the JSON document of the
/// report with this id: the id's hyphenated form and `.json`.
pub open spec fn relpath_of(id: u128) -> Seq<char> {
    hyphenated(id) + ".json"@
}

/// File name, relative to the reports directory, of the JSON document of the
/// report with this id, e.g. `b2d3a5d4-0d5d-4c6d-8b6d-0d5d3c6d8b6d.json`.
pub fn report_json_relpath(id: u128) -> (name: String)
    ensures
        name@ == relpath_of(id),
{
    let mut name = uuid_text(id);
    name.append(".json");
    name
}

proof fn lemma_hex_digit_injective(x: int, y: int)
    requires
        0 <= x < 16,
        0 <= y < 16,
        hex_lower(x) == hex_lower(y),
    ensures
        x == y,
{
    assert(hex_lower(x) as int == if x < 10 { 48 + x } else { 87 + x });
    assert(hex_lower(y) as int == if y < 10 { 48 + y } else { 87 + y });
}

proof fn lemma_nibble_range(id: u128, k: int)
    ensures
        0 <= nibble(id, k) < 16,
{
    let s = (124 - 4 * k) as u128;
    assert((id >> s) & 0xfu128 < 16) by (bit_vector);
}

proof fn lemma_nibbles_determine(a: u128, b: u128)
    requires
            (a >> 124u128) & 0xfu128 == (b >> 124u128) & 0xfu128,
            (a >> 120u128) & 0xfu128 == (b >> 120u128) & 0xfu128,
            (a >> 116u128) & 0xfu128 == (b >> 116u128) & 0xfu128,
            (a >> 112u128) & 0xfu128 == (b >> 112u128) & 0xfu128,
            (a >> 108u128) & 0xfu128 == (b >> 108u128) & 0xfu128,
            (a >> 104u128) & 0xfu128 == (b >> 104u128) & 0xfu128,
            (a >> 100u128) & 0xfu128 == (b >> 100u128) & 0xfu128,
            (a >> 96u128) & 0xfu128 == (b >> 96u128) & 0xfu128,
            (a >> 92u128) & 0xfu128 == (b >> 92u128) & 0xfu128,
            (a >> 88u128) & 0xfu128 == (b >> 88u128) & 0xfu128,
            (a >> 84u128) & 0xfu128 == (b >> 84u128) & 0xfu128,
            (a >> 80u128) & 0xfu128 == (b >> 80u128) & 0xfu128,
            (a >> 76u128) & 0xfu128 == (b >> 76u128) & 0xfu128,
            (a >> 72u128) & 0xfu128 == (b >> 72u128) & 0xfu128,
            (a >> 68u128) & 0xfu128 == (b >> 68u128) & 0xfu128,
            (a >> 64u128) & 0xfu128 == (b >> 64u128) & 0xfu128,
            (a >> 60u128) & 0xfu128 == (b >> 60u128) & 0xfu128,
            (a >> 56u128) & 0xfu128 == (b >> 56u128) & 0xfu128,
            (a >> 52u128) & 0xfu128 == (b >> 52u128) & 0xfu128,
            (a >> 48u128) & 0xfu128 == (b >> 48u128) & 0xfu128,
            (a >> 44u128) & 0xfu128 == (b >> 44u128) & 0xfu128,
            (a >> 40u128) & 0xfu128 == (b >> 40u128) & 0xfu128,
            (a >> 36u128) & 0xfu128 == (b >> 36u128) & 0xfu128,
            (a >> 32u128) & 0xfu128 == (b >> 32u128) & 0xfu128,
            (a >> 28u128) & 0xfu128 == (b >> 28u128) & 0xfu128,
            (a >> 24u128) & 0xfu128 == (b >> 24u128) & 0xfu128,
            (a >> 20u128) & 0xfu128 == (b >> 20u128) & 0xfu128,
            (a >> 16u128) & 0xfu128 == (b >> 16u128) & 0xfu128,
            (a >> 12u128) & 0xfu128 == (b >> 12u128) & 0xfu128,
            (a >> 8u128) & 0xfu128 == (b >> 8u128) & 0xfu128,
            (a >> 4u128) & 0xfu128 == (b >> 4u128) & 0xfu128,
            (a >> 0u128) & 0xfu128 == (b >> 0u128) & 0xfu128,
    ensures
        a == b,
{
    assert(a == b) by (bit_vector)
        requires
            (a >> 124u128) & 0xfu128 == (b >> 124u128) & 0xfu128,
            (a >> 120u128) & 0xfu128 == (b >> 120u128) & 0xfu128,
            (a >> 116u128) & 0xfu128 == (b >> 116u128) & 0xfu128,
            (a >> 112u128) & 0xfu128 == (b >> 112u128) & 0xfu128,
            (a >> 108u128) & 0xfu128 == (b >> 108u128) & 0xfu128,
            (a >> 104u128) & 0xfu128 == (b >> 104u128) & 0xfu128,
            (a >> 100u128) & 0xfu128 == (b >> 100u128) & 0xfu128,
            (a >> 96u128) & 0xfu128 == (b >> 96u128) & 0xfu128,
            (a >> 92u128) & 0xfu128 == (b >> 92u128) & 0xfu128,
            (a >> 88u128) & 0xfu128 == (b >> 88u128) & 0xfu128,
            (a >> 84u128) & 0xfu128 == (b >> 84u128) & 0xfu128,
            (a >> 80u128) & 0xfu128 == (b >> 80u128) & 0xfu128,
            (a >> 76u128) & 0xfu128 == (b >> 76u128) & 0xfu128,
            (a >> 72u128) & 0xfu128 == (b >> 72u128) & 0xfu128,
            (a >> 68u128) & 0xfu128 == (b >> 68u128) & 0xfu128,
            (a >> 64u128) & 0xfu128 == (b >> 64u128) & 0xfu128,
            (a >> 60u128) & 0xfu128 == (b >> 60u128) & 0xfu128,
            (a >> 56u128) & 0xfu128 == (b >> 56u128) & 0xfu128,
            (a >> 52u128) & 0xfu128 == (b >> 52u128) & 0xfu128,
            (a >> 48u128) & 0xfu128 == (b >> 48u128) & 0xfu128,
            (a >> 44u128) & 0xfu128 == (b >> 44u128) & 0xfu128,
            (a >> 40u128) & 0xfu128 == (b >> 40u128) & 0xfu128,
            (a >> 36u128) & 0xfu128 == (b >> 36u128) & 0xfu128,
            (a >> 32u128) & 0xfu128 == (b >> 32u128) & 0xfu128,
            (a >> 28u128) & 0xfu128 == (b >> 28u128) & 0xfu128,
            (a >> 24u128) & 0xfu128 == (b >> 24u128) & 0xfu128,
            (a >> 20u128) & 0xfu128 == (b >> 20u128) & 0xfu128,
            (a >> 16u128) & 0xfu128 == (b >> 16u128) & 0xfu128,
            (a >> 12u128) & 0xfu128 == (b >> 12u128) & 0xfu128,
            (a >> 8u128) & 0xfu128 == (b >> 8u128) & 0xfu128,
            (a >> 4u128) & 0xfu128 == (b >> 4u128) & 0xfu128,
            (a >> 0u128) & 0xfu128 == (b >> 0u128) & 0xfu128,
    ;
}

/// Distinct reports get distinct file names.
pub proof fn lemma_relpath_unique(a: u128, b: u128)
    requires
        a != b,
    ensures
        relpath_of(a) != relpath_of(b),
{
    if relpath_of(a) == relpath_of(b) {
        assert forall|k: int| 0 <= k < 32 implies nibble(a, k) == nibble(b, k) by {
            let p = k + (if k >= 8 { 1int } else { 0 }) + (if k >= 12 { 1int } else { 0 }) + (
            if k >= 16 { 1int } else { 0 }) + (if k >= 20 { 1int } else { 0 });
            assert(!is_hyphen_position(p) && digit_at(p) == k);
            assert(relpath_of(a)[p] == hyphenated(a)[p]);
            assert(relpath_of(b)[p] == hyphenated(b)[p]);
            lemma_nibble_range(a, k);
            lemma_nibble_range(b, k);
            lemma_hex_digit_injective(nibble(a, k), nibble(b, k));
        }
        assert(nibble(a, 0) == nibble(b, 0));
        assert(nibble(a, 1) == nibble(b, 1));
        assert(nibble(a, 2) == nibble(b, 2));
        assert(nibble(a, 3) == nibble(b, 3));
        assert(nibble(a, 4) == nibble(b, 4));
        assert(nibble(a, 5) == nibble(b, 5));
        assert(nibble(a, 6) == nibble(b, 6));
        assert(nibble(a, 7) == nibble(b, 7));
        assert(nibble(a, 8) == nibble(b, 8));
        assert(nibble(a, 9) == nibble(b, 9));
        assert(nibble(a, 10) == nibble(b, 10));
        assert(nibble(a, 11) == nibble(b, 11));
        assert(nibble(a, 12) == nibble(b, 12));
        assert(nibble(a, 13) == nibble(b, 13));
        assert(nibble(a, 14) == nibble(b, 14));
        assert(nibble(a, 15) == nibble(b, 15));
        assert(nibble(a, 16) == nibble(b, 16));
        assert(nibble(a, 17) == nibble(b, 17));
        assert(nibble(a, 18) == nibble(b, 18));
        assert(nibble(a, 19) == nibble(b, 19));
        assert(nibble(a, 20) == nibble(b, 20));
        assert(nibble(a, 21) == nibble(b, 21));
        assert(nibble(a, 22) == nibble(b, 22));
        assert(nibble(a, 23) == nibble(b, 23));
        assert(nibble(a, 24) == nibble(b, 24));
        assert(nibble(a, 25) == nibble(b, 25));
        assert(nibble(a, 26) == nibble(b, 26));
        assert(nibble(a, 27) == nibble(b, 27));
        assert(nibble(a, 28) == nibble(b, 28));
        assert(nibble(a, 29) == nibble(b, 29));
        assert(nibble(a, 30) == nibble(b, 30));
        assert(nibble(a, 31) == nibble(b, 31));
        lemma_nibbles_determine(a, b);
    }
}

/// Whether `p` is an absolute path, as `std::path::Path::is_absolute` answers.
pub uninterp spec fn absolute_path(p: Seq<char>) -> bool;

/// The path `rel` taken relative to `base`, as `std::path::Path::join` builds it.
pub uninterp spec fn joined_path(base: Seq<char>, rel: Seq<char>) -> Seq<char>;

/// A text without `/`, `\\` or `:`: a bare file name on every platform.
pub open spec fn plain_name(s: Seq<char>) -> bool {
    forall|i: int| 0 <= i < s.len() ==> s[i] != '/' && s[i] != '\\' && s[i] != ':'
}

/// Calls `std::path::Path::new(p).is_absolute()`. Beyond the one rule that
/// holds on every platform (a path needs a root, written with `/` or `\\`, or a
/// prefix such as `C:`, to be absolute), the answer is tied to
/// [`absolute_path`] only.
#[verifier::external_body]
fn path_is_absolute(p: &str) -> (b: bool)
    ensures
        b == absolute_path(p@),
        plain_name(p@) ==> !b,
{
    std::path::Path::new(p).is_absolute()
}

/// Calls `std::path::Path::new(base).join(rel)`. Its documentation states that
/// an absolute `rel` replaces `base`; how a relative one is appended
/// (separators, platform) is not restated beyond [`joined_path`].
#[verifier::external_body]
fn path_join(base: &str, rel: &str) -> (r: String)
    ensures
        r@ == joined_path(base@, rel@),
        absolute_path(rel@) ==> r@ == rel@,
{
    std::path::Path::new(base).join(rel).to_string_lossy().into_owned()
}

/// Where a stored report path points: nothing for a blank one, the path
/// itself when it is absolute (older rows), else the path under the reports
/// directory (a bare file name is never absolute); surrounding white space is
/// ignored.
pub open spec fn resolved_path(reports_dir: Seq<char>, stored: Seq<char>) -> Seq<char> {
    let t = trimmed(stored);
    if t.len() == 0 {
        Seq::empty()
    } else if plain_name(t) {
        joined_path(reports_dir, t)
    } else if absolute_path(t) {
        t
    } else {
        joined_path(reports_dir, t)
    }
}

/// The file that what is stored in a report's `file_path` column designates:
/// an empty path for a blank value, an absolute value as it is, and a
/// relative one under `reports_dir`.
pub fn resolve_stored_file_path(reports_dir: &str, stored: &str) -> (path: String)
    ensures
        path@ == resolved_path(reports_dir@, stored@),
        trimmed(stored@).len() == 0 ==> path@.len() == 0,
        trimmed(stored@).len() > 0 && absolute_path(trimmed(stored@)) ==> path@ == trimmed(stored@),
        trimmed(stored@).len() > 0 && !absolute_path(trimmed(stored@)) ==> path@ == joined_path(
            reports_dir@,
            trimmed(stored@),
        ),
{
    let t = trim(stored);
    if t.is_empty() {
        return String::new();
    }
    if path_is_absolute(t) {
        String::from_str(t)
    } else {
        path_join(reports_dir, t)
    }
}

} // verus!

verus! {

/// Every non-blank stored path that is not absolute, with or without
/// directories in it, resolves under the reports directory.
pub proof fn lemma_relative_paths_resolve_under_dir(reports_dir: Seq<char>, stored: Seq<char>)
    requires
        trimmed(stored).len() > 0,
        !absolute_path(trimmed(stored)),
    ensures
        resolved_path(reports_dir, stored) == joined_path(reports_dir, trimmed(stored)),
{
}

/// A blank stored path designates no file.
pub proof fn lemma_blank_path_resolves_to_nothing(reports_dir: Seq<char>, stored: Seq<char>)
    requires
        trimmed(stored).len() == 0,
    ensures
        resolved_path(reports_dir, stored).len() == 0,
{
}

/// Resolving an already trimmed path designates the same file as resolving
/// the raw one.
pub proof fn lemma_resolve_ignores_trimming(reports_dir: Seq<char>, stored: Seq<char>)
    ensures
        resolved_path(reports_dir, trimmed(stored)) == resolved_path(reports_dir, stored),
{
    lemma_trim_idempotent(stored);
}

/// The file name of a report is a bare, non-blank name without surrounding
/// white space, ending in `.json`; stored as the report's key, it resolves to
/// that name under the reports directory: the file that is written for it.
pub proof fn lemma_stored_key_resolves_under_dir(reports_dir: Seq<char>, id: u128)
    ensures
        relpath_of(id).len() == 41,
        plain_name(relpath_of(id)),
        relpath_of(id).subrange(36, 41) == ".json"@,
        trimmed(relpath_of(id)) == relpath_of(id),
        resolved_path(reports_dir, relpath_of(id)) == joined_path(reports_dir, relpath_of(id)),
{
    reveal_strlit(".json");
    let s = relpath_of(id);
    assert forall|p: int| 0 <= p < 36 implies hyphenated(id)[p] != '/' && hyphenated(id)[p] != '\\'
        && hyphenated(id)[p] != ':' && !white_space(hyphenated(id)[p]) by {
        if !is_hyphen_position(p) {
            lemma_nibble_range(id, digit_at(p));
            let n = nibble(id, digit_at(p));
            assert(hex_lower(n) as int == if n < 10 { 48 + n } else { 87 + n });
        }
    }
    assert forall|i: int| 0 <= i < s.len() implies s[i] != '/' && s[i] != '\\' && s[i] != ':' by {
        if i < 36 {
            assert(s[i] == hyphenated(id)[i]);
        } else {
            assert(s[i] == ".json"@[i - 36]);
        }
    }
    assert(s.subrange(36, 41) =~= ".json"@);
    assert(s[0] == hyphenated(id)[0]);
    assert(s.last() == 'n');
}

/// Where the document of a new report goes: its file name under the reports
/// directory, and that name joined to the directory.
pub fn report_file_location(reports_dir: &str, id: u128) -> (r: (String, String))
    ensures
        r.0@ == relpath_of(id),
        r.1@ == joined_path(reports_dir@, relpath_of(id)),
{
    let relpath = report_json_relpath(id);
    let path = path_join(reports_dir, relpath.as_str());
    (relpath, path)
}

} // verus!

verus! {

/// The version digit of a UUID (its 13th hexadecimal digit) is 4, and its two
/// variant bits are `10`: the marks of a random UUID.
pub open spec fn is_random_uuid(id: u128) -> bool {
    &&& (id >> 76u128) & 0xfu128 == 4
    &&& (id >> 62u128) & 0x3u128 == 2
}

/// Calls `uuid::Uuid::new_v4().as_u128()`: a random UUID. Whatever the random
/// bits, it carries version 4 and the RFC 4122 variant.
#[verifier::external_body]
fn new_v4_id() -> (id: u128)
    ensures
        is_random_uuid(id),
{
    uuid::Uuid::new_v4().as_u128()
}

/// A fresh report id, with the file name of its document and where that file
/// goes under `reports_dir`.
pub fn new_report_location(reports_dir: &str) -> (r: (u128, String, String))
    ensures
        is_random_uuid(r.0),
        r.1@ == relpath_of(r.0),
        r.2@ == joined_path(reports_dir@, relpath_of(r.0)),
{
    let id = new_v4_id();
    let (relpath, path) = report_file_location(reports_dir, id);
    (id, relpath, path)
}

} // verus!
