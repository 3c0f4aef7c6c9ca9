//! String helpers: ASCII case folding, comparison, prefix/suffix/substring
//! tests, the RDN-boundary test on distinguished names, and small builders.
use vstd::prelude::*;
use vstd::string::StrSliceExecFns;
use vstd::string::StringExecFns;

verus! {

/// ASCII lower-casing of a single character; other characters are unchanged.
pub open spec fn lower_char(c: char) -> char {
    if 65 <= c as u32 && c as u32 <= 90 {
        ((c as u32) + 32) as char
    } else {
        c
    }
}

/// ASCII upper-casing of a single character; other characters are unchanged.
pub open spec fn upper_char(c: char) -> char {
    if 97 <= c as u32 && c as u32 <= 122 {
        ((c as u32) - 32) as char
    } else {
        c
    }
}

/// A string lower-cased character by character.
pub open spec fn seq_lower(s: Seq<char>) -> Seq<char> {
    s.map_values(|c: char| lower_char(c))
}

/// A string upper-cased character by character.
pub open spec fn seq_upper(s: Seq<char>) -> Seq<char> {
    s.map_values(|c: char| upper_char(c))
}

/// Lower-casing is insensitive to prior case changes of the same letter.
pub proof fn lemma_lower_char_case(c: char)
    ensures
        lower_char(upper_char(c)) == lower_char(c),
        lower_char(lower_char(c)) == lower_char(c),
{
    vstd::utf8::char_is_scalar(c);
    if 97 <= c as u32 && c as u32 <= 122 {
        assert(upper_char(c) as u32 == c as u32 - 32) by {
            vstd::utf8::char_u32_cast(upper_char(c), ((c as u32) - 32) as u32);
        }
    } else if 65 <= c as u32 && c as u32 <= 90 {
        assert(lower_char(c) as u32 == c as u32 + 32) by {
            vstd::utf8::char_u32_cast(lower_char(c), ((c as u32) + 32) as u32);
        }
    }
}

pub proof fn lemma_seq_lower_case(s: Seq<char>)
    ensures
        seq_lower(seq_upper(s)) =~= seq_lower(s),
        seq_lower(seq_lower(s)) =~= seq_lower(s),
{
    assert forall|i: int| 0 <= i < s.len() implies lower_char(upper_char(s[i])) == lower_char(s[i])
        && lower_char(lower_char(s[i])) == lower_char(s[i]) by {
        lemma_lower_char_case(s[i]);
    }
}

pub fn to_lower_char(c: char) -> (r: char)
    ensures
        r == lower_char(c),
{
    let u = c as u32;
    if 65 <= u && u <= 90 {
        proof {
            vstd::utf8::char_is_scalar(c);
        }
        let b: u8 = (u + 32) as u8;
        b as char
    } else {
        c
    }
}

/// Exact (case-sensitive) string equality.
pub fn str_eq(a: &str, b: &str) -> (r: bool)
    ensures
        r == (a@ == b@),
{
    let n = a.unicode_len();
    let m = b.unicode_len();
    if n != m {
        return false;
    }
    let mut i: usize = 0;
    while i < n
        invariant
            i <= n,
            forall|j: int| 0 <= j < i ==> a@[j] == b@[j],
        decreases n - i,
    {
        if a.get_char(i) != b.get_char(i) {
            return false;
        }
        i += 1;
    }
    proof {
        assert(a@ =~= b@);
    }
    true
}

/// Case-insensitive string equality (ASCII case folding).
pub fn str_eq_ci(a: &str, b: &str) -> (r: bool)
    ensures
        r == (seq_lower(a@) == seq_lower(b@)),
{
    let n = a.unicode_len();
    let m = b.unicode_len();
    if n != m {
        proof {
            assert(seq_lower(a@).len() != seq_lower(b@).len());
        }
        return false;
    }
    let mut i: usize = 0;
    while i < n
        invariant
            i <= n,
            forall|j: int| 0 <= j < i ==> lower_char(a@[j]) == lower_char(b@[j]),
        decreases n - i,
    {
        if to_lower_char(a.get_char(i)) != to_lower_char(b.get_char(i)) {
            proof {
                assert(seq_lower(a@)[i as int] != seq_lower(b@)[i as int]);
            }
            return false;
        }
        i += 1;
    }
    proof {
        assert(seq_lower(a@) =~= seq_lower(b@));
    }
    true
}

/// `p` occurs in `s` starting at offset `off`.
pub open spec fn spec_matches_at(s: Seq<char>, off: int, p: Seq<char>) -> bool {
    &&& 0 <= off
    &&& off + p.len() <= s.len()
    &&& forall|j: int| 0 <= j < p.len() ==> s[off + j] == p[j]
}

pub fn str_matches_at(s: &str, off: usize, p: &str) -> (r: bool)
    ensures
        r == spec_matches_at(s@, off as int, p@),
{
    let n = s.unicode_len();
    let m = p.unicode_len();
    if off > n || n - off < m {
        return false;
    }
    let mut j: usize = 0;
    while j < m
        invariant
            j <= m,
            off + m <= n,
            forall|k: int| 0 <= k < j ==> s@[off + k] == p@[k],
        decreases m - j,
    {
        if s.get_char(off + j) != p.get_char(j) {
            return false;
        }
        j += 1;
    }
    true
}

/// `p` is a prefix of `s`.
pub open spec fn spec_starts_with(s: Seq<char>, p: Seq<char>) -> bool {
    spec_matches_at(s, 0, p)
}

pub fn str_starts_with(s: &str, p: &str) -> (r: bool)
    ensures
        r == spec_starts_with(s@, p@),
{
    str_matches_at(s, 0, p)
}

/// `p` is a suffix of `s`.
pub open spec fn spec_ends_with(s: Seq<char>, p: Seq<char>) -> bool {
    p.len() <= s.len() && spec_matches_at(s, s.len() - p.len(), p)
}

pub fn str_ends_with(s: &str, p: &str) -> (r: bool)
    ensures
        r == spec_ends_with(s@, p@),
{
    let n = s.unicode_len();
    let m = p.unicode_len();
    if m > n {
        return false;
    }
    str_matches_at(s, n - m, p)
}

/// `p` occurs somewhere in `s` as a contiguous substring.
pub open spec fn spec_contains_sub(s: Seq<char>, p: Seq<char>) -> bool {
    exists|k: int| 0 <= k && k + p.len() <= s.len() && spec_matches_at(s, k, p)
}

pub fn str_contains_sub(s: &str, p: &str) -> (r: bool)
    ensures
        r == spec_contains_sub(s@, p@),
{
    let n = s.unicode_len();
    let m = p.unicode_len();
    if m > n {
        return false;
    }
    let mut k: usize = 0;
    while k <= n - m
        invariant
            m <= n,
            k <= n - m + 1,
            forall|kk: int| 0 <= kk < k ==> !spec_matches_at(s@, kk, p@),
        decreases n - m - k + 1,
    {
        if str_matches_at(s, k, p) {
            return true;
        }
        k += 1;
    }
    false
}

/// The RDN-boundary membership test: `d` names an entry at or below `b`.
/// True iff `d == b`, or `d` ends with `"," + b` with the comma falling on
/// an RDN boundary.
pub open spec fn spec_dn_under(d: Seq<char>, b: Seq<char>) -> bool {
    ||| d == b
    ||| (d.len() >= b.len() + 1 && d[d.len() - b.len() - 1] == ','
        && spec_matches_at(d, d.len() - b.len(), b))
}

pub fn dn_is_under(d: &str, b: &str) -> (r: bool)
    ensures
        r == spec_dn_under(d@, b@),
{
    if str_eq(d, b) {
        return true;
    }
    let n = d.unicode_len();
    let m = b.unicode_len();
    if n >= m && n - m >= 1 {
        if d.get_char(n - m - 1) == ',' {
            str_matches_at(d, n - m, b)
        } else {
            false
        }
    } else {
        false
    }
}

/// The first index at or after `from` where `c` occurs in `s`, or `s.len()`.
pub open spec fn spec_find(s: Seq<char>, c: char, from: int) -> int
    decreases s.len() - from,
{
    if !(0 <= from < s.len()) {
        s.len() as int
    } else if s[from] == c {
        from
    } else {
        spec_find(s, c, from + 1)
    }
}

pub proof fn lemma_spec_find_bounds(s: Seq<char>, c: char, from: int)
    requires
        0 <= from <= s.len(),
    ensures
        from <= spec_find(s, c, from) <= s.len(),
    decreases s.len() - from,
{
    if from < s.len() && s[from] != c {
        lemma_spec_find_bounds(s, c, from + 1);
    }
}

pub fn str_find(s: &str, c: char, from: usize) -> (r: usize)
    requires
        from <= s@.len(),
    ensures
        r == spec_find(s@, c, from as int),
        from <= r <= s@.len(),
{
    let n = s.unicode_len();
    let mut i: usize = from;
    while i < n
        invariant
            from <= i <= n,
            spec_find(s@, c, from as int) == spec_find(s@, c, i as int),
        decreases n - i,
    {
        if s.get_char(i) == c {
            return i;
        }
        i += 1;
    }
    i
}

/// The value of the first RDN of a DN: the text between the first `=` and
/// the first `,` after it (or the end of the string).
pub open spec fn spec_first_rdn_value(dn: Seq<char>) -> Seq<char> {
    let e = spec_find(dn, '=', 0);
    if e == dn.len() {
        Seq::empty()
    } else {
        dn.subrange(e + 1, spec_find(dn, ',', e + 1))
    }
}

pub fn first_rdn_value(dn: &str) -> (r: String)
    ensures
        r@ == spec_first_rdn_value(dn@),
{
    let n = dn.unicode_len();
    let e = str_find(dn, '=', 0);
    if e == n {
        String::new()
    } else {
        proof {
            lemma_spec_find_bounds(dn@, ',', e as int + 1);
        }
        let c = str_find(dn, ',', e + 1);
        dn.substring_char(e + 1, c).to_owned()
    }
}

/// `"ou=" + ou + "," + dn`: the DN of the organizational unit.
pub open spec fn spec_users_dn(ou: Seq<char>, dn: Seq<char>) -> Seq<char> {
    "ou="@ + ou + ","@ + dn
}

pub fn users_dn_of(ou: &str, dn: &str) -> (r: String)
    ensures
        r@ == spec_users_dn(ou@, dn@),
{
    let mut s = String::new();
    s.append("ou=");
    s.append(ou);
    s.append(",");
    s.append(dn);
    proof {
        assert(s@ =~= spec_users_dn(ou@, dn@));
    }
    s
}

/// `"cn=" + username + "," + users_dn`: the DN of a user entry.
pub open spec fn spec_user_dn(username: Seq<char>, users_dn: Seq<char>) -> Seq<char> {
    "cn="@ + username + ","@ + users_dn
}

pub fn user_dn_of(username: &str, users_dn: &str) -> (r: String)
    ensures
        r@ == spec_user_dn(username@, users_dn@),
{
    let mut s = String::new();
    s.append("cn=");
    s.append(username);
    s.append(",");
    s.append(users_dn);
    proof {
        assert(s@ =~= spec_user_dn(username@, users_dn@));
    }
    s
}

/// `"dn: " + dn`: the authorization identity reported by Whoami.
pub open spec fn spec_dn_line(dn: Seq<char>) -> Seq<char> {
    "dn: "@ + dn
}

pub fn dn_line_of(dn: &str) -> (r: String)
    ensures
        r@ == spec_dn_line(dn@),
{
    let mut s = String::new();
    s.append("dn: ");
    s.append(dn);
    s
}

/// The decimal digit characters, used to print unsigned numbers.
pub open spec fn spec_digit(d: int) -> char {
    "0123456789"@[d]
}

/// The decimal rendering of a non-negative integer.
pub open spec fn spec_u64_digits(n: int) -> Seq<char>
    decreases n,
{
    if n < 10 {
        seq![spec_digit(n)]
    } else {
        spec_u64_digits(n / 10) + seq![spec_digit(n % 10)]
    }
}

pub fn u64_to_string(n: u64) -> (r: String)
    ensures
        r@ == spec_u64_digits(n as int),
    decreases n,
{
    let digits: &str = "0123456789";
    proof {
        reveal_strlit("0123456789");
    }
    if n < 10 {
        let d = n as usize;
        let r = digits.substring_char(d, d + 1).to_owned();
        proof {
            assert(r@ =~= seq![spec_digit(n as int)]);
        }
        r
    } else {
        let mut s = u64_to_string(n / 10);
        let d = (n % 10) as usize;
        s.append(digits.substring_char(d, d + 1));
        proof {
            assert(s@ =~= spec_u64_digits(n as int));
        }
        s
    }
}

pub proof fn lemma_users_dn_len(ou: Seq<char>, dn: Seq<char>)
    ensures
        spec_users_dn(ou, dn).len() == ou.len() + dn.len() + 4,
        spec_users_dn(ou, dn)[0] == 'o',
{
    reveal_strlit("ou=");
    reveal_strlit(",");
}

pub proof fn lemma_user_dn_len(u: Seq<char>, udn: Seq<char>)
    ensures
        spec_user_dn(u, udn).len() == u.len() + udn.len() + 4,
        spec_user_dn(u, udn)[0] == 'c',
{
    reveal_strlit("cn=");
    reveal_strlit(",");
}

/// Two user DNs under the same parent agree exactly when the usernames do.
pub proof fn lemma_user_dn_injective(a: Seq<char>, b: Seq<char>, udn: Seq<char>)
    ensures
        (spec_user_dn(a, udn) == spec_user_dn(b, udn)) == (a == b),
{
    reveal_strlit("cn=");
    reveal_strlit(",");
    if spec_user_dn(a, udn) == spec_user_dn(b, udn) {
        assert(("cn="@ + a + ","@ + udn) == ("cn="@ + b + ","@ + udn));
        assert(("cn="@ + a + ","@ + udn).len() == "cn="@.len() + a.len() + ","@.len()
            + udn.len());
        assert(("cn="@ + b + ","@ + udn).len() == "cn="@.len() + b.len() + ","@.len()
            + udn.len());
        assert(a.len() == b.len());
        assert forall|i: int| 0 <= i < a.len() implies a[i] == b[i] by {
            assert(spec_user_dn(a, udn)[3 + i] == a[i]);
            assert(spec_user_dn(b, udn)[3 + i] == b[i]);
        }
        assert(a =~= b);
    }
}

} // verus!
