//! String helpers shared by the catalog: decimal formatting, zero padding,
//! path joining and plain string comparisons, each with an exact contract.
use vstd::prelude::*;

verus! {

/// The decimal digit character for a value below ten.
pub open spec fn spec_digit(d: nat) -> char {
    if d == 0 {
        '0'
    } else if d == 1 {
        '1'
    } else if d == 2 {
        '2'
    } else if d == 3 {
        '3'
    } else if d == 4 {
        '4'
    } else if d == 5 {
        '5'
    } else if d == 6 {
        '6'
    } else if d == 7 {
        '7'
    } else if d == 8 {
        '8'
    } else {
        '9'
    }
}

/// The usual decimal rendering of a natural number, most significant digit
/// first, with no leading zeros (a single `'0'` for zero).
pub open spec fn spec_decimal(n: nat) -> Seq<char>
    decreases n,
{
    if n < 10 {
        seq![spec_digit(n)]
    } else {
        spec_decimal(n / 10) + seq![spec_digit(n % 10)]
    }
}

/// `spec_decimal`, zero-padded on the left to at least two digits.
pub open spec fn spec_decimal2(n: nat) -> Seq<char> {
    if n < 10 {
        seq!['0'] + spec_decimal(n)
    } else {
        spec_decimal(n)
    }
}

/// `spec_decimal`, zero-padded on the left to at least four digits.
pub open spec fn spec_decimal4(n: nat) -> Seq<char> {
    if n < 10 {
        seq!['0', '0', '0'] + spec_decimal(n)
    } else if n < 100 {
        seq!['0', '0'] + spec_decimal(n)
    } else if n < 1000 {
        seq!['0'] + spec_decimal(n)
    } else {
        spec_decimal(n)
    }
}

fn digit_str(d: u64) -> (r: &'static str)
    requires
        d < 10,
    ensures
        r@ =~= seq![spec_digit(d as nat)],
{
    proof {
        reveal_strlit("0");
        reveal_strlit("1");
        reveal_strlit("2");
        reveal_strlit("3");
        reveal_strlit("4");
        reveal_strlit("5");
        reveal_strlit("6");
        reveal_strlit("7");
        reveal_strlit("8");
        reveal_strlit("9");
    }
    if d == 0 {
        "0"
    } else if d == 1 {
        "1"
    } else if d == 2 {
        "2"
    } else if d == 3 {
        "3"
    } else if d == 4 {
        "4"
    } else if d == 5 {
        "5"
    } else if d == 6 {
        "6"
    } else if d == 7 {
        "7"
    } else if d == 8 {
        "8"
    } else {
        "9"
    }
}

/// Renders `n` in decimal.
pub fn u64_to_string(n: u64) -> (r: String)
    ensures
        r@ == spec_decimal(n as nat),
    decreases n,
{
    if n < 10 {
        String::from_str(digit_str(n))
    } else {
        proof {
            vstd::arithmetic::div_mod::lemma_div_is_ordered_by_denominator(n as int, 1, 10);
        }
        let high = u64_to_string(n / 10);
        high.concat(digit_str(n % 10))
    }
}

/// Renders `n` in decimal, zero-padded to at least two digits.
pub fn u64_to_string2(n: u64) -> (r: String)
    ensures
        r@ == spec_decimal2(n as nat),
{
    if n < 10 {
        let mut s = String::from_str("0");
        proof {
            reveal_strlit("0");
        }
        let d = u64_to_string(n);
        s.append(d.as_str());
        s
    } else {
        u64_to_string(n)
    }
}

/// Renders `n` in decimal, zero-padded to at least four digits.
pub fn u64_to_string4(n: u64) -> (r: String)
    ensures
        r@ == spec_decimal4(n as nat),
{
    proof {
        reveal_strlit("000");
        reveal_strlit("00");
        reveal_strlit("0");
    }
    if n < 10 {
        let mut s = String::from_str("000");
        let d = u64_to_string(n);
        s.append(d.as_str());
        assert(s@ =~= spec_decimal4(n as nat));
        s
    } else if n < 100 {
        let mut s = String::from_str("00");
        let d = u64_to_string(n);
        s.append(d.as_str());
        assert(s@ =~= spec_decimal4(n as nat));
        s
    } else if n < 1000 {
        let mut s = String::from_str("0");
        let d = u64_to_string(n);
        s.append(d.as_str());
        assert(s@ =~= spec_decimal4(n as nat));
        s
    } else {
        u64_to_string(n)
    }
}

/// The decimal rendering of a signed value: a minus sign before the digits
/// when negative.
pub open spec fn spec_decimal_signed(n: int) -> Seq<char> {
    if n >= 0 {
        spec_decimal(n as nat)
    } else {
        seq!['-'] + spec_decimal((-n) as nat)
    }
}

/// Renders a signed 32-bit value in decimal.
pub fn i32_to_string(n: i32) -> (r: String)
    ensures
        r@ == spec_decimal_signed(n as int),
{
    if n >= 0 {
        u64_to_string(n as u64)
    } else {
        let wide: i64 = n as i64;
        let mag: u64 = (-wide) as u64;
        let mut s = String::from_str("-");
        proof {
            reveal_strlit("-");
        }
        let d = u64_to_string(mag);
        s.append(d.as_str());
        proof {
            assert(s@ =~= spec_decimal_signed(n as int));
        }
        s
    }
}

/// The catalog's path joining convention: `base`, a slash, `rel`.
pub open spec fn spec_join_path(base: Seq<char>, rel: Seq<char>) -> Seq<char> {
    base + seq!['/'] + rel
}

/// Joins a base path and a relative segment with a slash.
pub fn join_path(base: &str, rel: &str) -> (r: String)
    ensures
        r@ == spec_join_path(base@, rel@),
{
    let mut s = String::from_str(base);
    proof {
        reveal_strlit("/");
    }
    s.append("/");
    s.append(rel);
    proof {
        assert(s@ =~= spec_join_path(base@, rel@));
    }
    s
}

/// Whether two string slices hold the same characters.
pub fn str_eq(a: &str, b: &str) -> (r: bool)
    ensures
        r == (a@ == b@),
{
    let alen = a.unicode_len();
    let blen = b.unicode_len();
    if alen != blen {
        assert(a@ != b@) by {
            assert(a@.len() != b@.len());
        }
        return false;
    }
    let mut i: usize = 0;
    while i < alen
        invariant
            alen == a@.len(),
            alen == b@.len(),
            i <= alen,
            forall|j: int| 0 <= j < i ==> a@[j] == b@[j],
        decreases alen - i,
    {
        if a.get_char(i) != b.get_char(i) {
            return false;
        }
        i += 1;
    }
    proof {
        assert(a@ =~= b@);
    }
    true
}

/// The characters after the last slash of a path: the whole path when it
/// holds no slash, empty when it ends with one.
pub open spec fn spec_basename(p: Seq<char>) -> Seq<char>
    decreases p.len(),
{
    if p.len() == 0 {
        p
    } else if p[p.len() - 1] == '/' {
        Seq::empty()
    } else {
        spec_basename(p.drop_last()) + seq![p[p.len() - 1]]
    }
}

proof fn lemma_basename_subrange(p: Seq<char>, k: int)
    requires
        0 <= k <= p.len(),
        forall|j: int| k <= j < p.len() ==> p[j] != '/',
        k == 0 || p[k - 1] == '/',
    ensures
        spec_basename(p) == p.subrange(k, p.len() as int),
    decreases p.len() - k,
{
    if p.len() == k {
        if k == 0 {
            assert(spec_basename(p) =~= p.subrange(0, 0));
        } else {
            assert(p[p.len() - 1] == '/');
            assert(spec_basename(p) =~= p.subrange(k, p.len() as int));
        }
    } else {
        assert(p[p.len() - 1] != '/');
        let q = p.drop_last();
        lemma_basename_subrange(q, if k <= q.len() {
            k
        } else {
            q.len() as int
        });
        assert(q.subrange(k, q.len() as int) =~= p.subrange(k, p.len() - 1));
        assert(spec_basename(p) =~= p.subrange(k, p.len() as int));
    }
}

/// The file-name part of a path: everything after its last slash.
pub fn path_file_name(s: &str) -> (r: String)
    ensures
        r@ == spec_basename(s@),
{
    let n = s.unicode_len();
    let mut j: usize = n;
    while j > 0
        invariant
            n == s@.len(),
            j <= n,
            forall|t: int| j <= t < n ==> s@[t] != '/',
        ensures
            j <= n,
            j == 0 || s@[j - 1] == '/',
            forall|t: int| j <= t < n ==> s@[t] != '/',
        decreases j,
    {
        if s.get_char(j - 1) == '/' {
            break ;
        }
        j -= 1;
    }
    proof {
        lemma_basename_subrange(s@, j as int);
    }
    let part = s.substring_char(j, n);
    part.to_owned()
}

/// A copy of an optional string, with its value.
pub fn clone_opt_string(s: &Option<String>) -> (r: Option<String>)
    ensures
        r.deep_view() == s.deep_view(),
{
    match s {
        Some(x) => Some(x.clone()),
        None => None,
    }
}

/// A copy of a string list, with its values.
pub fn clone_strings(l: &Vec<String>) -> (r: Vec<String>)
    ensures
        r.deep_view() == l.deep_view(),
{
    let mut out: Vec<String> = Vec::new();
    let n = l.len();
    let mut i: usize = 0;
    while i < n
        invariant
            n == l@.len(),
            i <= n,
            out@.len() == i,
            forall|j: int| 0 <= j < i ==> out@[j]@ == l@[j]@,
        decreases n - i,
    {
        out.push(l[i].clone());
        i += 1;
    }
    proof {
        assert forall|j: int| 0 <= j < out@.len() implies #[trigger] out.deep_view()[j]
            == out@[j]@ by {}
        assert forall|j: int| 0 <= j < l@.len() implies #[trigger] l.deep_view()[j] == l@[j]@ by {}
        assert(out.deep_view() =~= l.deep_view());
    }
    out
}

/// Whether two optional strings hold the same characters.
pub fn opt_string_eq(a: &Option<String>, b: &Option<String>) -> (r: bool)
    ensures
        r == (a.deep_view() == b.deep_view()),
{
    match (a, b) {
        (Some(x), Some(y)) => {
            proof {
                assert(a.deep_view() == Some(x@));
                assert(b.deep_view() == Some(y@));
            }
            x.eq(y)
        },
        (None, None) => true,
        _ => {
            proof {
                assert(a.deep_view() != b.deep_view());
            }
            false
        },
    }
}

/// Whether two string lists hold the same strings in the same order.
pub fn strings_eq(a: &Vec<String>, b: &Vec<String>) -> (r: bool)
    ensures
        r == (a.deep_view() == b.deep_view()),
{
    if a.len() != b.len() {
        assert(a.deep_view().len() != b.deep_view().len());
        return false;
    }
    let n = a.len();
    let mut i: usize = 0;
    while i < n
        invariant
            n == a.len() == b.len(),
            i <= n,
            forall|j: int| 0 <= j < i ==> a.deep_view()[j] == b.deep_view()[j],
        decreases n - i,
    {
        proof {
            assert(a.deep_view()[i as int] == a@[i as int]@);
            assert(b.deep_view()[i as int] == b@[i as int]@);
        }
        if !(a[i].eq(&b[i])) {
            assert(a.deep_view()[i as int] != b.deep_view()[i as int]);
            return false;
        }
        assert(a.deep_view()[i as int] == b.deep_view()[i as int]);
        i += 1;
    }
    proof {
        assert(a.deep_view() =~= b.deep_view());
    }
    true
}

/// Whether `s` begins with `prefix`.
pub open spec fn spec_starts_with(s: Seq<char>, prefix: Seq<char>) -> bool {
    s.len() >= prefix.len() && s.subrange(0, prefix.len() as int) == prefix
}

/// Whether `s` ends with `suffix`.
pub open spec fn spec_ends_with(s: Seq<char>, suffix: Seq<char>) -> bool {
    s.len() >= suffix.len() && s.subrange(s.len() - suffix.len(), s.len() as int) == suffix
}

/// Whether `s` begins with `prefix`.
pub fn str_starts_with(s: &str, prefix: &str) -> (r: bool)
    ensures
        r == spec_starts_with(s@, prefix@),
{
    let slen = s.unicode_len();
    let plen = prefix.unicode_len();
    if slen < plen {
        return false;
    }
    let mut i: usize = 0;
    while i < plen
        invariant
            slen == s@.len(),
            plen == prefix@.len(),
            plen <= slen,
            i <= plen,
            forall|j: int| 0 <= j < i ==> s@[j] == prefix@[j],
        decreases plen - i,
    {
        if s.get_char(i) != prefix.get_char(i) {
            assert(!spec_starts_with(s@, prefix@)) by {
                assert(s@.subrange(0, prefix@.len() as int)[i as int] == s@[i as int]);
            }
            return false;
        }
        i += 1;
    }
    proof {
        assert(s@.subrange(0, prefix@.len() as int) =~= prefix@);
    }
    true
}

/// Whether `s` ends with `suffix`.
pub fn str_ends_with(s: &str, suffix: &str) -> (r: bool)
    ensures
        r == spec_ends_with(s@, suffix@),
{
    let slen = s.unicode_len();
    let xlen = suffix.unicode_len();
    if slen < xlen {
        return false;
    }
    let base = slen - xlen;
    let mut i: usize = 0;
    while i < xlen
        invariant
            slen == s@.len(),
            xlen == suffix@.len(),
            base == slen - xlen,
            i <= xlen,
            forall|j: int| 0 <= j < i ==> s@[base + j] == suffix@[j],
        decreases xlen - i,
    {
        if s.get_char(base + i) != suffix.get_char(i) {
            assert(!spec_ends_with(s@, suffix@)) by {
                assert(s@.subrange(s@.len() - suffix@.len(), s@.len() as int)[i as int] == s@[base
                    + i]);
            }
            return false;
        }
        i += 1;
    }
    proof {
        assert(s@.subrange(s@.len() - suffix@.len(), s@.len() as int) =~= suffix@);
    }
    true
}

} // verus!
