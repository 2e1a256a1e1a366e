//! The archiving tool's protocol: the argument lists for compression and
//! decompression, the parser for its streamed progress lines, the
//! percent-deduplicating progress tracker, and the mapping of the process
//! exit status to an outcome. Spawning the tool and draining its output is
//! the caller's work; every decision about the bytes seen is made here.
use vstd::prelude::*;

use crate::error::{CatalogError, CatalogErrorView};
use crate::text::spec_join_path;

verus! {

/// Whether `c` is blank space as the tool's output uses it.
pub open spec fn spec_is_space(c: char) -> bool {
    c == ' ' || c == '\t'
}

/// Whether `c` is a decimal digit.
pub open spec fn spec_is_digit(c: char) -> bool {
    48 <= (c as u32) <= 57
}

/// The value of a digit character.
pub open spec fn spec_digit_of(c: char) -> nat {
    ((c as u32) - 48) as nat
}

/// The first index at or after `i` holding something other than blank
/// space.
pub open spec fn spec_skip_spaces(s: Seq<char>, i: int) -> int
    decreases s.len() - i,
{
    if i < 0 || i >= s.len() {
        i
    } else if spec_is_space(s[i]) {
        spec_skip_spaces(s, i + 1)
    } else {
        i
    }
}

/// The first index at or after `i` holding a non-digit.
pub open spec fn spec_scan_digits(s: Seq<char>, i: int) -> int
    decreases s.len() - i,
{
    if i < 0 || i >= s.len() {
        i
    } else if spec_is_digit(s[i]) {
        spec_scan_digits(s, i + 1)
    } else {
        i
    }
}

/// The value of the digit run `s[i..j)`, most significant digit first.
pub open spec fn spec_digits_val(s: Seq<char>, i: int, j: int) -> nat
    decreases j - i,
{
    if j <= i {
        0
    } else {
        spec_digits_val(s, i, j - 1) * 10 + spec_digit_of(s[j - 1])
    }
}

/// The tool's progress line grammar: optional blank space, a percent
/// number and `%`, blank space, a processed-entry count, blank space, the
/// separator character, blank space, and a non-empty entry name that runs
/// to the end of the line. Anything else is not a progress line.
pub open spec fn spec_parse_progress(s: Seq<char>, sep: char) -> Option<(nat, nat, Seq<char>)> {
    let a = spec_skip_spaces(s, 0);
    let b = spec_scan_digits(s, a);
    if b == a || b >= s.len() || s[b] != '%' {
        None
    } else {
        let c0 = spec_skip_spaces(s, b + 1);
        let d = spec_scan_digits(s, c0);
        if c0 == b + 1 || d == c0 {
            None
        } else {
            let e = spec_skip_spaces(s, d);
            if e == d || e >= s.len() || s[e] != sep {
                None
            } else {
                let f = spec_skip_spaces(s, e + 1);
                if f == e + 1 || f >= s.len() {
                    None
                } else {
                    Some((spec_digits_val(s, a, b), spec_digits_val(s, c0, d), s.skip(f)))
                }
            }
        }
    }
}

/// A longer digit run never has a smaller value.
proof fn lemma_digits_val_monotone(s: Seq<char>, i: int, k: int, j: int)
    requires
        i <= k <= j,
    ensures
        spec_digits_val(s, i, j) >= spec_digits_val(s, i, k),
    decreases j - k,
{
    if k < j {
        lemma_digits_val_monotone(s, i, k, j - 1);
        assert(spec_digits_val(s, i, j) == spec_digits_val(s, i, j - 1) * 10 + spec_digit_of(
            s[j - 1],
        ));
        assert(spec_digits_val(s, i, j - 1) * 10 >= spec_digits_val(s, i, j - 1)) by (nonlinear_arith);
    }
}

/// Advances past blank space, mirroring `spec_skip_spaces`.
fn skip_spaces(s: &str, i: usize) -> (r: usize)
    requires
        i <= s@.len(),
    ensures
        i <= r <= s@.len(),
        r == spec_skip_spaces(s@, i as int),
        r < s@.len() ==> !spec_is_space(s@[r as int]),
{
    let n = s.unicode_len();
    let mut j = i;
    while j < n
        invariant
            n == s@.len(),
            i <= j <= n,
            spec_skip_spaces(s@, i as int) == spec_skip_spaces(s@, j as int),
        decreases n - j,
    {
        let c = s.get_char(j);
        if !(c == ' ' || c == '\t') {
            return j;
        }
        j += 1;
    }
    j
}

/// Advances past digits, mirroring `spec_scan_digits`.
fn scan_digits(s: &str, i: usize) -> (r: usize)
    requires
        i <= s@.len(),
    ensures
        i <= r <= s@.len(),
        r == spec_scan_digits(s@, i as int),
        r < s@.len() ==> !spec_is_digit(s@[r as int]),
{
    let n = s.unicode_len();
    let mut j = i;
    while j < n
        invariant
            n == s@.len(),
            i <= j <= n,
            spec_scan_digits(s@, i as int) == spec_scan_digits(s@, j as int),
        decreases n - j,
    {
        let c = s.get_char(j);
        let u = c as u32;
        if !(48 <= u && u <= 57) {
            return j;
        }
        j += 1;
    }
    j
}

/// Reads the digit run `s[i..j)` as a 32-bit number, refusing a value
/// that does not fit.
fn read_digits(s: &str, i: usize, j: usize) -> (r: Option<u32>)
    requires
        i <= j <= s@.len(),
        forall|k: int| i <= k < j ==> spec_is_digit(s@[k]),
    ensures
        match r {
            Some(v) => v as nat == spec_digits_val(s@, i as int, j as int),
            None => spec_digits_val(s@, i as int, j as int) > u32::MAX,
        },
{
    let mut acc: u32 = 0;
    let mut k = i;
    while k < j
        invariant
            i <= k <= j <= s@.len(),
            forall|t: int| i <= t < j ==> spec_is_digit(s@[t]),
            acc as nat == spec_digits_val(s@, i as int, k as int),
        decreases j - k,
    {
        let c = s.get_char(k);
        proof {
            assert(spec_is_digit(s@[k as int]));
        }
        let u = c as u32;
        let d: u32 = u - 48;
        proof {
            assert(d as nat == spec_digit_of(s@[k as int]));
        }
        if acc > (u32::MAX - d) / 10 {
            proof {
                assert((acc as nat) * 10 + d as nat > u32::MAX) by (nonlinear_arith)
                    requires
                        acc as nat > ((u32::MAX - d) as nat) / 10,
                        d < 10,
                ;
                lemma_digits_val_monotone(s@, i as int, k + 1, j as int);
            }
            return None;
        }
        proof {
            assert((acc as nat) * 10 + d as nat <= u32::MAX as nat) by (nonlinear_arith)
                requires
                    acc as nat <= ((u32::MAX - d) as nat) / 10,
                    d < 10,
            ;
        }
        acc = acc * 10 + d;
        k += 1;
    }
    Some(acc)
}

/// Parses one line of the tool's output as a progress report of the form
/// `<percent>% <count> <sep> <entry>`, per `spec_parse_progress`. A line
/// whose numbers do not fit 32 bits, like any other non-matching line, is
/// not a progress report.
pub fn parse_7z_output(out: &str, sep: char) -> (r: Option<(u32, u32, String)>)
    ensures
        match r {
            Some((p, c, name)) => spec_parse_progress(out@, sep) matches Some((sp, sc, sn))
                && p as nat == sp && c as nat == sc && name@ == sn,
            None => match spec_parse_progress(out@, sep) {
                Some((sp, sc, sn)) => sp > u32::MAX || sc > u32::MAX,
                None => true,
            },
        },
{
    let n = s_len(out);
    let a = skip_spaces(out, 0);
    let b = scan_digits(out, a);
    if b == a || b >= n {
        return None;
    }
    if out.get_char(b) != '%' {
        return None;
    }
    let c0 = skip_spaces(out, b + 1);
    let d = scan_digits(out, c0);
    if c0 == b + 1 || d == c0 {
        return None;
    }
    let e = skip_spaces(out, d);
    if e == d || e >= n {
        return None;
    }
    if out.get_char(e) != sep {
        return None;
    }
    let f = skip_spaces(out, e + 1);
    if f == e + 1 || f >= n {
        return None;
    }
    proof {
        lemma_scan_digits_all(out@, a as int, b as int);
        lemma_scan_digits_all(out@, c0 as int, d as int);
    }
    let percent = match read_digits(out, a, b) {
        Some(v) => v,
        None => {
            return None;
        },
    };
    let count = match read_digits(out, c0, d) {
        Some(v) => v,
        None => {
            return None;
        },
    };
    let name = out.substring_char(f, n).to_owned();
    proof {
        assert(name@ =~= out@.skip(f as int));
    }
    Some((percent, count, name))
}

/// Everything a digit scan passed over is a digit.
proof fn lemma_scan_digits_all(s: Seq<char>, i: int, j: int)
    requires
        0 <= i <= s.len(),
        j == spec_scan_digits(s, i),
    ensures
        forall|k: int| i <= k < j ==> spec_is_digit(s[k]),
    decreases s.len() - i,
{
    if i < s.len() && spec_is_digit(s[i]) {
        lemma_scan_digits_all(s, i + 1, j);
    }
}

fn s_len(s: &str) -> (r: usize)
    ensures
        r == s@.len(),
{
    s.unicode_len()
}

/// The monotonic de-duplication of progress events: a parsed progress line
/// is published to subscribers only when its percent value differs from
/// the last published one. Out-of-order lines are passed through as they
/// come; nothing is enforced about direction.
pub struct ProgressTracker {
    last: Option<u32>,
}

impl ProgressTracker {
    /// The last published percent value, if any.
    pub closed spec fn last_percent(self) -> Option<u32> {
        self.last
    }

    /// A tracker that has published nothing yet.
    pub fn new() -> (r: Self)
        ensures
            r.last_percent() is None,
    {
        ProgressTracker { last: None }
    }

    /// Whether a progress report with this percent value must be
    /// published: exactly when it differs from the last published value.
    /// Publishing records the value.
    pub fn observe(&mut self, percent: u32) -> (emit: bool)
        ensures
            emit == (old(self).last_percent() != Some(percent)),
            final(self).last_percent() == Some(percent),
    {
        let changed = match self.last {
            Some(p) => p != percent,
            None => true,
        };
        self.last = Some(percent);
        changed
    }
}

/// The outcome of a tool run is decided by its exit status alone: exit
/// code zero is success; any other code, or an exit without a code, is
/// the external-tool error carrying what was observed.
pub fn exit_outcome(code: Option<i32>) -> (r: Result<(), CatalogError>)
    ensures
        code == Some(0i32) ==> r is Ok,
        code != Some(0i32) ==> (r matches Err(e) && e@ == (CatalogErrorView::ExternalToolError {
            code,
        })),
{
    match code {
        Some(0) => Ok(()),
        _ => Err(CatalogError::ExternalToolError { code }),
    }
}

/// The fixed argument list of a compression run: add recursively into a
/// solid 7z archive at maximum compression, multi-threaded, with progress
/// on standard output, and header-encrypted password protection when a
/// password is given. The tool's input is everything under `input_dir`.
pub fn compress_args(input_dir: &str, output_file: &str, password: &Option<String>) -> (r: Vec<
    String,
>)
    ensures
        ({
            let base = seq![
                "a"@,
                output_file@,
                spec_join_path(input_dir@, "*"@),
                "-t7z"@,
                "-mx9"@,
                "-ms4g"@,
                "-md64m"@,
                "-mmt"@,
                "-r"@,
                "-bsp1"@,
            ];
            match password.deep_view() {
                Some(p) => r.deep_view() == base + seq![seq!['-', 'p'] + p, "-mhe"@],
                None => r.deep_view() == base,
            }
        }),
{
    proof {
        reveal_strlit("*");
        reveal_strlit("-p");
    }
    let mut v: Vec<String> = Vec::new();
    v.push(String::from_str("a"));
    v.push(String::from_str(output_file));
    v.push(crate::text::join_path(input_dir, "*"));
    v.push(String::from_str("-t7z"));
    v.push(String::from_str("-mx9"));
    v.push(String::from_str("-ms4g"));
    v.push(String::from_str("-md64m"));
    v.push(String::from_str("-mmt"));
    v.push(String::from_str("-r"));
    v.push(String::from_str("-bsp1"));
    match password {
        Some(pwd) => {
            let mut parg = String::from_str("-p");
            parg.append(pwd.as_str());
            v.push(parg);
            v.push(String::from_str("-mhe"));
        },
        None => {},
    }
    proof {
        assert forall|j: int| 0 <= j < v@.len() implies #[trigger] v.deep_view()[j]
            == v@[j]@ by {}
        assert("-p"@ =~= seq!['-', 'p']);
        match password.deep_view() {
            Some(p) => {
                assert(v.deep_view() =~= seq![
                    "a"@,
                    output_file@,
                    spec_join_path(input_dir@, "*"@),
                    "-t7z"@,
                    "-mx9"@,
                    "-ms4g"@,
                    "-md64m"@,
                    "-mmt"@,
                    "-r"@,
                    "-bsp1"@,
                ] + seq![seq!['-', 'p'] + p, "-mhe"@]);
            },
            None => {
                assert(v.deep_view() =~= seq![
                    "a"@,
                    output_file@,
                    spec_join_path(input_dir@, "*"@),
                    "-t7z"@,
                    "-mx9"@,
                    "-ms4g"@,
                    "-md64m"@,
                    "-mmt"@,
                    "-r"@,
                    "-bsp1"@,
                ]);
            },
        }
    }
    v
}

/// The fixed argument list of a decompression run: extract with full
/// paths into `output_dir`, overwriting everything without prompting,
/// with progress on standard output, and the password when one is given.
pub fn decompress_args(input_file: &str, output_dir: &str, password: &Option<String>) -> (r: Vec<
    String,
>)
    ensures
        ({
            let base = seq![
                "x"@,
                input_file@,
                seq!['-', 'o'] + output_dir@,
                "-aoa"@,
                "-y"@,
                "-bsp1"@,
            ];
            match password.deep_view() {
                Some(p) => r.deep_view() == base + seq![seq!['-', 'p'] + p],
                None => r.deep_view() == base,
            }
        }),
{
    proof {
        reveal_strlit("-o");
        reveal_strlit("-p");
    }
    let mut v: Vec<String> = Vec::new();
    v.push(String::from_str("x"));
    v.push(String::from_str(input_file));
    let mut oarg = String::from_str("-o");
    oarg.append(output_dir);
    v.push(oarg);
    v.push(String::from_str("-aoa"));
    v.push(String::from_str("-y"));
    v.push(String::from_str("-bsp1"));
    match password {
        Some(pwd) => {
            let mut parg = String::from_str("-p");
            parg.append(pwd.as_str());
            v.push(parg);
        },
        None => {},
    }
    proof {
        assert forall|j: int| 0 <= j < v@.len() implies #[trigger] v.deep_view()[j]
            == v@[j]@ by {}
        assert("-p"@ =~= seq!['-', 'p']);
        assert("-o"@ =~= seq!['-', 'o']);
        match password.deep_view() {
            Some(p) => {
                assert(v.deep_view() =~= seq![
                    "x"@,
                    input_file@,
                    seq!['-', 'o'] + output_dir@,
                    "-aoa"@,
                    "-y"@,
                    "-bsp1"@,
                ] + seq![seq!['-', 'p'] + p]);
            },
            None => {
                assert(v.deep_view() =~= seq![
                    "x"@,
                    input_file@,
                    seq!['-', 'o'] + output_dir@,
                    "-aoa"@,
                    "-y"@,
                    "-bsp1"@,
                ]);
            },
        }
    }
    v
}

/// The file-name stem of a path: the characters before the final
/// extension dot of its last segment, or nothing when that segment has no
/// extension.
pub open spec fn spec_stem_opt(p: Seq<char>) -> Option<Seq<char>>
    decreases p.len(),
{
    if p.len() == 0 {
        None
    } else if p[p.len() - 1] == '.' {
        Some(p.drop_last())
    } else if p[p.len() - 1] == '/' {
        None
    } else {
        spec_stem_opt(p.drop_last())
    }
}

proof fn lemma_stem_found(p: Seq<char>, j: int)
    requires
        0 <= j < p.len(),
        p[j] == '.',
        forall|k: int| j < k < p.len() ==> p[k] != '.' && p[k] != '/',
    ensures
        spec_stem_opt(p) == Some(p.take(j)),
    decreases p.len() - j,
{
    if j == p.len() - 1 {
        assert(p.drop_last() =~= p.take(j));
    } else {
        lemma_stem_found(p.drop_last(), j);
        assert(p.drop_last().take(j) =~= p.take(j));
    }
}

proof fn lemma_stem_none(p: Seq<char>, j: int)
    requires
        0 <= j <= p.len(),
        j == 0 || p[j - 1] == '/',
        forall|k: int| j <= k < p.len() ==> p[k] != '.' && p[k] != '/',
    ensures
        spec_stem_opt(p) is None,
    decreases p.len() - j,
{
    if p.len() == j {
        if j > 0 {
            assert(p[p.len() - 1] == '/');
        }
    } else {
        assert(p[p.len() - 1] != '.' && p[p.len() - 1] != '/');
        lemma_stem_none(p.drop_last(), j);
    }
}

/// The fallback output path tried after a successful compression whose
/// requested output file is absent: the tool may have replaced the
/// requested extension with its own `.7z`. This is the requested path
/// with its extension replaced by `.7z` (or `.7z` appended when its last
/// segment has none).
pub fn alternate_output_path(path: &str) -> (r: String)
    ensures
        r@ == match spec_stem_opt(path@) {
            Some(stem) => stem + ".7z"@,
            None => path@ + ".7z"@,
        },
{
    let n = path.unicode_len();
    let mut j: usize = n;
    while j > 0
        invariant
            n == path@.len(),
            j <= n,
            forall|t: int| j <= t < n ==> path@[t] != '.' && path@[t] != '/',
        ensures
            j <= n,
            j == 0 || path@[j - 1] == '.' || path@[j - 1] == '/',
            forall|t: int| j <= t < n ==> path@[t] != '.' && path@[t] != '/',
        decreases j,
    {
        let c = path.get_char(j - 1);
        if c == '.' || c == '/' {
            break ;
        }
        j -= 1;
    }
    if j > 0 && path.get_char(j - 1) == '.' {
        proof {
            lemma_stem_found(path@, j - 1);
        }
        let stem = path.substring_char(0, j - 1);
        let mut s = stem.to_owned();
        s.append(".7z");
        proof {
            assert(stem@ =~= path@.take(j - 1));
        }
        s
    } else {
        proof {
            lemma_stem_none(path@, j as int);
        }
        let mut s = String::from_str(path);
        s.append(".7z");
        s
    }
}

} // verus!
