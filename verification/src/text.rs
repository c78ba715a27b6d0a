//! Verified helpers over sequences of characters: decimal rendering,
//! whitespace scanning, concatenation and joining, and digit parsing.
use vstd::prelude::*;
use vstd::string::StrSliceExecFns;
use vstd::string::StringExecFns;

verus! {

/// ASCII whitespace, the characters `str::split_whitespace` and `str::trim`
/// treat as separators on ASCII text.
pub open spec fn is_space(c: char) -> bool {
    c == ' ' || c == '\t' || c == '\n' || c == '\r' || c == '\x0b' || c == '\x0c'
}

/// Decimal digit.
pub open spec fn is_digit(c: char) -> bool {
    '0' <= c && c <= '9'
}

/// Numeric value of a decimal digit character.
pub open spec fn digit_val(c: char) -> nat
    recommends
        is_digit(c),
{
    (c as nat - '0' as nat) as nat
}

/// The digit character for a value below ten.
pub open spec fn digit_char(d: nat) -> char
    recommends
        d < 10,
{
    if d == 0 {
        '0'
    } else if d == 1 {
        '1'
    } else if d == 2 {
        '2'
    } else if d == 3 {
        '3'
    } else if d == 4 {
        '4'
    } else if d == 5 {
        '5'
    } else if d == 6 {
        '6'
    } else if d == 7 {
        '7'
    } else if d == 8 {
        '8'
    } else {
        '9'
    }
}

/// The decimal rendering of a natural number, most significant digit first.
pub open spec fn dec_str(n: nat) -> Seq<char>
    decreases n,
{
    if n < 10 {
        seq![digit_char(n)]
    } else {
        dec_str(n / 10).push(digit_char(n % 10))
    }
}

fn digit_str(d: u64) -> (r: &'static str)
    requires
        d < 10,
    ensures
        r@ =~= seq![digit_char(d as nat)],
{
    proof {
        reveal_strlit("0");
        reveal_strlit("1");
        reveal_strlit("2");
        reveal_strlit("3");
        reveal_strlit("4");
        reveal_strlit("5");
        reveal_strlit("6");
        reveal_strlit("7");
        reveal_strlit("8");
        reveal_strlit("9");
    }
    if d == 0 {
        "0"
    } else if d == 1 {
        "1"
    } else if d == 2 {
        "2"
    } else if d == 3 {
        "3"
    } else if d == 4 {
        "4"
    } else if d == 5 {
        "5"
    } else if d == 6 {
        "6"
    } else if d == 7 {
        "7"
    } else if d == 8 {
        "8"
    } else {
        "9"
    }
}

/// Renders a number in decimal, as `u64`'s `Display` does.
pub fn u64_to_string(n: u64) -> (r: String)
    ensures
        r@ == dec_str(n as nat),
    decreases n,
{
    if n < 10 {
        digit_str(n).to_owned()
    } else {
        let mut s = u64_to_string(n / 10);
        s.append(digit_str(n % 10));
        proof {
            assert(s@ =~= dec_str(n as nat));
        }
        s
    }
}

/// First index at or after `i` whose character satisfies `is_space` iff
/// `stop_on_space`; the length when no such index exists.
pub open spec fn scan_from(s: Seq<char>, i: int, stop_on_space: bool) -> int
    recommends
        0 <= i <= s.len(),
    decreases s.len() - i,
{
    if i < 0 || i >= s.len() {
        s.len() as int
    } else if is_space(s[i]) != stop_on_space {
        scan_from(s, i + 1, stop_on_space)
    } else {
        i
    }
}

pub proof fn lemma_scan_from(s: Seq<char>, i: int, stop_on_space: bool)
    requires
        0 <= i <= s.len(),
    ensures
        i <= scan_from(s, i, stop_on_space) <= s.len(),
        forall|j: int|
            i <= j < scan_from(s, i, stop_on_space) ==> is_space(s[j]) != stop_on_space,
        scan_from(s, i, stop_on_space) < s.len() ==> is_space(
            s[scan_from(s, i, stop_on_space)],
        ) == stop_on_space,
    decreases s.len() - i,
{
    if i < s.len() && is_space(s[i]) != stop_on_space {
        lemma_scan_from(s, i + 1, stop_on_space);
    }
}

fn is_space_exec(c: char) -> (r: bool)
    ensures
        r == is_space(c),
{
    c == ' ' || c == '\t' || c == '\n' || c == '\r' || c == '\x0b' || c == '\x0c'
}

/// Executable counterpart of `scan_from`.
pub fn scan_from_exec(s: &str, i: usize, stop_on_space: bool) -> (r: usize)
    requires
        i <= s@.len(),
    ensures
        r == scan_from(s@, i as int, stop_on_space),
        i <= r <= s@.len(),
{
    proof {
        lemma_scan_from(s@, i as int, stop_on_space);
    }
    let n = s.unicode_len();
    let mut k = i;
    while k < n
        invariant
            i <= k <= n,
            n == s@.len(),
            scan_from(s@, i as int, stop_on_space) == scan_from(s@, k as int, stop_on_space),
        decreases n - k,
    {
        let c = s.get_char(k);
        if is_space_exec(c) == stop_on_space {
            return k;
        }
        k = k + 1;
    }
    k
}

/// `s` without its leading run of the character `c`.
pub open spec fn strip_leading(s: Seq<char>, c: char) -> Seq<char>
    decreases s.len(),
{
    if s.len() > 0 && s[0] == c {
        strip_leading(s.drop_first(), c)
    } else {
        s
    }
}

proof fn lemma_strip_leading_skip(s: Seq<char>, c: char, k: int)
    requires
        0 <= k <= s.len(),
        forall|j: int| 0 <= j < k ==> s[j] == c,
    ensures
        strip_leading(s, c) == if k < s.len() && s[k] != c {
            s.subrange(k, s.len() as int)
        } else {
            strip_leading(s.subrange(k, s.len() as int), c)
        },
    decreases k,
{
    if k == 0 {
        assert(s.subrange(0, s.len() as int) =~= s);
    } else {
        assert(s.len() > 0 && s[0] == c);
        assert(s.drop_first() =~= s.subrange(1, s.len() as int));
        lemma_strip_leading_skip(s.drop_first(), c, k - 1);
        assert(s.drop_first().subrange(k - 1, s.drop_first().len() as int) =~= s.subrange(
            k,
            s.len() as int,
        ));
    }
}

/// Removes every leading occurrence of `c` from `s`.
pub fn strip_leading_exec(s: &str, c: char) -> (r: String)
    ensures
        r@ == strip_leading(s@, c),
{
    let n = s.unicode_len();
    let mut k: usize = 0;
    while k < n
        invariant
            0 <= k <= n,
            n == s@.len(),
            forall|j: int| 0 <= j < k ==> s@[j] == c,
        decreases n - k,
    {
        if s.get_char(k) != c {
            proof {
                lemma_strip_leading_skip(s@, c, k as int);
            }
            return s.substring_char(k, n).to_owned();
        }
        k = k + 1;
    }
    proof {
        lemma_strip_leading_skip(s@, c, n as int);
        assert(s@.subrange(n as int, n as int) =~= Seq::<char>::empty());
        assert(strip_leading(Seq::<char>::empty(), c) =~= Seq::<char>::empty());
    }
    String::new()
}

/// Scanning right to left from `i`: the index just past the last
/// non-space character before `i`, or 0 when all of them are spaces.
pub open spec fn rscan_space(s: Seq<char>, i: int) -> int
    recommends
        0 <= i <= s.len(),
    decreases i,
{
    if i <= 0 {
        0
    } else if is_space(s[i - 1]) {
        rscan_space(s, i - 1)
    } else {
        i
    }
}

/// `s` without leading and trailing ASCII whitespace, as `str::trim`
/// yields on ASCII text.
pub open spec fn trimmed(s: Seq<char>) -> Seq<char> {
    if scan_from(s, 0, false) == s.len() {
        Seq::empty()
    } else {
        s.subrange(scan_from(s, 0, false), rscan_space(s, s.len() as int))
    }
}

proof fn lemma_rscan_past(s: Seq<char>, a: int, i: int)
    requires
        0 <= a < i <= s.len(),
        !is_space(s[a]),
    ensures
        a < rscan_space(s, i) <= i,
    decreases i,
{
    if is_space(s[i - 1]) {
        assert(i - 1 != a);
        lemma_rscan_past(s, a, i - 1);
    }
}

/// Removes leading and trailing ASCII whitespace.
pub fn trim_exec(s: &str) -> (r: String)
    ensures
        r@ == trimmed(s@),
{
    let n = s.unicode_len();
    let a = scan_from_exec(s, 0, false);
    if a == n {
        return String::new();
    }
    proof {
        lemma_scan_from(s@, 0, false);
        lemma_rscan_past(s@, a as int, n as int);
    }
    let mut b = n;
    while b > 0
        invariant
            n == s@.len(),
            a < b <= n,
            a == scan_from(s@, 0, false),
            !is_space(s@[a as int]),
            rscan_space(s@, n as int) == rscan_space(s@, b as int),
        decreases b,
    {
        if !is_space_exec(s.get_char(b - 1)) {
            return s.substring_char(a, b).to_owned();
        }
        proof {
            lemma_rscan_past(s@, a as int, b - 1);
        }
        b = b - 1;
    }
    proof {
        assert(false);
    }
    String::new()
}

/// The concatenation of a sequence of character sequences, in order.
pub open spec fn concat_views(ss: Seq<Seq<char>>) -> Seq<char>
    decreases ss.len(),
{
    if ss.len() == 0 {
        Seq::empty()
    } else {
        concat_views(ss.drop_last()) + ss.last()
    }
}

/// Concatenates the strings of `v`, in order, with nothing between them.
pub fn concat_strings(v: &Vec<String>) -> (r: String)
    ensures
        r@ == concat_views(v@.map_values(|s: String| s@)),
{
    let ghost views = v@.map_values(|s: String| s@);
    let mut out = String::new();
    let mut i: usize = 0;
    while i < v.len()
        invariant
            0 <= i <= v.len(),
            views == v@.map_values(|s: String| s@),
            views.len() == v@.len(),
            out@ == concat_views(views.take(i as int)),
        decreases v.len() - i,
    {
        out.append(v[i].as_str());
        proof {
            assert(views.take(i + 1).drop_last() =~= views.take(i as int));
            assert(views.take(i + 1).last() == views[i as int]);
        }
        i = i + 1;
    }
    proof {
        assert(views.take(views.len() as int) =~= views);
    }
    out
}

/// The sequences of `ss` joined with `sep` between consecutive entries.
pub open spec fn join_with(ss: Seq<Seq<char>>, sep: Seq<char>) -> Seq<char>
    decreases ss.len(),
{
    if ss.len() == 0 {
        Seq::empty()
    } else if ss.len() == 1 {
        ss[0]
    } else {
        join_with(ss.drop_last(), sep) + sep + ss.last()
    }
}

/// Joins the strings of `v` with `sep` between consecutive entries.
pub fn join_strings(v: &Vec<String>, sep: &str) -> (r: String)
    ensures
        r@ == join_with(v@.map_values(|s: String| s@), sep@),
{
    let ghost views = v@.map_values(|s: String| s@);
    let mut out = String::new();
    let mut i: usize = 0;
    while i < v.len()
        invariant
            0 <= i <= v.len(),
            views == v@.map_values(|s: String| s@),
            views.len() == v@.len(),
            out@ == join_with(views.take(i as int), sep@),
        decreases v.len() - i,
    {
        if i > 0 {
            out.append(sep);
        }
        out.append(v[i].as_str());
        proof {
            assert(views.take(i + 1).drop_last() =~= views.take(i as int));
            assert(views.take(i + 1).last() == views[i as int]);
            if i == 0 {
                assert(out@ =~= views.take(1)[0]);
            }
        }
        i = i + 1;
    }
    proof {
        assert(views.take(views.len() as int) =~= views);
    }
    out
}

/// Whether some entry of `ss` equals `t`.
pub open spec fn seq_contains_str(ss: Seq<Seq<char>>, t: Seq<char>) -> bool {
    exists|i: int| 0 <= i < ss.len() && ss[i] == t
}

/// Whether some string of `v` equals `s`.
pub fn contains_string(v: &Vec<String>, s: &String) -> (r: bool)
    ensures
        r == seq_contains_str(v@.map_values(|t: String| t@), s@),
{
    let ghost views = v@.map_values(|t: String| t@);
    let mut i: usize = 0;
    while i < v.len()
        invariant
            0 <= i <= v.len(),
            views == v@.map_values(|t: String| t@),
            views.len() == v@.len(),
            forall|j: int| 0 <= j < i ==> views[j] != s@,
        decreases v.len() - i,
    {
        proof {
            assert(views[i as int] == v@[i as int]@);
        }
        if v[i] == *s {
            return true;
        }
        i = i + 1;
    }
    false
}

/// First index at or after `from` holding the character `c`; the length
/// when `c` does not occur there.
pub open spec fn find_char(s: Seq<char>, c: char, from: int) -> int
    recommends
        0 <= from <= s.len(),
    decreases s.len() - from,
{
    if from < 0 || from >= s.len() {
        s.len() as int
    } else if s[from] == c {
        from
    } else {
        find_char(s, c, from + 1)
    }
}

pub proof fn lemma_find_char(s: Seq<char>, c: char, from: int)
    requires
        0 <= from <= s.len(),
    ensures
        from <= find_char(s, c, from) <= s.len(),
        forall|j: int| from <= j < find_char(s, c, from) ==> s[j] != c,
        find_char(s, c, from) < s.len() ==> s[find_char(s, c, from)] == c,
    decreases s.len() - from,
{
    if from < s.len() && s[from] != c {
        lemma_find_char(s, c, from + 1);
    }
}

/// Executable counterpart of `find_char`.
pub fn find_char_exec(s: &str, c: char, from: usize) -> (r: usize)
    requires
        from <= s@.len(),
    ensures
        r == find_char(s@, c, from as int),
        from <= r <= s@.len(),
{
    proof {
        lemma_find_char(s@, c, from as int);
    }
    let n = s.unicode_len();
    let mut k = from;
    while k < n
        invariant
            from <= k <= n,
            n == s@.len(),
            find_char(s@, c, from as int) == find_char(s@, c, k as int),
        decreases n - k,
    {
        if s.get_char(k) == c {
            return k;
        }
        k = k + 1;
    }
    k
}

/// Every character is a decimal digit.
pub open spec fn all_digits(s: Seq<char>) -> bool {
    forall|i: int| 0 <= i < s.len() ==> is_digit(#[trigger] s[i])
}

/// The value of a digit string read in base ten.
pub open spec fn digits_val(s: Seq<char>) -> nat
    decreases s.len(),
{
    if s.len() == 0 {
        0
    } else {
        digits_val(s.drop_last()) * 10 + digit_val(s.last())
    }
}

/// What `str::parse::<u64>` returns on a string of plain digits: the value
/// when the string is non-empty, all digits, and the value fits; else nothing.
pub open spec fn parse_u64_digits(s: Seq<char>) -> Option<u64> {
    if s.len() > 0 && all_digits(s) && digits_val(s) <= u64::MAX {
        Some(digits_val(s) as u64)
    } else {
        None
    }
}

proof fn lemma_digits_val_prefix(s: Seq<char>, k: int)
    requires
        0 <= k <= s.len(),
    ensures
        digits_val(s.take(k)) <= digits_val(s),
    decreases s.len() - k,
{
    if k == s.len() {
        assert(s.take(k) =~= s);
    } else {
        assert(s.take(k + 1).drop_last() =~= s.take(k));
        assert(s.take(k + 1).last() == s[k]);
        lemma_digits_val_prefix(s, k + 1);
    }
}

/// Parses the characters of `s` between `from` and `to` as a base-ten `u64`.
pub fn parse_digits_range(s: &str, from: usize, to: usize) -> (r: Option<u64>)
    requires
        from <= to <= s@.len(),
    ensures
        r == parse_u64_digits(s@.subrange(from as int, to as int)),
{
    let ghost t = s@.subrange(from as int, to as int);
    if from == to {
        return None;
    }
    let mut acc: u64 = 0;
    let mut k = from;
    while k < to
        invariant
            from <= k <= to <= s@.len(),
            t == s@.subrange(from as int, to as int),
            all_digits(t.take(k - from)),
            acc == digits_val(t.take(k - from)),
        decreases to - k,
    {
        let c = s.get_char(k);
        proof {
            assert(t[k - from] == s@[k as int]);
        }
        let x = c as u32;
        if x < 48 || x > 57 {
            proof {
                assert(!is_digit(t[k - from]));
            }
            return None;
        }
        let d = (x - 48) as u64;
        proof {
            assert(is_digit(t[k - from]));
            assert(digit_val(t[k - from]) == d);
            assert(t.take(k - from + 1).drop_last() =~= t.take(k - from));
            assert(t.take(k - from + 1).last() == t[k - from]);
        }
        if acc > (u64::MAX - d) / 10 {
            proof {
                assert(acc * 10 + d > u64::MAX);
                assert(digits_val(t.take(k - from + 1)) > u64::MAX);
                lemma_digits_val_prefix(t, k - from + 1);
            }
            return None;
        }
        assert(acc * 10 + d <= u64::MAX);
        acc = acc * 10 + d;
        k = k + 1;
    }
    proof {
        assert(t.take(to - from) =~= t);
    }
    Some(acc)
}

} // verus!
