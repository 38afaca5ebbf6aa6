//! Text helpers: decimal rendering, month-label normalisation and the
//! year/fuel codes of the year listing.
use vstd::prelude::*;
use vstd::string::*;

verus! {

/// What `str::to_lowercase` returns for the given text.
pub uninterp spec fn lower_of(s: Seq<char>) -> Seq<char>;

/// The ASCII digit for a value below ten.
pub open spec fn digit_char(d: int) -> char {
    (('0' as int) + d) as char
}

/// Decimal digits of a non-negative number, most significant first.
pub open spec fn digits(n: nat) -> Seq<char>
    decreases n,
{
    if n < 10 {
        seq![digit_char(n as int)]
    } else {
        digits(n / 10).push(digit_char((n % 10) as int))
    }
}

/// The decimal text of an integer, with a leading '-' when negative.
pub open spec fn decimal(n: int) -> Seq<char> {
    if n < 0 {
        seq!['-'] + digits((-n) as nat)
    } else {
        digits(n as nat)
    }
}

/// Whether `needle` occurs as a contiguous part of `hay`.
pub open spec fn has_infix(hay: Seq<char>, needle: Seq<char>) -> bool {
    exists|i: int|
        0 <= i && i + needle.len() <= hay.len() && #[trigger] hay.subrange(i, i + needle.len())
            == needle
}

/// The one-character text of a decimal digit.
fn digit_text(d: u64) -> (r: &'static str)
    requires
        d < 10,
    ensures
        r@ == seq![digit_char(d as int)],
{
    proof {
        reveal_strlit("0");
        reveal_strlit("1");
        reveal_strlit("2");
        reveal_strlit("3");
        reveal_strlit("4");
        reveal_strlit("5");
        reveal_strlit("6");
        reveal_strlit("7");
        reveal_strlit("8");
        reveal_strlit("9");
    }
    let r = if d == 0 {
        "0"
    } else if d == 1 {
        "1"
    } else if d == 2 {
        "2"
    } else if d == 3 {
        "3"
    } else if d == 4 {
        "4"
    } else if d == 5 {
        "5"
    } else if d == 6 {
        "6"
    } else if d == 7 {
        "7"
    } else if d == 8 {
        "8"
    } else {
        "9"
    };
    assert(r@ =~= seq![digit_char(d as int)]);
    r
}

/// Appends the decimal digits of `v`.
fn push_digits(out: &mut String, v: u64)
    ensures
        final(out)@ == old(out)@ + digits(v as nat),
    decreases v,
{
    if v >= 10 {
        push_digits(out, v / 10);
    }
    out.append(digit_text(v % 10));
    proof {
        if v < 10 {
            assert(digits(v as nat) =~= seq![digit_char(v as int)]);
        }
    }
    assert(out@ =~= old(out)@ + digits(v as nat));
}

/// The decimal text of an integer, with a leading '-' when negative.
pub fn int_text(n: i32) -> (r: String)
    ensures
        r@ == decimal(n as int),
{
    let mut out = String::new();
    let wide = n as i64;
    if wide < 0 {
        out.append("-");
        proof {
            reveal_strlit("-");
        }
        push_digits(&mut out, (-wide) as u64);
        assert(out@ =~= seq!['-'] + digits((-(n as int)) as nat));
    } else {
        push_digits(&mut out, wide as u64);
        assert(out@ =~= digits(n as nat));
    }
    out
}

/// Unicode White_Space: the characters `char::is_whitespace` accepts.
pub open spec fn is_ws(c: char) -> bool {
    let u = c as u32;
    (0x9 <= u <= 0xD) || u == 0x20 || u == 0x85 || u == 0xA0 || u == 0x1680 || (0x2000 <= u <= 0x200A)
        || u == 0x2028 || u == 0x2029 || u == 0x202F || u == 0x205F || u == 0x3000
}

/// Index of the first character at or after `i` that is not whitespace.
pub open spec fn first_kept(s: Seq<char>, i: int) -> int
    decreases s.len() - i,
{
    if i >= s.len() {
        s.len() as int
    } else if is_ws(s[i]) {
        first_kept(s, i + 1)
    } else {
        i
    }
}

/// One past the last character before `j` that is not whitespace.
pub open spec fn end_kept(s: Seq<char>, j: int) -> int
    decreases j,
{
    if j <= 0 {
        0
    } else if is_ws(s[j - 1]) {
        end_kept(s, j - 1)
    } else {
        j
    }
}

/// The text without leading and trailing whitespace.
pub open spec fn trimmed(s: Seq<char>) -> Seq<char> {
    let a = first_kept(s, 0);
    let b = end_kept(s, s.len() as int);
    if a < b {
        s.subrange(a, b)
    } else {
        Seq::empty()
    }
}

fn char_is_ws(c: char) -> (r: bool)
    ensures
        r == is_ws(c),
{
    let u = c as u32;
    (0x9 <= u && u <= 0xD) || u == 0x20 || u == 0x85 || u == 0xA0 || u == 0x1680 || (0x2000 <= u && u
        <= 0x200A) || u == 0x2028 || u == 0x2029 || u == 0x202F || u == 0x205F || u == 0x3000
}

proof fn lemma_first_kept(s: Seq<char>, i: int)
    requires
        0 <= i <= s.len(),
    ensures
        i <= first_kept(s, i) <= s.len(),
    decreases s.len() - i,
{
    if i < s.len() && is_ws(s[i]) {
        lemma_first_kept(s, i + 1);
    }
}

proof fn lemma_end_kept(s: Seq<char>, j: int)
    requires
        0 <= j <= s.len(),
    ensures
        0 <= end_kept(s, j) <= j,
    decreases j,
{
    if j > 0 && is_ws(s[j - 1]) {
        lemma_end_kept(s, j - 1);
    }
}

/// The text without leading and trailing whitespace, as `str::trim` gives it.
pub fn trim_text(s: &str) -> (r: &str)
    ensures
        r@ == trimmed(s@),
{
    let n = s.unicode_len();
    let mut a: usize = 0;
    while a < n && char_is_ws(s.get_char(a))
        invariant
            n == s@.len(),
            a <= n,
            first_kept(s@, 0) == first_kept(s@, a as int),
        decreases n - a,
    {
        a = a + 1;
    }
    proof {
        lemma_first_kept(s@, a as int);
    }
    let mut b: usize = n;
    while b > a && char_is_ws(s.get_char(b - 1))
        invariant
            n == s@.len(),
            a <= b <= n,
            end_kept(s@, n as int) == end_kept(s@, b as int),
            first_kept(s@, 0) == a,
        decreases b,
    {
        b = b - 1;
    }
    proof {
        if b == a {
            lemma_end_kept(s@, b as int);
        } else {
            assert(end_kept(s@, b as int) == b);
        }
    }
    s.substring_char(a, b)
}

/// Relies on `str::to_lowercase`: the result depends on the characters alone.
#[verifier::external_body]
pub(crate) fn lowercase(s: &str) -> (r: String)
    ensures
        r@ == lower_of(s@),
{
    s.to_lowercase()
}

/// Whether `needle` occurs in `hay` as a contiguous run of characters.
pub fn contains_text(hay: &str, needle: &str) -> (r: bool)
    ensures
        r == has_infix(hay@, needle@),
{
    let n = hay.unicode_len();
    let m = needle.unicode_len();
    if m > n {
        return false;
    }
    if m == 0 {
        assert(hay@.subrange(0, 0 + needle@.len() as int) =~= needle@);
        return true;
    }
    let mut i: usize = 0;
    while i <= n - m
        invariant
            n == hay@.len(),
            m == needle@.len(),
            0 < m <= n,
            i <= n - m + 1,
            forall|p: int| 0 <= p < i ==> #[trigger] hay@.subrange(p, p + m) != needle@,
        decreases n - m + 1 - i,
    {
        let mut j: usize = 0;
        let mut same = true;
        while j < m && same
            invariant
                n == hay@.len(),
                m == needle@.len(),
                i + m <= n,
                j <= m,
                same ==> forall|k: int| 0 <= k < j ==> hay@[i + k] == needle@[k],
                !same ==> hay@.subrange(i as int, i + m) != needle@,
            decreases m - j + if same { 1int } else { 0int },
        {
            if hay.get_char(i + j) != needle.get_char(j) {
                assert(hay@.subrange(i as int, i + m)[j as int] == hay@[i + j]);
                same = false;
            } else {
                j = j + 1;
            }
        }
        if same {
            assert(hay@.subrange(i as int, i + needle@.len()) =~= needle@);
            return true;
        }
        i = i + 1;
    }
    proof {
        if has_infix(hay@, needle@) {
            let p = choose|p: int|
                0 <= p && p + needle@.len() <= hay@.len() && #[trigger] hay@.subrange(p, p + needle@.len())
                    == needle@;
            assert(hay@.subrange(p, p + m) != needle@);
        }
    }
    false
}

/// Equality of two texts by their characters.
pub fn same_text(a: &str, b: &str) -> (r: bool)
    ensures
        r == (a@ == b@),
{
    let x = a.to_string();
    let y = b.to_string();
    proof {
        broadcast use vstd::string::group_string_axioms;
    }
    x == y
}

/// Number of occurrences of `c` in `s`.
pub open spec fn count_char(s: Seq<char>, c: char) -> nat
    decreases s.len(),
{
    if s.len() == 0 {
        0
    } else {
        count_char(s.drop_last(), c) + if s.last() == c {
            1nat
        } else {
            0nat
        }
    }
}

/// Position of the last occurrence of `c` in `s`, or -1.
pub open spec fn last_index(s: Seq<char>, c: char) -> int
    decreases s.len(),
{
    if s.len() == 0 {
        -1
    } else if s.last() == c {
        s.len() - 1
    } else {
        last_index(s.drop_last(), c)
    }
}

/// Two-digit month number of a lower-case Portuguese month name; "01" when unknown.
pub open spec fn month_code_of(name: Seq<char>) -> Seq<char> {
    if name == "janeiro"@ {
        "01"@
    } else if name == "fevereiro"@ {
        "02"@
    } else if name == "março"@ {
        "03"@
    } else if name == "abril"@ {
        "04"@
    } else if name == "maio"@ {
        "05"@
    } else if name == "junho"@ {
        "06"@
    } else if name == "julho"@ {
        "07"@
    } else if name == "agosto"@ {
        "08"@
    } else if name == "setembro"@ {
        "09"@
    } else if name == "outubro"@ {
        "10"@
    } else if name == "novembro"@ {
        "11"@
    } else if name == "dezembro"@ {
        "12"@
    } else {
        "01"@
    }
}

/// The first-of-month date ("YYYY-MM-01") of a "month/year" label that has already
/// been trimmed; "1900-01-01" when the label does not have exactly two parts.
pub open spec fn date_of_label(t: Seq<char>) -> Seq<char> {
    if count_char(t, '/') != 1 {
        "1900-01-01"@
    } else {
        let k = last_index(t, '/');
        t.subrange(k + 1, t.len() as int) + "-"@ + month_code_of(lower_of(t.subrange(0, k)))
            + "-01"@
    }
}

/// Two-digit month number of a lower-case Portuguese month name.
pub fn month_code(name: &str) -> (r: &'static str)
    ensures
        r@ == month_code_of(name@),
{
    if same_text(name, "janeiro") {
        "01"
    } else if same_text(name, "fevereiro") {
        "02"
    } else if same_text(name, "março") {
        "03"
    } else if same_text(name, "abril") {
        "04"
    } else if same_text(name, "maio") {
        "05"
    } else if same_text(name, "junho") {
        "06"
    } else if same_text(name, "julho") {
        "07"
    } else if same_text(name, "agosto") {
        "08"
    } else if same_text(name, "setembro") {
        "09"
    } else if same_text(name, "outubro") {
        "10"
    } else if same_text(name, "novembro") {
        "11"
    } else if same_text(name, "dezembro") {
        "12"
    } else {
        "01"
    }
}

/// Counts the occurrences of `c` in `t` and finds the last one.
fn scan_char(t: &str, c: char) -> (r: (usize, Option<usize>))
    ensures
        r.0 == count_char(t@, c),
        match r.1 {
            Some(k) => k == last_index(t@, c),
            None => last_index(t@, c) == -1,
        },
{
    let n = t.unicode_len();
    let mut count: usize = 0;
    let mut last: Option<usize> = None;
    let mut i: usize = 0;
    while i < n
        invariant
            n == t@.len(),
            i <= n,
            count == count_char(t@.take(i as int), c),
            match last {
                Some(k) => k == last_index(t@.take(i as int), c),
                None => last_index(t@.take(i as int), c) == -1,
            },
            count <= i,
        decreases n - i,
    {
        let ch = t.get_char(i);
        assert(t@.take(i + 1).drop_last() =~= t@.take(i as int));
        if ch == c {
            count = count + 1;
            last = Some(i);
        }
        i = i + 1;
    }
    assert(t@.take(n as int) =~= t@);
    (count, last)
}

/// Normalises a trimmed "month/year" label (such as "janeiro/2024") into its
/// first-of-month date ("2024-01-01").
pub fn date_from_label(t: &str) -> (r: String)
    ensures
        r@ == date_of_label(t@),
{
    let (count, last) = scan_char(t, '/');
    if count != 1 {
        return "1900-01-01".to_string();
    }
    let k = match last {
        Some(k) => k,
        None => {
            proof {
                lemma_no_index_no_count(t@, '/');
            }
            return "1900-01-01".to_string();
        },
    };
    proof {
        lemma_last_index_bound(t@, '/');
    }
    let n = t.unicode_len();
    let month = t.substring_char(0, k);
    let year = t.substring_char(k + 1, n);
    let lower = lowercase(month);
    date_from_parts(lower.as_str(), year)
}

/// The first-of-month date of a lower-case month name and a year:
/// ("março", "2023") gives "2023-03-01"; an unknown name gives January.
pub fn date_from_parts(lower_month: &str, year: &str) -> (r: String)
    ensures
        r@ == year@ + "-"@ + month_code_of(lower_month@) + "-01"@,
{
    let code = month_code(lower_month);
    let mut out = year.to_string();
    out.append("-");
    out.append(code);
    out.append("-01");
    out
}

proof fn lemma_no_index_no_count(s: Seq<char>, c: char)
    requires
        last_index(s, c) < 0,
    ensures
        count_char(s, c) == 0,
    decreases s.len(),
{
    if s.len() > 0 {
        lemma_no_index_no_count(s.drop_last(), c);
    }
}

proof fn lemma_last_index_bound(s: Seq<char>, c: char)
    ensures
        -1 <= last_index(s, c) < s.len(),
    decreases s.len(),
{
    if s.len() > 0 {
        lemma_last_index_bound(s.drop_last(), c);
    }
}

/// Normalises a reference-period label such as " janeiro/2024 " into the date
/// "2024-01-01"; a label without exactly one '/' gives "1900-01-01".
pub fn parse_date(mes_ano: &str) -> (r: String)
    ensures
        r@ == date_of_label(trimmed(mes_ano@)),
{
    let t = trim_text(mes_ano);
    date_from_label(t)
}

/// Year value that stands for "current year, any model year".
pub const CURRENT_YEAR_SENTINEL: &'static str = "32000";

/// Whether every character of `s` is an ASCII digit.
pub open spec fn all_digits(s: Seq<char>) -> bool {
    forall|i: int| 0 <= i < s.len() ==> '0' <= #[trigger] s[i] && s[i] <= '9'
}

/// The number written by the decimal digits `s`.
pub open spec fn digits_value(s: Seq<char>) -> int
    decreases s.len(),
{
    if s.len() == 0 {
        0
    } else {
        digits_value(s.drop_last()) * 10 + (s.last() as int - '0' as int)
    }
}

pub open spec fn pow10(n: nat) -> int
    decreases n,
{
    if n == 0 {
        1
    } else {
        10 * pow10((n - 1) as nat)
    }
}

/// A small decimal number: one to nine digits and nothing else.
pub open spec fn small_number(s: Seq<char>) -> Option<int> {
    if 0 < s.len() <= 9 && all_digits(s) {
        Some(digits_value(s))
    } else {
        None
    }
}

/// The year part of a year listing value: what precedes the last '-', or all of it.
pub open spec fn year_part(v: Seq<char>) -> Seq<char> {
    let k = last_index(v, '-');
    if k < 0 {
        v
    } else {
        v.subrange(0, k)
    }
}

/// The fuel part of a year listing value: what follows the last '-', if there is one.
pub open spec fn fuel_part(v: Seq<char>) -> Option<Seq<char>> {
    let k = last_index(v, '-');
    if k < 0 {
        None
    } else {
        Some(v.subrange(k + 1, v.len() as int))
    }
}

/// The stored date of a year listing value: January 1st of its year, the
/// sentinel year standing for `current_year`.
pub open spec fn year_date_of(v: Seq<char>, current_year: int) -> Seq<char> {
    let y = year_part(v);
    if y == CURRENT_YEAR_SENTINEL@ {
        decimal(current_year) + "-01-01"@
    } else {
        y + "-01-01"@
    }
}

/// The fuel id carried by a year listing value, if its suffix is a small number.
pub open spec fn fuel_of(v: Seq<char>) -> Option<i32> {
    match fuel_part(v) {
        Some(f) => match small_number(f) {
            Some(n) => Some(n as i32),
            None => None,
        },
        None => None,
    }
}

proof fn lemma_pow10_bound(i: nat)
    requires
        i <= 9,
    ensures
        1 <= pow10(i) <= 1_000_000_000,
    decreases 9 - i,
{
    reveal_with_fuel(pow10, 10);
    if i < 9 {
        lemma_pow10_bound(i + 1);
    }
}

/// Reads a number of one to nine decimal digits.
pub fn parse_small_number(s: &str) -> (r: Option<i32>)
    ensures
        r == (match small_number(s@) {
            Some(n) => Some(n as i32),
            None => None::<i32>,
        }),
        r is Some ==> small_number(s@) is Some && r->0 == small_number(s@)->0,
{
    let n = s.unicode_len();
    if n == 0 || n > 9 {
        return None;
    }
    let mut acc: i32 = 0;
    let mut i: usize = 0;
    while i < n
        invariant
            n == s@.len(),
            0 < n <= 9,
            i <= n,
            all_digits(s@.take(i as int)),
            acc == digits_value(s@.take(i as int)),
            0 <= acc < pow10(i as nat),
        decreases n - i,
    {
        let ch = s.get_char(i);
        assert(s@.take(i + 1).drop_last() =~= s@.take(i as int));
        if ch < '0' || ch > '9' {
            assert(!all_digits(s@)) by {
                assert(s@[i as int] == ch);
            }
            return None;
        }
        proof {
            lemma_pow10_bound(i as nat);
            lemma_pow10_bound((i + 1) as nat);
            let d = ch as int - '0' as int;
            assert(acc * 10 + d < 10 * pow10(i as nat)) by (nonlinear_arith)
                requires
                    acc < pow10(i as nat),
                    0 <= d <= 9,
            ;
        }
        acc = acc * 10 + (ch as i32 - '0' as i32);
        i = i + 1;
        assert(all_digits(s@.take(i as int))) by {
            assert forall|j: int| 0 <= j < i implies '0' <= #[trigger] s@.take(i as int)[j]
                && s@.take(i as int)[j] <= '9' by {
                if j < i - 1 {
                    assert(s@.take(i as int)[j] == s@.take(i - 1)[j]);
                }
            }
        }
    }
    assert(s@.take(n as int) =~= s@);
    Some(acc)
}

/// Splits a year listing value such as "2015-1" into its stored date
/// ("2015-01-01") and fuel id (1); the sentinel year "32000" stands for
/// `current_year`.
pub fn parse_year(value: &str, current_year: i32) -> (r: (String, Option<i32>))
    ensures
        r.0@ == year_date_of(value@, current_year as int),
        r.1 == fuel_of(value@),
{
    let (_count, last) = scan_char(value, '-');
    let n = value.unicode_len();
    let (year, fuel) = match last {
        Some(k) => {
            proof {
                lemma_last_index_bound(value@, '-');
            }
            (value.substring_char(0, k), parse_small_number(value.substring_char(k + 1, n)))
        },
        None => (value, None),
    };
    let mut date = if same_text(year, CURRENT_YEAR_SENTINEL) {
        int_text(current_year)
    } else {
        year.to_string()
    };
    date.append("-01-01");
    (date, fuel)
}

pub open spec fn is_leap(y: int) -> bool {
    (y % 4 == 0 && y % 100 != 0) || y % 400 == 0
}

pub open spec fn year_len(y: int) -> int {
    if is_leap(y) {
        366
    } else {
        365
    }
}

/// Days from 1970-01-01 to January 1st of year `y`.
pub open spec fn days_before(y: int) -> int
    decreases y - 1970,
{
    if y <= 1970 {
        0
    } else {
        days_before(y - 1) + year_len(y - 1)
    }
}

/// The calendar year of the day that lies `days` days after 1970-01-01.
pub fn year_of_days(days: u32) -> (r: i32)
    ensures
        r >= 1970,
        days_before(r as int) <= days < days_before(r as int + 1),
{
    let mut y: i32 = 1970;
    let mut rem: u32 = days;
    loop
        invariant
            y >= 1970,
            rem <= days,
            days == days_before(y as int) + rem,
            365 * (y - 1970) <= days - rem,
        decreases rem,
    {
        let leap = (y % 4 == 0 && y % 100 != 0) || y % 400 == 0;
        let len: u32 = if leap {
            366
        } else {
            365
        };
        assert(len == year_len(y as int));
        if rem < len {
            return y;
        }
        rem = rem - len;
        y = y + 1;
    }
}

} // verus!
