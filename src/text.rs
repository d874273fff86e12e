use vstd::prelude::*;

verus! {

/// Whether `ch` is one of the ASCII digits `0` to `9`.
pub open spec fn is_digit(ch: char) -> bool {
    '0' <= ch <= '9'
}

/// The value of the digit `ch`.
pub open spec fn digit_value(ch: char) -> int {
    ch as int - '0' as int
}

/// The leftmost ASCII digit of `s`, if any.
pub open spec fn first_digit(s: Seq<char>) -> Option<char>
    decreases s.len(),
{
    if s.len() == 0 {
        None
    } else if is_digit(s[0]) {
        Some(s[0])
    } else {
        first_digit(s.drop_first())
    }
}

/// The leftmost digit found is a digit.
pub proof fn lemma_first_digit_is_digit(s: Seq<char>)
    ensures
        first_digit(s) matches Some(ch) ==> is_digit(ch),
    decreases s.len(),
{
    if s.len() > 0 && !is_digit(s[0]) {
        lemma_first_digit_is_digit(s.drop_first());
    }
}

/// The run of ASCII digits at the start of `s`.
pub open spec fn digit_run(s: Seq<char>) -> Seq<char>
    decreases s.len(),
{
    if s.len() > 0 && is_digit(s[0]) {
        seq![s[0]] + digit_run(s.drop_first())
    } else {
        Seq::empty()
    }
}

/// The leftmost run of ASCII digits of `s`, as long as it goes, if any.
pub open spec fn first_number(s: Seq<char>) -> Option<Seq<char>>
    decreases s.len(),
{
    if s.len() == 0 {
        None
    } else if is_digit(s[0]) {
        Some(digit_run(s))
    } else {
        first_number(s.drop_first())
    }
}

/// Relies on regex's `Regex::new`, which accepts this fixed pattern, and on
/// `Regex::find`, which returns the leftmost-first match: for the greedy
/// pattern `[0-9]+`, the whole run of ASCII digits that starts at the
/// leftmost digit.
#[verifier::external_body]
pub(crate) fn first_number_of(s: &str) -> (r: Option<String>)
    ensures
        r matches Some(m) ==> first_number(s@) == Some(m@),
        r is None ==> first_number(s@) is None,
{
    let re = regex::Regex::new("[0-9]+").unwrap();
    re.find(s).map(|m| m.as_str().to_string())
}

/// The leftmost digit of `s` is the first character of its leftmost run of digits.
pub proof fn lemma_first_digit_starts_number(s: Seq<char>)
    ensures
        first_number(s) is None <==> first_digit(s) is None,
        first_number(s) matches Some(d) ==> d.len() > 0 && first_digit(s) == Some(d[0]),
    decreases s.len(),
{
    if s.len() > 0 && !is_digit(s[0]) {
        lemma_first_digit_starts_number(s.drop_first());
    }
}

/// The value of the decimal digits `d`.
pub open spec fn digits_value(d: Seq<char>) -> int
    decreases d.len(),
{
    if d.len() == 0 {
        0
    } else {
        digits_value(d.drop_last()) * 10 + digit_value(d.last())
    }
}

/// Every character of a run of digits is a digit.
pub proof fn lemma_first_number_digits(s: Seq<char>)
    ensures
        first_number(s) matches Some(d) ==> d.len() > 0 && forall|i: int|
            0 <= i < d.len() ==> is_digit(#[trigger] d[i]),
    decreases s.len(),
{
    if s.len() > 0 {
        if is_digit(s[0]) {
            lemma_digit_run(s);
        } else {
            lemma_first_number_digits(s.drop_first());
        }
    }
}

/// A run of digits holds digits only.
proof fn lemma_digit_run(s: Seq<char>)
    ensures
        forall|i: int| 0 <= i < digit_run(s).len() ==> is_digit(#[trigger] digit_run(s)[i]),
        s.len() > 0 && is_digit(s[0]) ==> digit_run(s).len() > 0,
    decreases s.len(),
{
    if s.len() > 0 && is_digit(s[0]) {
        lemma_digit_run(s.drop_first());
        let r = digit_run(s);
        assert forall|i: int| 0 <= i < r.len() implies is_digit(#[trigger] r[i]) by {
            if i > 0 {
                assert(r[i] == digit_run(s.drop_first())[i - 1]);
            }
        }
    }
}

/// The value of `d`, a nonempty run of digits, if it is at most `cap`.
pub fn small_value(d: &str, cap: u64) -> (r: Option<u64>)
    requires
        d@.len() > 0,
        forall|i: int| 0 <= i < d@.len() ==> is_digit(#[trigger] d@[i]),
        cap < 0x1000_0000_0000_0000,
    ensures
        r matches Some(v) ==> v == digits_value(d@) && v <= cap,
        r is None ==> digits_value(d@) > cap,
{
    let n = d.unicode_len();
    let mut v: u64 = 0;
    let mut i: usize = 0;
    while i < n
        invariant
            n == d@.len(),
            i <= n,
            cap < 0x1000_0000_0000_0000,
            forall|k: int| 0 <= k < d@.len() ==> is_digit(#[trigger] d@[k]),
            v == digits_value(d@.subrange(0, i as int)),
            v <= cap,
        decreases n - i,
    {
        let c = d.get_char(i);
        assert(d@.subrange(0, i + 1).drop_last() =~= d@.subrange(0, i as int));
        v = v * 10 + (c as u64 - '0' as u64);
        i = i + 1;
        if v > cap {
            proof {
                lemma_digits_value_grows(d@, i as int);
            }
            return None;
        }
    }
    assert(d@.subrange(0, n as int) =~= d@);
    Some(v)
}

/// Adding digits never makes the value smaller.
proof fn lemma_digits_value_grows(d: Seq<char>, i: int)
    requires
        0 <= i <= d.len(),
        forall|k: int| 0 <= k < d.len() ==> is_digit(#[trigger] d[k]),
    ensures
        digits_value(d) >= digits_value(d.subrange(0, i)),
    decreases d.len() - i,
{
    if i < d.len() {
        lemma_digits_value_grows(d, i + 1);
        let p = d.subrange(0, i + 1);
        assert(p.drop_last() =~= d.subrange(0, i));
        assert(is_digit(p.last()));
        assert(digits_value(d.subrange(0, i)) >= 0) by {
            lemma_digits_value_nonneg(d.subrange(0, i));
        }
    } else {
        assert(d.subrange(0, i) =~= d);
    }
}

/// A run of digits has a value of zero or more.
proof fn lemma_digits_value_nonneg(d: Seq<char>)
    requires
        forall|k: int| 0 <= k < d.len() ==> is_digit(#[trigger] d[k]),
    ensures
        digits_value(d) >= 0,
    decreases d.len(),
{
    if d.len() > 0 {
        lemma_digits_value_nonneg(d.drop_last());
        assert(is_digit(d[d.len() - 1]));
    }
}

/// What `str::to_lowercase` makes of `s`.
pub uninterp spec fn lower_of(s: Seq<char>) -> Seq<char>;

/// Relies on std's `str::to_lowercase`: its result depends on the characters
/// of `s` alone.
#[verifier::external_body]
pub(crate) fn lowercase(s: &str) -> (r: String)
    ensures
        r@ == lower_of(s@),
{
    s.to_lowercase()
}

/// Whether `p` occurs in `s` as a contiguous run.
pub open spec fn has_infix(s: Seq<char>, p: Seq<char>) -> bool {
    exists|i: int| 0 <= i && i + p.len() <= s.len() && #[trigger] s.subrange(i, i + p.len()) == p
}

/// Whether `p` occurs in `s`.
pub fn contains(s: &str, p: &str) -> (r: bool)
    ensures
        r == has_infix(s@, p@),
{
    let n = s.unicode_len();
    let m = p.unicode_len();
    if m > n {
        assert forall|i: int| 0 <= i && i + p@.len() <= s@.len() implies #[trigger] s@.subrange(
            i,
            i + p@.len(),
        ) != p@ by {}
        return false;
    }
    let mut i: usize = 0;
    while i <= n - m
        invariant
            n == s@.len(),
            m == p@.len(),
            m <= n,
            i <= n - m + 1,
            forall|k: int| 0 <= k < i ==> #[trigger] s@.subrange(k, k + m) != p@,
        decreases n - m + 1 - i,
    {
        let mut j: usize = 0;
        let mut same = true;
        while j < m
            invariant
                n == s@.len(),
                m == p@.len(),
                i + m <= n,
                j <= m,
                same == (forall|l: int| 0 <= l < j ==> s@[i + l] == p@[l]),
            decreases m - j,
        {
            if s.get_char(i + j) != p.get_char(j) {
                same = false;
            }
            j = j + 1;
        }
        if same {
            assert(s@.subrange(i as int, i + m) =~= p@);
            return true;
        }
        assert(s@.subrange(i as int, i + m) != p@) by {
            let l = choose|l: int| 0 <= l < m && s@[i + l] != p@[l];
            assert(s@.subrange(i as int, i + m)[l] != p@[l]);
        }
        i = i + 1;
    }
    false
}

/// The decimal text of the digit `d`.
pub open spec fn digit_text(d: nat) -> Seq<char> {
    if d == 0 { "0"@ }
    else if d == 1 { "1"@ }
    else if d == 2 { "2"@ }
    else if d == 3 { "3"@ }
    else if d == 4 { "4"@ }
    else if d == 5 { "5"@ }
    else if d == 6 { "6"@ }
    else if d == 7 { "7"@ }
    else if d == 8 { "8"@ }
    else { "9"@ }
}

/// The decimal text of `n`, without leading zeros.
pub open spec fn decimal(n: nat) -> Seq<char>
    decreases n,
{
    if n < 10 {
        digit_text(n)
    } else {
        decimal(n / 10) + digit_text(n % 10)
    }
}

/// The decimal text of `n`.
pub fn decimal_text(n: u64) -> (r: String)
    ensures
        r@ == decimal(n as nat),
    decreases n,
{
    let d = n % 10;
    let last = if d == 0 { "0" }
        else if d == 1 { "1" }
        else if d == 2 { "2" }
        else if d == 3 { "3" }
        else if d == 4 { "4" }
        else if d == 5 { "5" }
        else if d == 6 { "6" }
        else if d == 7 { "7" }
        else if d == 8 { "8" }
        else { "9" };
    assert(last@ == digit_text(d as nat));
    if n < 10 {
        String::from_str(last)
    } else {
        let mut r = decimal_text(n / 10);
        r.append(last);
        r
    }
}

} // verus!
