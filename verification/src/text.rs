//! Character-level text handling shared by every parser in the crate.
//!
//! Everything here works on sequences of characters, which is what a `str`
//! is to a reader, so each spec says what a routine yields in those terms.
use vstd::prelude::*;

verus! {

/// `String::push` appends one character.
pub assume_specification[ String::push ](s: &mut String, ch: char)
    ensures
        final(s)@ == old(s)@.push(ch),
;

/// Whether a character is white space, as Unicode's `White_Space` property
/// (and so `char::is_whitespace`) has it.
pub open spec fn is_space(c: char) -> bool {
    let n = c as u32;
    ||| 0x09 <= n <= 0x0D
    ||| n == 0x20
    ||| n == 0x85
    ||| n == 0xA0
    ||| n == 0x1680
    ||| 0x2000 <= n <= 0x200A
    ||| n == 0x2028
    ||| n == 0x2029
    ||| n == 0x202F
    ||| n == 0x205F
    ||| n == 0x3000
}

/// Whether a character is one of the ASCII digits.
pub open spec fn is_digit(c: char) -> bool {
    '0' <= c <= '9'
}

/// The value of one ASCII digit.
pub open spec fn digit_value(c: char) -> int {
    (c as u32) - ('0' as u32)
}

/// The character spelling one decimal digit.
pub open spec fn digit_char(d: int) -> char {
    (d + ('0' as u32)) as char
}

/// `s` without the white space at its start.
pub open spec fn trim_start(s: Seq<char>) -> Seq<char>
    decreases s.len(),
{
    if s.len() > 0 && is_space(s[0]) {
        trim_start(s.drop_first())
    } else {
        s
    }
}

/// `s` without the white space at its end.
pub open spec fn trim_end(s: Seq<char>) -> Seq<char>
    decreases s.len(),
{
    if s.len() > 0 && is_space(s.last()) {
        trim_end(s.drop_last())
    } else {
        s
    }
}

/// `s` without white space at either end, as `str::trim` gives it.
pub open spec fn trim(s: Seq<char>) -> Seq<char> {
    trim_end(trim_start(s))
}

/// The decimal spelling of a natural number, without leading zeros.
pub open spec fn decimal(n: nat) -> Seq<char>
    decreases n,
{
    if n < 10 {
        seq![digit_char(n as int)]
    } else {
        decimal(n / 10).push(digit_char((n % 10) as int))
    }
}

/// The decimal spelling of an integer, with a minus sign when negative.
pub open spec fn signed_decimal(n: int) -> Seq<char> {
    if n < 0 {
        seq!['-'] + decimal((-n) as nat)
    } else {
        decimal(n as nat)
    }
}

/// Whether every character of `s` is a digit.
pub open spec fn all_digits(s: Seq<char>) -> bool {
    forall|i: int| 0 <= i < s.len() ==> is_digit(#[trigger] s[i])
}

/// The number a run of digits spells.
pub open spec fn digits_value(s: Seq<char>) -> int
    decreases s.len(),
{
    if s.len() == 0 {
        0
    } else {
        digits_value(s.drop_last()) * 10 + digit_value(s.last())
    }
}

/// What `str::parse` makes of an unsigned number: an optional `+`, then one
/// or more digits.
pub open spec fn parse_natural(s: Seq<char>) -> Option<int> {
    let body = if s.len() > 0 && s[0] == '+' {
        s.drop_first()
    } else {
        s
    };
    if body.len() > 0 && all_digits(body) {
        Some(digits_value(body))
    } else {
        None
    }
}

/// What `str::parse` makes of a signed number: an optional sign, then one or
/// more digits.
pub open spec fn parse_integer(s: Seq<char>) -> Option<int> {
    if s.len() > 0 && s[0] == '-' {
        let body = s.drop_first();
        if body.len() > 0 && all_digits(body) {
            Some(-digits_value(body))
        } else {
            None
        }
    } else {
        parse_natural(s)
    }
}

/// `str::parse::<u16>`.
pub open spec fn parse_u16(s: Seq<char>) -> Option<u16> {
    match parse_natural(s) {
        Some(v) if v <= u16::MAX => Some(v as u16),
        _ => None,
    }
}

/// `str::parse::<u32>`.
pub open spec fn parse_u32(s: Seq<char>) -> Option<u32> {
    match parse_natural(s) {
        Some(v) if v <= u32::MAX => Some(v as u32),
        _ => None,
    }
}

/// `str::parse::<u64>`.
pub open spec fn parse_u64(s: Seq<char>) -> Option<u64> {
    match parse_natural(s) {
        Some(v) if v <= u64::MAX => Some(v as u64),
        _ => None,
    }
}

/// `str::parse::<usize>`.
pub open spec fn parse_usize(s: Seq<char>) -> Option<usize> {
    match parse_natural(s) {
        Some(v) if v <= usize::MAX => Some(v as usize),
        _ => None,
    }
}

/// `str::parse::<i32>`.
pub open spec fn parse_i32(s: Seq<char>) -> Option<i32> {
    match parse_integer(s) {
        Some(v) if i32::MIN <= v <= i32::MAX => Some(v as i32),
        _ => None,
    }
}

/// Whether `pat` occurs in `s` starting at `at`.
pub open spec fn occurs_at(s: Seq<char>, pat: Seq<char>, at: int) -> bool {
    0 <= at && at + pat.len() <= s.len() && s.subrange(at, at + pat.len()) == pat
}

/// Whether `pat` occurs anywhere in `s`.
pub open spec fn contains(s: Seq<char>, pat: Seq<char>) -> bool {
    exists|at: int| occurs_at(s, pat, at)
}

/// Whether `s` begins with `pat`.
pub open spec fn starts_with(s: Seq<char>, pat: Seq<char>) -> bool {
    pat.len() <= s.len() && s.subrange(0, pat.len() as int) == pat
}

/// Where `pat` first occurs in `s`, if it does.
pub open spec fn first_occurrence(s: Seq<char>, pat: Seq<char>) -> Option<int> {
    if contains(s, pat) {
        Some(choose|at: int| occurs_at(s, pat, at) && forall|e: int| 0 <= e < at ==> !occurs_at(s, pat, e))
    } else {
        None
    }
}

/// Whether a character is white space.
pub fn char_is_space(c: char) -> (r: bool)
    ensures
        r == is_space(c),
{
    let n = c as u32;
    (0x09 <= n && n <= 0x0D) || n == 0x20 || n == 0x85 || n == 0xA0 || n == 0x1680 || (0x2000
        <= n && n <= 0x200A) || n == 0x2028 || n == 0x2029 || n == 0x202F || n == 0x205F || n
        == 0x3000
}

/// Whether a character is an ASCII digit.
pub fn char_is_digit(c: char) -> (r: bool)
    ensures
        r == is_digit(c),
{
    '0' <= c && c <= '9'
}

/// The characters of `s`, in order.
pub fn chars_of(s: &str) -> (v: Vec<char>)
    ensures
        v@ == s@,
{
    let mut v: Vec<char> = Vec::new();
    for c in it: s.chars()
        invariant
            v@ == it.seq().take(it.index() as int),
    {
        v.push(c);
    }
    v
}

/// A string holding exactly these characters.
pub fn string_of(chars: &[char]) -> (s: String)
    ensures
        s@ == chars@,
{
    let mut s = String::new();
    let mut i: usize = 0;
    while i < chars.len()
        invariant
            i <= chars@.len(),
            s@ == chars@.take(i as int),
        decreases chars@.len() - i,
    {
        s.push(chars[i]);
        i = i + 1;
        assert(chars@.take(i as int) =~= chars@.take((i - 1) as int).push(chars@[i - 1]));
    }
    assert(chars@.take(i as int) =~= chars@);
    s
}

/// A string holding the characters of `chars` from `lo` up to `hi`.
pub fn string_between(chars: &[char], lo: usize, hi: usize) -> (s: String)
    requires
        lo <= hi <= chars@.len(),
    ensures
        s@ == chars@.subrange(lo as int, hi as int),
{
    let mut s = String::new();
    let mut i: usize = lo;
    while i < hi
        invariant
            lo <= i <= hi <= chars@.len(),
            s@ == chars@.subrange(lo as int, i as int),
        decreases hi - i,
    {
        s.push(chars[i]);
        i = i + 1;
        assert(chars@.subrange(lo as int, i as int) =~= chars@.subrange(lo as int, (i - 1) as int).push(
            chars@[i - 1],
        ));
    }
    s
}

/// Append the characters of `more` to `s`.
pub fn push_all(s: &mut String, more: &[char])
    ensures
        final(s)@ == old(s)@ + more@,
{
    let mut i: usize = 0;
    while i < more.len()
        invariant
            i <= more@.len(),
            s@ == old(s)@ + more@.take(i as int),
        decreases more@.len() - i,
    {
        s.push(more[i]);
        i = i + 1;
        assert(more@.take(i as int) =~= more@.take((i - 1) as int).push(more@[i - 1]));
    }
    assert(more@.take(i as int) =~= more@);
}

/// Append a string to `s`.
pub fn push_str(s: &mut String, more: &str)
    ensures
        final(s)@ == old(s)@ + more@,
{
    let chars = chars_of(more);
    push_all(s, chars.as_slice());
}

proof fn lemma_trim_start_step(s: Seq<char>, i: int)
    requires
        0 <= i < s.len(),
        is_space(s[i]),
    ensures
        trim_start(s.subrange(i, s.len() as int)) == trim_start(s.subrange(i + 1, s.len() as int)),
{
    assert(s.subrange(i, s.len() as int).drop_first() =~= s.subrange(i + 1, s.len() as int));
}

proof fn lemma_trim_end_step(s: Seq<char>, lo: int, hi: int)
    requires
        0 <= lo < hi <= s.len(),
        is_space(s[hi - 1]),
    ensures
        trim_end(s.subrange(lo, hi)) == trim_end(s.subrange(lo, hi - 1)),
{
    assert(s.subrange(lo, hi).drop_last() =~= s.subrange(lo, hi - 1));
}

/// Where the text of `s` starts and ends once white space is trimmed from
/// both ends.
pub fn trimmed_range(s: &[char]) -> (r: (usize, usize))
    ensures
        r.0 <= r.1 <= s@.len(),
        s@.subrange(r.0 as int, r.1 as int) == trim(s@),
{
    let n = s.len();
    let mut lo: usize = 0;
    assert(s@.subrange(0, n as int) =~= s@);
    while lo < n && char_is_space(s[lo])
        invariant
            lo <= n == s@.len(),
            trim_start(s@) == trim_start(s@.subrange(lo as int, n as int)),
        decreases n - lo,
    {
        proof {
            lemma_trim_start_step(s@, lo as int);
        }
        lo = lo + 1;
    }
    let ghost started = s@.subrange(lo as int, n as int);
    assert(trim_start(started) == started);
    let mut hi: usize = n;
    while hi > lo && char_is_space(s[hi - 1])
        invariant
            lo <= hi <= n == s@.len(),
            started == s@.subrange(lo as int, n as int),
            trim_end(started) == trim_end(s@.subrange(lo as int, hi as int)),
        decreases hi,
    {
        proof {
            lemma_trim_end_step(s@, lo as int, hi as int);
        }
        hi = hi - 1;
    }
    (lo, hi)
}

/// `s` without white space at either end.
pub fn trim_chars(s: &[char]) -> (r: Vec<char>)
    ensures
        r@ == trim(s@),
{
    let (lo, hi) = trimmed_range(s);
    let mut r: Vec<char> = Vec::new();
    let mut i = lo;
    while i < hi
        invariant
            lo <= i <= hi <= s@.len(),
            r@ == s@.subrange(lo as int, i as int),
        decreases hi - i,
    {
        r.push(s[i]);
        i = i + 1;
        assert(s@.subrange(lo as int, i as int) =~= s@.subrange(lo as int, (i - 1) as int).push(
            s@[i - 1],
        ));
    }
    r
}

/// Append the decimal spelling of `n` to `out`.
pub fn push_decimal(out: &mut String, n: u64)
    ensures
        final(out)@ == old(out)@ + decimal(n as nat),
    decreases n,
{
    if n < 10 {
        out.push(digit(n));
        assert(decimal(n as nat) =~= seq![digit_char(n as int)]);
    } else {
        push_decimal(out, n / 10);
        out.push(digit(n % 10));
        assert(decimal(n as nat) =~= decimal((n / 10) as nat).push(digit_char((n % 10) as int)));
    }
}

/// The character for one digit.
fn digit(d: u64) -> (c: char)
    requires
        d < 10,
    ensures
        c == digit_char(d as int),
{
    let c = if d == 0 {
        '0'
    } else if d == 1 {
        '1'
    } else if d == 2 {
        '2'
    } else if d == 3 {
        '3'
    } else if d == 4 {
        '4'
    } else if d == 5 {
        '5'
    } else if d == 6 {
        '6'
    } else if d == 7 {
        '7'
    } else if d == 8 {
        '8'
    } else {
        '9'
    };
    c
}

/// Append the decimal spelling of a signed number, with a minus sign when it
/// is negative.
pub fn push_signed(out: &mut String, n: i64)
    ensures
        final(out)@ == old(out)@ + signed_decimal(n as int),
{
    if n < 0 {
        out.push('-');
        let magnitude: u64 = if n == i64::MIN {
            9223372036854775808u64
        } else {
            (-n) as u64
        };
        push_decimal(out, magnitude);
        assert(old(out)@ + signed_decimal(n as int) =~= old(out)@.push('-') + decimal(magnitude as nat));
    } else {
        push_decimal(out, n as u64);
    }
}

/// The decimal spelling of `n`.
pub fn decimal_text(n: u64) -> (s: String)
    ensures
        s@ == decimal(n as nat),
{
    let mut s = String::new();
    push_decimal(&mut s, n);
    assert(s@ =~= decimal(n as nat));
    s
}

/// The decimal spelling of a signed `n`.
pub fn signed_text(n: i64) -> (s: String)
    ensures
        s@ == signed_decimal(n as int),
{
    let mut s = String::new();
    push_signed(&mut s, n);
    assert(s@ =~= signed_decimal(n as int));
    s
}

pub proof fn lemma_digits_value_nonneg(s: Seq<char>)
    requires
        all_digits(s),
    ensures
        digits_value(s) >= 0,
    decreases s.len(),
{
    if s.len() > 0 {
        assert(is_digit(s[s.len() - 1]));
        assert(all_digits(s.drop_last())) by {
            assert forall|i: int| 0 <= i < s.drop_last().len() implies is_digit(
                #[trigger] s.drop_last()[i],
            ) by {
                assert(s.drop_last()[i] == s[i]);
            }
        }
        lemma_digits_value_nonneg(s.drop_last());
    }
}

/// The value of the digits in `s[lo..hi]`, when they are all digits and
/// spell a number no greater than `limit`.
fn digits_upto(s: &[char], lo: usize, hi: usize, limit: u64) -> (r: Option<u64>)
    requires
        lo <= hi <= s@.len(),
    ensures
        ({
            let body = s@.subrange(lo as int, hi as int);
            r == if all_digits(body) && digits_value(body) <= limit {
                Some(digits_value(body) as u64)
            } else {
                None::<u64>
            }
        }),
{
    let mut acc: u64 = 0;
    let mut big = false;
    let mut i = lo;
    while i < hi
        invariant
            lo <= i <= hi <= s@.len(),
            all_digits(s@.subrange(lo as int, i as int)),
            !big ==> acc == digits_value(s@.subrange(lo as int, i as int)) && acc <= limit,
            big ==> digits_value(s@.subrange(lo as int, i as int)) > limit,
        decreases hi - i,
    {
        let c = s[i];
        if !char_is_digit(c) {
            proof {
                let body = s@.subrange(lo as int, hi as int);
                assert(body[i - lo] == c);
            }
            return None;
        }
        let ghost before = s@.subrange(lo as int, i as int);
        let ghost after = s@.subrange(lo as int, (i + 1) as int);
        proof {
            assert(after.drop_last() =~= before);
            assert(after.last() == c);
            assert(all_digits(after)) by {
                assert forall|k: int| 0 <= k < after.len() implies is_digit(#[trigger] after[k]) by {
                    if k < before.len() {
                        assert(after[k] == before[k]);
                    }
                }
            }
            lemma_digits_value_nonneg(before);
        }
        let d = (c as u32 - '0' as u32) as u64;
        if !big {
            let next: u128 = (acc as u128) * 10 + (d as u128);
            if next > limit as u128 {
                big = true;
            } else {
                acc = next as u64;
            }
        }
        i = i + 1;
    }
    if big {
        None
    } else {
        Some(acc)
    }
}

/// `parse_natural` of `s[lo..hi]`, kept only when it is at most `limit`.
pub fn natural_between(s: &[char], lo: usize, hi: usize, limit: u64) -> (r: Option<u64>)
    requires
        lo <= hi <= s@.len(),
    ensures
        r == match parse_natural(s@.subrange(lo as int, hi as int)) {
            Some(v) if v <= limit => Some(v as u64),
            _ => None::<u64>,
        },
{
    let ghost whole = s@.subrange(lo as int, hi as int);
    let start = if lo < hi && s[lo] == '+' {
        lo + 1
    } else {
        lo
    };
    proof {
        if lo < hi && s@[lo as int] == '+' {
            assert(whole.drop_first() =~= s@.subrange(start as int, hi as int));
        } else {
            assert(whole =~= s@.subrange(start as int, hi as int));
        }
    }
    if start == hi {
        return None;
    }
    let r = digits_upto(s, start, hi, limit);
    proof {
        let body = s@.subrange(start as int, hi as int);
        if all_digits(body) {
            lemma_digits_value_nonneg(body);
        }
    }
    r
}

/// `parse_natural` of all of `s`, kept only when it is at most `limit`.
pub fn natural_of(s: &[char], limit: u64) -> (r: Option<u64>)
    ensures
        r == match parse_natural(s@) {
            Some(v) if v <= limit => Some(v as u64),
            _ => None::<u64>,
        },
{
    assert(s@.subrange(0, s@.len() as int) =~= s@);
    natural_between(s, 0, s.len(), limit)
}

/// A natural number reads back from its decimal spelling.
pub proof fn lemma_decimal_reads_back(n: nat)
    ensures
        decimal(n).len() > 0,
        all_digits(decimal(n)),
        digits_value(decimal(n)) == n,
        parse_natural(decimal(n)) == Some(n as int),
    decreases n,
{
    if n >= 10 {
        lemma_decimal_reads_back(n / 10);
        let s = decimal(n / 10);
        let t = s.push(digit_char((n % 10) as int));
        assert(t.drop_last() =~= s);
        assert(all_digits(t)) by {
            assert forall|i: int| 0 <= i < t.len() implies is_digit(#[trigger] t[i]) by {
                if i < s.len() {
                    assert(t[i] == s[i]);
                }
            }
        }
        assert(digit_value(digit_char((n % 10) as int)) == n % 10);
        assert(digits_value(t) == digits_value(s) * 10 + digit_value(t.last()));
        assert((n / 10) * 10 + n % 10 == n);
    } else {
        let t = seq![digit_char(n as int)];
        assert(t.drop_last() =~= Seq::<char>::empty());
        assert(digit_value(digit_char(n as int)) == n);
        assert(digits_value(t) == digits_value(t.drop_last()) * 10 + digit_value(t.last()));
    }
    assert(decimal(n)[0] != '+') by {
        assert(is_digit(decimal(n)[0]));
    }
}

pub proof fn lemma_parse_natural_nonneg(s: Seq<char>)
    ensures
        parse_natural(s) matches Some(v) ==> v >= 0,
{
    let body = if s.len() > 0 && s[0] == '+' {
        s.drop_first()
    } else {
        s
    };
    if body.len() > 0 && all_digits(body) {
        lemma_digits_value_nonneg(body);
    }
}

/// `str::parse::<i32>` of `s[lo..hi]`.
pub fn i32_between(s: &[char], lo: usize, hi: usize) -> (r: Option<i32>)
    requires
        lo <= hi <= s@.len(),
    ensures
        r == parse_i32(s@.subrange(lo as int, hi as int)),
{
    let ghost whole = s@.subrange(lo as int, hi as int);
    if lo < hi && s[lo] == '-' {
        proof {
            assert(whole.drop_first() =~= s@.subrange(lo + 1, hi as int));
        }
        if lo + 1 == hi {
            return None;
        }
        let magnitude = digits_upto(s, lo + 1, hi, 2147483648u64);
        proof {
            let body = s@.subrange(lo + 1, hi as int);
            if all_digits(body) {
                lemma_digits_value_nonneg(body);
            }
        }
        match magnitude {
            Some(m) => {
                let v: i64 = -(m as i64);
                Some(v as i32)
            },
            None => None,
        }
    } else {
        let r = natural_between(s, lo, hi, 2147483647u64);
        proof {
            lemma_parse_natural_nonneg(whole);
        }
        match r {
            Some(v) => Some(v as i32),
            None => None,
        }
    }
}

/// What `str::to_lowercase` makes of `s`: Unicode's full lowercase mapping,
/// a function of the characters alone.
pub uninterp spec fn lowercase(s: Seq<char>) -> Seq<char>;

/// `s` in lower case.
///
/// Wraps `str::to_lowercase`; the result is named by [`lowercase`] and
/// nothing more is claimed of it.
#[verifier::external_body]
pub(crate) fn to_lowercase(s: &str) -> (r: String)
    ensures
        r@ == lowercase(s@),
{
    s.to_lowercase()
}

/// Whether two strings hold the same characters.
pub fn same_text(a: &str, b: &str) -> (r: bool)
    ensures
        r == (a@ == b@),
{
    let x = chars_of(a);
    let y = chars_of(b);
    same_chars(x.as_slice(), y.as_slice())
}

/// Whether two runs of characters are equal.
pub fn same_chars(x: &[char], y: &[char]) -> (r: bool)
    ensures
        r == (x@ == y@),
{
    if x.len() != y.len() {
        return false;
    }
    let mut i: usize = 0;
    while i < x.len()
        invariant
            i <= x@.len() == y@.len(),
            forall|k: int| 0 <= k < i ==> x@[k] == y@[k],
        decreases x@.len() - i,
    {
        if x[i] != y[i] {
            return false;
        }
        i = i + 1;
    }
    assert(x@ =~= y@);
    true
}

/// The first place at or after `from` where `pat` occurs in `s`.
pub open spec fn first_from(s: Seq<char>, pat: Seq<char>, from: int) -> Option<int> {
    if exists|at: int| from <= at && occurs_at(s, pat, at) {
        Some(choose|at: int| from <= at && occurs_at(s, pat, at) && forall|e: int| from <= e < at ==> !occurs_at(s, pat, e))
    } else {
        None
    }
}

/// The last place where `pat` occurs in `s`.
pub open spec fn last_occurrence(s: Seq<char>, pat: Seq<char>) -> Option<int> {
    if exists|at: int| occurs_at(s, pat, at) {
        Some(choose|at: int| occurs_at(s, pat, at) && forall|e: int| at < e ==> !occurs_at(s, pat, e))
    } else {
        None
    }
}

/// The pieces of `s` between each `sep`, as `str::split` gives them: one more
/// piece than there are separators, empty pieces included.
pub open spec fn split_on(s: Seq<char>, sep: char) -> Seq<Seq<char>>
    decreases s.len(),
{
    if s.len() == 0 {
        seq![Seq::empty()]
    } else if s.last() == sep {
        split_on(s.drop_last(), sep).push(Seq::empty())
    } else {
        let p = split_on(s.drop_last(), sep);
        p.update(p.len() - 1, p.last().push(s.last()))
    }
}

/// `x` without one `\r` at its end.
pub open spec fn strip_cr(x: Seq<char>) -> Seq<char> {
    if x.len() > 0 && x.last() == '\r' {
        x.drop_last()
    } else {
        x
    }
}

/// The lines of `s`, as `str::lines` gives them: split at each `\n`, a `\r`
/// before it dropped, and no empty line after a final `\n`.
pub open spec fn lines_of(s: Seq<char>) -> Seq<Seq<char>> {
    let p = split_on(s, '\n');
    let kept = if p.last().len() == 0 {
        p.drop_last()
    } else {
        p
    };
    Seq::new(kept.len(), |i: int| if i < p.len() - 1 { strip_cr(kept[i]) } else { kept[i] })
}

/// The pieces of `s` between runs of white space.
pub open spec fn split_spaces(s: Seq<char>) -> Seq<Seq<char>>
    decreases s.len(),
{
    if s.len() == 0 {
        seq![Seq::empty()]
    } else if is_space(s.last()) {
        split_spaces(s.drop_last()).push(Seq::empty())
    } else {
        let p = split_spaces(s.drop_last());
        p.update(p.len() - 1, p.last().push(s.last()))
    }
}

/// The pieces that are not empty, in order.
pub open spec fn nonempty(p: Seq<Seq<char>>) -> Seq<Seq<char>>
    decreases p.len(),
{
    if p.len() == 0 {
        Seq::empty()
    } else if p.last().len() == 0 {
        nonempty(p.drop_last())
    } else {
        nonempty(p.drop_last()).push(p.last())
    }
}

/// The words of `s`, as `str::split_whitespace` gives them.
pub open spec fn words_of(s: Seq<char>) -> Seq<Seq<char>> {
    nonempty(split_spaces(s))
}

/// The characters of each run in a list.
pub open spec fn runs(v: Seq<Vec<char>>) -> Seq<Seq<char>> {
    v.map_values(|x: Vec<char>| x@)
}

/// Whether `pat` occurs in `s` at `at`.
pub fn matches_at(s: &[char], pat: &[char], at: usize) -> (r: bool)
    ensures
        r == occurs_at(s@, pat@, at as int),
{
    let n = s.len();
    if at > n || pat.len() > n - at {
        return false;
    }
    let mut i: usize = 0;
    while i < pat.len()
        invariant
            i <= pat@.len(),
            n == s@.len(),
            at + pat@.len() <= n,
            forall|k: int| 0 <= k < i ==> s@[at + k] == pat@[k],
        decreases pat@.len() - i,
    {
        if s[at + i] != pat[i] {
            assert(s@.subrange(at as int, at + pat@.len())[i as int] != pat@[i as int]);
            return false;
        }
        i = i + 1;
    }
    assert(s@.subrange(at as int, at + pat@.len()) =~= pat@);
    true
}

/// The first place at or after `from` where `pat` occurs in `s`.
pub fn find_from(s: &[char], pat: &[char], from: usize) -> (r: Option<usize>)
    ensures
        r is None <==> first_from(s@, pat@, from as int) is None,
        r matches Some(at) ==> first_from(s@, pat@, from as int) == Some(at as int),
        r matches Some(at) ==> from <= at && occurs_at(s@, pat@, at as int) && forall|e: int|
            from <= e < at ==> !occurs_at(s@, pat@, e),
        r is None ==> forall|e: int| from <= e ==> !occurs_at(s@, pat@, e),
{
    let n = s.len();
    if from > n {
        proof {
            assert forall|e: int| from <= e implies !occurs_at(s@, pat@, e) by {}
        }
        return None;
    }
    let mut at = from;
    loop
        invariant
            from <= at <= n,
            n == s@.len(),
            forall|e: int| from <= e < at ==> !occurs_at(s@, pat@, e),
        decreases n - at,
    {
        if matches_at(s, pat, at) {
            proof {
                let c = choose|c: int| from <= c && occurs_at(s@, pat@, c) && forall|e: int| from <= e < c ==> !occurs_at(s@, pat@, e);
                assert(c == at) by {
                    if c < at {
                        assert(!occurs_at(s@, pat@, c));
                    }
                    if c > at {
                        assert(!occurs_at(s@, pat@, at as int));
                    }
                }
            }
            return Some(at);
        }
        if at == n {
            proof {
                assert forall|e: int| from <= e implies !occurs_at(s@, pat@, e) by {
                    if e > at {
                        assert(e + pat@.len() > s@.len());
                    }
                }
            }
            return None;
        }
        at = at + 1;
    }
}

/// The last place where `pat` occurs in `s`.
pub fn rfind(s: &[char], pat: &[char]) -> (r: Option<usize>)
    ensures
        r is None <==> last_occurrence(s@, pat@) is None,
        r matches Some(at) ==> last_occurrence(s@, pat@) == Some(at as int),
        r matches Some(at) ==> occurs_at(s@, pat@, at as int) && forall|e: int|
            at < e ==> !occurs_at(s@, pat@, e),
        r is None ==> forall|e: int| !occurs_at(s@, pat@, e),
{
    if pat.len() > s.len() {
        proof {
            assert forall|e: int| !occurs_at(s@, pat@, e) by {}
        }
        return None;
    }
    let mut at: usize = s.len() - pat.len();
    loop
        invariant
            at <= s@.len() - pat@.len(),
            forall|e: int| at < e ==> !occurs_at(s@, pat@, e),
        decreases at,
    {
        if matches_at(s, pat, at) {
            proof {
                let c = choose|c: int| occurs_at(s@, pat@, c) && forall|e: int| c < e ==> !occurs_at(s@, pat@, e);
                assert(c == at) by {
                    if c < at {
                        assert(!occurs_at(s@, pat@, at as int));
                    }
                    if c > at {
                        assert(!occurs_at(s@, pat@, c));
                    }
                }
            }
            return Some(at);
        }
        if at == 0 {
            proof {
                assert forall|e: int| !occurs_at(s@, pat@, e) by {
                    if e < 0 {
                    }
                }
            }
            return None;
        }
        at = at - 1;
    }
}

/// Whether `pat` occurs anywhere in `s`.
pub fn contains_chars(s: &[char], pat: &[char]) -> (r: bool)
    ensures
        r == contains(s@, pat@),
{
    let found = find_from(s, pat, 0);
    proof {
        if contains(s@, pat@) {
            let at = choose|at: int| occurs_at(s@, pat@, at);
            assert(0 <= at);
        }
    }
    found.is_some()
}

/// Whether `s` begins with `pat`.
pub fn starts_with_chars(s: &[char], pat: &[char]) -> (r: bool)
    ensures
        r == starts_with(s@, pat@),
{
    let r = matches_at(s, pat, 0);
    r
}

/// A copy of `s[lo..hi]`.
pub fn slice_of(s: &[char], lo: usize, hi: usize) -> (r: Vec<char>)
    requires
        lo <= hi <= s@.len(),
    ensures
        r@ == s@.subrange(lo as int, hi as int),
{
    let mut r: Vec<char> = Vec::new();
    let mut i = lo;
    while i < hi
        invariant
            lo <= i <= hi <= s@.len(),
            r@ == s@.subrange(lo as int, i as int),
        decreases hi - i,
    {
        r.push(s[i]);
        i = i + 1;
        assert(s@.subrange(lo as int, i as int) =~= s@.subrange(lo as int, (i - 1) as int).push(s@[i - 1]));
    }
    r
}

/// `s` without the white space at its start.
pub fn trim_start_chars(s: &[char]) -> (r: Vec<char>)
    ensures
        r@ == trim_start(s@),
{
    let n = s.len();
    let mut lo: usize = 0;
    assert(s@.subrange(0, n as int) =~= s@);
    while lo < n && char_is_space(s[lo])
        invariant
            lo <= n == s@.len(),
            trim_start(s@) == trim_start(s@.subrange(lo as int, n as int)),
        decreases n - lo,
    {
        proof {
            lemma_trim_start_step(s@, lo as int);
        }
        lo = lo + 1;
    }
    slice_of(s, lo, n)
}

/// The pieces of `s` between each `sep`.
pub fn split_chars(s: &[char], sep: char) -> (r: Vec<Vec<char>>)
    ensures
        runs(r@) == split_on(s@, sep),
{
    let mut pieces: Vec<Vec<char>> = Vec::new();
    let mut current: Vec<char> = Vec::new();
    let mut i: usize = 0;
    while i < s.len()
        invariant
            i <= s@.len(),
            runs(pieces@).push(current@) == split_on(s@.take(i as int), sep),
        decreases s@.len() - i,
    {
        let ghost before = runs(pieces@).push(current@);
        proof {
            assert(s@.take((i + 1) as int).drop_last() =~= s@.take(i as int));
            assert(s@.take((i + 1) as int).last() == s@[i as int]);
        }
        if s[i] == sep {
            pieces.push(current);
            current = Vec::new();
            assert(runs(pieces@).push(current@) =~= before.push(Seq::empty()));
        } else {
            current.push(s[i]);
            assert(runs(pieces@).push(current@) =~= before.update(before.len() - 1, before.last().push(s@[i as int])));
        }
        i = i + 1;
    }
    assert(s@.take(i as int) =~= s@);
    pieces.push(current);
    assert(runs(pieces@) =~= split_on(s@, sep));
    pieces
}

/// The pieces of `s` between runs of white space, empty ones included.
fn split_space_chars(s: &[char]) -> (r: Vec<Vec<char>>)
    ensures
        runs(r@) == split_spaces(s@),
{
    let mut pieces: Vec<Vec<char>> = Vec::new();
    let mut current: Vec<char> = Vec::new();
    let mut i: usize = 0;
    while i < s.len()
        invariant
            i <= s@.len(),
            runs(pieces@).push(current@) == split_spaces(s@.take(i as int)),
        decreases s@.len() - i,
    {
        let ghost before = runs(pieces@).push(current@);
        proof {
            assert(s@.take((i + 1) as int).drop_last() =~= s@.take(i as int));
            assert(s@.take((i + 1) as int).last() == s@[i as int]);
        }
        if char_is_space(s[i]) {
            pieces.push(current);
            current = Vec::new();
            assert(runs(pieces@).push(current@) =~= before.push(Seq::empty()));
        } else {
            current.push(s[i]);
            assert(runs(pieces@).push(current@) =~= before.update(before.len() - 1, before.last().push(s@[i as int])));
        }
        i = i + 1;
    }
    assert(s@.take(i as int) =~= s@);
    pieces.push(current);
    assert(runs(pieces@) =~= split_spaces(s@));
    pieces
}

/// The words of `s`.
pub fn words(s: &[char]) -> (r: Vec<Vec<char>>)
    ensures
        runs(r@) == words_of(s@),
{
    let pieces = split_space_chars(s);
    let mut r: Vec<Vec<char>> = Vec::new();
    let mut i: usize = 0;
    while i < pieces.len()
        invariant
            i <= pieces@.len(),
            runs(r@) == nonempty(runs(pieces@).take(i as int)),
        decreases pieces@.len() - i,
    {
        let ghost before = runs(r@);
        proof {
            assert(runs(pieces@).take((i + 1) as int).drop_last() =~= runs(pieces@).take(i as int));
            assert(runs(pieces@).take((i + 1) as int).last() == pieces@[i as int]@);
        }
        if pieces[i].len() > 0 {
            r.push(copy_chars(&pieces[i]));
            assert(runs(r@) =~= before.push(pieces@[i as int]@));
        }
        i = i + 1;
    }
    assert(runs(pieces@).take(i as int) =~= runs(pieces@));
    r
}

/// A copy of a run of characters.
pub fn copy_chars(v: &Vec<char>) -> (r: Vec<char>)
    ensures
        r@ == v@,
{
    slice_of(v.as_slice(), 0, v.len())
}

/// What is left of `s` after its leading white space starts with something
/// else, or is empty.
pub proof fn lemma_trim_start_shape(s: Seq<char>)
    ensures
        trim_start(s).len() == 0 || !is_space(trim_start(s)[0]),
    decreases s.len(),
{
    if s.len() > 0 && is_space(s[0]) {
        lemma_trim_start_shape(s.drop_first());
    }
}

/// What is left of `x` after its trailing white space ends with something
/// else, or is empty; and it still starts where `x` did when `x` starts with
/// something other than white space.
pub proof fn lemma_trim_end_shape(x: Seq<char>)
    ensures
        trim_end(x).len() == 0 || !is_space(trim_end(x).last()),
        x.len() > 0 && !is_space(x[0]) ==> trim_end(x).len() > 0 && trim_end(x)[0] == x[0],
    decreases x.len(),
{
    if x.len() > 0 && is_space(x.last()) {
        lemma_trim_end_shape(x.drop_last());
        if !is_space(x[0]) {
            assert(x.len() > 1);
            assert(x.drop_last()[0] == x[0]);
        }
    }
}

/// A trimmed text is empty or starts and ends with something other than
/// white space.
pub proof fn lemma_trim_shape(s: Seq<char>)
    ensures
        trim(s).len() == 0 || (!is_space(trim(s)[0]) && !is_space(trim(s).last())),
{
    lemma_trim_start_shape(s);
    lemma_trim_end_shape(trim_start(s));
}

/// A text that starts and ends with something other than white space, or
/// is empty, is its own trimmed form.
pub proof fn lemma_trim_fixed(s: Seq<char>)
    requires
        s.len() == 0 || (!is_space(s[0]) && !is_space(s.last())),
    ensures
        trim(s) == s,
{
}

/// Trimming twice is trimming once.
pub proof fn lemma_trim_twice(s: Seq<char>)
    ensures
        trim(trim(s)) == trim(s),
{
    lemma_trim_shape(s);
    lemma_trim_fixed(trim(s));
}

/// A text without `sep` in it splits into itself alone.
pub proof fn lemma_split_single(s: Seq<char>, sep: char)
    requires
        forall|i: int| 0 <= i < s.len() ==> s[i] != sep,
    ensures
        split_on(s, sep) == seq![s],
    decreases s.len(),
{
    if s.len() > 0 {
        lemma_split_single(s.drop_last(), sep);
        assert(s.drop_last().push(s.last()) =~= s);
    } else {
        assert(s =~= Seq::<char>::empty());
    }
}

/// Joining `t` and `u` with `sep`, where `u` has no `sep` in it, adds `u` as
/// one more piece after the pieces of `t`.
pub proof fn lemma_split_joined(t: Seq<char>, sep: char, u: Seq<char>)
    requires
        forall|i: int| 0 <= i < u.len() ==> u[i] != sep,
    ensures
        split_on(t + seq![sep] + u, sep) == split_on(t, sep).push(u),
    decreases u.len(),
{
    if u.len() == 0 {
        assert(t + seq![sep] + u =~= t.push(sep));
        assert((t + seq![sep] + u).drop_last() =~= t);
        assert(u =~= Seq::<char>::empty());
    } else {
        let v = u.drop_last();
        lemma_split_joined(t, sep, v);
        assert((t + seq![sep] + u).drop_last() =~= t + seq![sep] + v);
        assert(v.push(u.last()) =~= u);
        lemma_split_nonempty(t + seq![sep] + v, sep);
    }
}

/// A text with no whitespace in it is one piece when split at whitespace.
pub proof fn lemma_spaces_single(s: Seq<char>)
    requires
        forall|i: int| 0 <= i < s.len() ==> !is_space(#[trigger] s[i]),
    ensures
        split_spaces(s) == seq![s],
    decreases s.len(),
{
    if s.len() > 0 {
        lemma_spaces_single(s.drop_last());
        assert(s.drop_last().push(s.last()) =~= s);
    } else {
        assert(s =~= Seq::<char>::empty());
    }
}

/// Joining `t` and `u` with a space, where `u` has no whitespace in it, adds
/// `u` as one more piece after the pieces of `t`.
pub proof fn lemma_spaces_joined(t: Seq<char>, u: Seq<char>)
    requires
        forall|i: int| 0 <= i < u.len() ==> !is_space(#[trigger] u[i]),
    ensures
        split_spaces(t + seq![' '] + u) == split_spaces(t).push(u),
    decreases u.len(),
{
    if u.len() == 0 {
        assert(t + seq![' '] + u =~= t.push(' '));
        assert((t + seq![' '] + u).drop_last() =~= t);
        assert(u =~= Seq::<char>::empty());
    } else {
        let v = u.drop_last();
        lemma_spaces_joined(t, v);
        assert((t + seq![' '] + u).drop_last() =~= t + seq![' '] + v);
        assert(v.push(u.last()) =~= u);
        assert(u[u.len() - 1] == u.last());
    }
}

/// The words of a word followed by a space and another word are those two.
pub proof fn lemma_two_words(a: Seq<char>, b: Seq<char>)
    requires
        a.len() > 0,
        b.len() > 0,
        forall|i: int| 0 <= i < a.len() ==> !is_space(#[trigger] a[i]),
        forall|i: int| 0 <= i < b.len() ==> !is_space(#[trigger] b[i]),
    ensures
        words_of(a) == seq![a],
        words_of(a + seq![' '] + b) == seq![a, b],
{
    lemma_spaces_single(a);
    lemma_spaces_joined(a, b);
    assert(seq![a].drop_last() =~= Seq::<Seq<char>>::empty());
    assert(seq![a].push(b).drop_last() =~= seq![a]);
    assert(nonempty(Seq::<Seq<char>>::empty()) =~= Seq::<Seq<char>>::empty());
    assert(nonempty(seq![a]) =~= seq![a]);
    assert(nonempty(seq![a].push(b)) =~= seq![a, b]);
}

proof fn lemma_split_nonempty(s: Seq<char>, sep: char)
    ensures
        split_on(s, sep).len() >= 1,
    decreases s.len(),
{
    if s.len() > 0 {
        lemma_split_nonempty(s.drop_last(), sep);
    }
}

/// The lines of `s`.
pub fn lines(s: &[char]) -> (r: Vec<Vec<char>>)
    ensures
        runs(r@) == lines_of(s@),
{
    let pieces = split_chars(s, '\n');
    proof {
        lemma_split_nonempty(s@, '\n');
    }
    let n = pieces.len();
    let keep = if pieces[n - 1].len() == 0 {
        n - 1
    } else {
        n
    };
    let ghost kept = if runs(pieces@).last().len() == 0 {
        runs(pieces@).drop_last()
    } else {
        runs(pieces@)
    };
    let mut r: Vec<Vec<char>> = Vec::new();
    let mut i: usize = 0;
    while i < keep
        invariant
            i <= keep <= n == pieces@.len(),
            kept.len() == keep,
            kept == if runs(pieces@).last().len() == 0 { runs(pieces@).drop_last() } else { runs(pieces@) },
            r@.len() == i,
            forall|k: int| 0 <= k < i ==> (#[trigger] r@[k])@ == if k < n - 1 { strip_cr(kept[k]) } else { kept[k] },
        decreases keep - i,
    {
        let piece = &pieces[i];
        let m = piece.len();
        assert(kept[i as int] == piece@);
        if i < n - 1 && m > 0 && piece[m - 1] == '\r' {
            r.push(slice_of(piece.as_slice(), 0, m - 1));
            assert(piece@.subrange(0, m - 1) =~= piece@.drop_last());
        } else {
            r.push(copy_chars(piece));
        }
        i = i + 1;
    }
    assert(runs(r@) =~= lines_of(s@));
    r
}

/// `s` quoted as Rust's `Debug` writes a string: in double quotes, with its
/// quotes, backslashes and unprintable characters escaped.
pub uninterp spec fn debug_text(s: Seq<char>) -> Seq<char>;

/// `format!("{s:?}")`: `s` as `<str as Debug>::fmt` writes it.
#[verifier::external_body]
pub(crate) fn debug_quote(s: &str) -> (r: String)
    ensures
        r@ == debug_text(s@),
{
    format!("{s:?}")
}

} // verus!
