//! Text primitives shared by the hub, the sidecar and the inspector:
//! decimal formatting and parsing of integers, character access to string
//! slices, and the few Unicode operations that std performs for us.
use vstd::prelude::*;
use vstd::string::*;

verus! {

// ---------------------------------------------------------------------------
// Decimal notation
// ---------------------------------------------------------------------------

/// The ASCII digit for `d` (0..=9).
pub open spec fn digit_char(d: int) -> char {
    (d + 48) as char
}

pub open spec fn is_ascii_alphanumeric(c: char) -> bool {
    ('0' <= c && c <= '9') || ('a' <= c && c <= 'z') || ('A' <= c && c <= 'Z')
}

pub open spec fn is_digit(c: char) -> bool {
    '0' <= c && c <= '9'
}

pub open spec fn digit_value(c: char) -> int {
    c as int - 48
}

/// The decimal digits of `n`, most significant first, without leading zeros.
pub open spec fn nat_digits(n: nat) -> Seq<char>
    decreases n,
{
    if n < 10 {
        seq![digit_char(n as int)]
    } else {
        nat_digits(n / 10).push(digit_char((n % 10) as int))
    }
}

/// The decimal notation of an integer, as `Display` writes it for the
/// integer types: a `-` for negative numbers, then the digits.
pub open spec fn decimal(n: int) -> Seq<char> {
    if n < 0 {
        seq!['-'] + nat_digits((-n) as nat)
    } else {
        nat_digits(n as nat)
    }
}

pub open spec fn all_digits(s: Seq<char>) -> bool {
    forall|i: int| 0 <= i < s.len() ==> is_digit(#[trigger] s[i])
}

/// The number that a string of digits denotes.
pub open spec fn digits_value(s: Seq<char>) -> nat
    decreases s.len(),
{
    if s.len() == 0 {
        0
    } else {
        (digits_value(s.drop_last()) * 10 + digit_value(s.last())) as nat
    }
}

/// The sign-free part of a numeral: what follows a leading `+` or `-`.
pub open spec fn numeral_body(s: Seq<char>) -> Seq<char> {
    if s.len() > 0 && (s[0] == '-' || s[0] == '+') {
        s.drop_first()
    } else {
        s
    }
}

pub open spec fn numeral_is_negative(s: Seq<char>) -> bool {
    s.len() > 0 && s[0] == '-'
}

/// What `str::parse::<i64>` accepts and yields: an optional sign, then at
/// least one ASCII digit and nothing else, denoting a value in range.
pub open spec fn parse_i64_spec(s: Seq<char>) -> Option<i64> {
    let body = numeral_body(s);
    if body.len() == 0 || !all_digits(body) {
        None
    } else {
        let v: int = if numeral_is_negative(s) {
            -digits_value(body)
        } else {
            digits_value(body) as int
        };
        if i64::MIN <= v <= i64::MAX {
            Some(v as i64)
        } else {
            None
        }
    }
}

/// What `str::parse::<u64>` accepts and yields: an optional `+`, then at
/// least one ASCII digit and nothing else, denoting a value in range.
pub open spec fn parse_u64_spec(s: Seq<char>) -> Option<u64> {
    let body = if s.len() > 0 && s[0] == '+' {
        s.drop_first()
    } else {
        s
    };
    if body.len() == 0 || !all_digits(body) || digits_value(body) > u64::MAX {
        None
    } else {
        Some(digits_value(body) as u64)
    }
}

proof fn lemma_digit_char(d: int)
    requires
        0 <= d < 10,
    ensures
        is_digit(digit_char(d)),
        digit_value(digit_char(d)) == d,
{
    assert((d + 48) as char as int == d + 48);
}

proof fn lemma_nat_digits_props(n: nat)
    ensures
        nat_digits(n).len() > 0,
        all_digits(nat_digits(n)),
        digits_value(nat_digits(n)) == n,
    decreases n,
{
    let s = nat_digits(n);
    if n >= 10 {
        lemma_nat_digits_props(n / 10);
        lemma_digit_char((n % 10) as int);
        assert(s.drop_last() =~= nat_digits(n / 10));
        assert(s.last() == digit_char((n % 10) as int));
        assert(digits_value(s) == digits_value(s.drop_last()) * 10 + digit_value(s.last()));
        assert((n / 10) * 10 + n % 10 == n);
        assert forall|i: int| 0 <= i < s.len() implies is_digit(#[trigger] s[i]) by {
            if i < s.len() - 1 {
                assert(s[i] == nat_digits(n / 10)[i]);
            }
        }
    } else {
        lemma_digit_char(n as int);
        assert(s.drop_last() =~= Seq::<char>::empty());
        assert(digits_value(s.drop_last()) == 0);
        assert(digits_value(s) == digits_value(s.drop_last()) * 10 + digit_value(s.last()));
        assert(s.last() == digit_char(n as int));
    }
}

proof fn lemma_digits_value_prefix(s: Seq<char>, k: int)
    requires
        0 <= k <= s.len(),
        all_digits(s),
    ensures
        digits_value(s.subrange(0, k)) <= digits_value(s),
    decreases s.len() - k,
{
    if k < s.len() {
        lemma_digits_value_prefix(s, k + 1);
        let t = s.subrange(0, k + 1);
        assert(t.drop_last() =~= s.subrange(0, k));
        assert(is_digit(s[k]));
    } else {
        assert(s.subrange(0, k) =~= s);
    }
}

/// Reading back what was written: the decimal notation of any `i64` parses
/// to the same `i64`.
pub proof fn lemma_parse_decimal_roundtrip(n: i64)
    ensures
        parse_i64_spec(decimal(n as int)) == Some(n),
{
    if n < 0 {
        let m: nat = (-(n as int)) as nat;
        lemma_nat_digits_props(m);
        let s = decimal(n as int);
        assert(s[0] == '-');
        assert(numeral_body(s) =~= nat_digits(m));
    } else {
        let m: nat = n as nat;
        lemma_nat_digits_props(m);
        let s = decimal(n as int);
        assert(is_digit(s[0]));
        assert(numeral_body(s) =~= nat_digits(m));
    }
}

/// Appends the decimal digits of `m` to `out`.
fn push_digits(out: &mut String, m: u64)
    ensures
        final(out)@ == old(out)@ + nat_digits(m as nat),
    decreases m,
{
    if m >= 10 {
        push_digits(out, m / 10);
    }
    let d: u64 = m % 10;
    let c: char = if d == 0 {
        '0'
    } else if d == 1 {
        '1'
    } else if d == 2 {
        '2'
    } else if d == 3 {
        '3'
    } else if d == 4 {
        '4'
    } else if d == 5 {
        '5'
    } else if d == 6 {
        '6'
    } else if d == 7 {
        '7'
    } else if d == 8 {
        '8'
    } else {
        '9'
    };
    string_push(out, c);
    proof {
        if m >= 10 {
            assert(nat_digits(m as nat) == nat_digits((m / 10) as nat).push(digit_char(
                (m % 10) as int,
            )));
        }
    }
}

/// Decimal notation of an `i64`, as `i64::to_string` writes it.
pub fn format_i64(n: i64) -> (s: String)
    ensures
        s@ == decimal(n as int),
{
    let mut s = String::new();
    if n < 0 {
        string_push(&mut s, '-');
        let mag: u64 = (-(n as i128)) as u64;
        push_digits(&mut s, mag);
    } else {
        push_digits(&mut s, n as u64);
    }
    s
}

/// Decimal notation of an `i32`, as `i32::to_string` writes it.
pub fn format_i32(n: i32) -> (s: String)
    ensures
        s@ == decimal(n as int),
{
    format_i64(n as i64)
}

/// Parses a string the way `str::parse::<i64>` does; `None` where it fails.
pub fn parse_i64(s: &str) -> (r: Option<i64>)
    ensures
        r == parse_i64_spec(s@),
{
    let n: usize = s.unicode_len();
    if n == 0 {
        return None;
    }
    let first: char = s.get_char(0);
    let negative: bool = first == '-';
    let start: usize = if first == '-' || first == '+' {
        1
    } else {
        0
    };
    if start == n {
        proof {
            assert(numeral_body(s@).len() == 0);
        }
        return None;
    }
    let ghost body = numeral_body(s@);
    proof {
        assert(body =~= s@.subrange(start as int, n as int));
    }
    let mut acc: i128 = 0;
    let mut i: usize = start;
    while i < n
        invariant
            start <= i <= n,
            n == s@.len(),
            body =~= s@.subrange(start as int, n as int),
            body == numeral_body(s@),
            negative == numeral_is_negative(s@),
            start < n,
            all_digits(s@.subrange(start as int, i as int)),
            acc == digits_value(s@.subrange(start as int, i as int)),
            acc <= 0x8000_0000_0000_0000i128,
        decreases n - i,
    {
        let c: char = s.get_char(i);
        if !('0' <= c && c <= '9') {
            proof {
                assert(body[i - start] == c);
                assert(!is_digit(body[i - start]));
                assert(!all_digits(body));
            }
            return None;
        }
        let d: i128 = (c as u32 - 48) as i128;
        proof {
            let p = s@.subrange(start as int, i + 1);
            assert(p.drop_last() =~= s@.subrange(start as int, i as int));
            assert(p.last() == c);
        }
        acc = acc * 10 + d;
        i = i + 1;
        if acc > 0x8000_0000_0000_0000i128 {
            proof {
                let q = s@.subrange(start as int, i as int);
                if all_digits(body) {
                    lemma_digits_value_prefix(body, i - start);
                    assert(body.subrange(0, i - start) =~= q);
                    assert(digits_value(body) > 0x8000_0000_0000_0000int);
                }
            }
            return None;
        }
    }
    proof {
        assert(s@.subrange(start as int, n as int) =~= body);
    }
    if negative {
        Some((-acc) as i64)
    } else if acc > 0x7fff_ffff_ffff_ffffi128 {
        None
    } else {
        Some(acc as i64)
    }
}

/// Parses a string the way `str::parse::<u64>` does; `None` where it fails.
pub fn parse_u64(s: &str) -> (r: Option<u64>)
    ensures
        r == parse_u64_spec(s@),
{
    let n: usize = s.unicode_len();
    if n == 0 {
        return None;
    }
    let start: usize = if s.get_char(0) == '+' {
        1
    } else {
        0
    };
    let ghost body = if s@.len() > 0 && s@[0] == '+' {
        s@.drop_first()
    } else {
        s@
    };
    if start == n {
        proof {
            assert(body.len() == 0);
        }
        return None;
    }
    proof {
        assert(body =~= s@.subrange(start as int, n as int));
    }
    let mut acc: u128 = 0;
    let mut i: usize = start;
    while i < n
        invariant
            start <= i <= n,
            n == s@.len(),
            start < n,
            body =~= s@.subrange(start as int, n as int),
            body == (if s@.len() > 0 && s@[0] == '+' {
                s@.drop_first()
            } else {
                s@
            }),
            all_digits(s@.subrange(start as int, i as int)),
            acc == digits_value(s@.subrange(start as int, i as int)),
            acc <= u64::MAX,
        decreases n - i,
    {
        let c: char = s.get_char(i);
        if !('0' <= c && c <= '9') {
            proof {
                assert(body[i - start] == c);
                assert(!is_digit(body[i - start]));
                assert(!all_digits(body));
            }
            return None;
        }
        let d: u128 = (c as u32 - 48) as u128;
        proof {
            let p = s@.subrange(start as int, i + 1);
            assert(p.drop_last() =~= s@.subrange(start as int, i as int));
            assert(p.last() == c);
        }
        acc = acc * 10 + d;
        i = i + 1;
        if acc > 0xffff_ffff_ffff_ffffu128 {
            proof {
                let q = s@.subrange(start as int, i as int);
                if all_digits(body) {
                    lemma_digits_value_prefix(body, i - start);
                    assert(body.subrange(0, i - start) =~= q);
                    assert(digits_value(body) > u64::MAX);
                }
            }
            return None;
        }
    }
    proof {
        assert(s@.subrange(start as int, n as int) =~= body);
    }
    Some(acc as u64)
}

// ---------------------------------------------------------------------------
// Characters of a string
// ---------------------------------------------------------------------------

/// The characters of `s`, in order.
pub fn chars_of(s: &str) -> (v: Vec<char>)
    ensures
        v@ == s@,
{
    let n: usize = s.unicode_len();
    let mut v: Vec<char> = Vec::new();
    let mut i: usize = 0;
    while i < n
        invariant
            i <= n,
            n == s@.len(),
            v@ =~= s@.subrange(0, i as int),
        decreases n - i,
    {
        v.push(s.get_char(i));
        i = i + 1;
    }
    v
}

/// A `String` holding exactly the characters `cs[from..to]`.
pub fn string_from_chars(cs: &Vec<char>, from: usize, to: usize) -> (s: String)
    requires
        from <= to <= cs.len(),
    ensures
        s@ == cs@.subrange(from as int, to as int),
{
    let mut s = String::new();
    let mut i: usize = from;
    while i < to
        invariant
            from <= i <= to,
            to <= cs.len(),
            s@ =~= cs@.subrange(from as int, i as int),
        decreases to - i,
    {
        string_push(&mut s, cs[i]);
        i = i + 1;
    }
    s
}

/// `i` is the first position of `c` in `s`.
pub open spec fn is_first_index(s: Seq<char>, c: char, i: int) -> bool {
    0 <= i < s.len() && s[i] == c && forall|j: int| 0 <= j < i ==> s[j] != c
}

pub proof fn lemma_first_index_unique(s: Seq<char>, c: char, i: int, k: int)
    requires
        is_first_index(s, c, i),
        is_first_index(s, c, k),
    ensures
        i == k,
{
    if i < k {
        assert(s[i] != c);
    } else if k < i {
        assert(s[k] != c);
    }
}

/// The first position of `c` in `cs[from..to]`, or `to`.
pub fn find_char(cs: &Vec<char>, c: char, from: usize, to: usize) -> (r: usize)
    requires
        from <= to <= cs.len(),
    ensures
        from <= r <= to,
        forall|j: int| from <= j < r ==> cs@[j] != c,
        r < to ==> cs@[r as int] == c,
{
    let mut i: usize = from;
    while i < to
        invariant
            from <= i <= to,
            to <= cs.len(),
            forall|j: int| from <= j < i ==> cs@[j] != c,
        decreases to - i,
    {
        if cs[i] == c {
            return i;
        }
        i = i + 1;
    }
    to
}

/// Whether `s` begins with `prefix`.
pub open spec fn has_prefix(s: Seq<char>, prefix: Seq<char>) -> bool {
    prefix.len() <= s.len() && s.subrange(0, prefix.len() as int) == prefix
}

/// `str::starts_with` with a string pattern.
pub fn starts_with(s: &str, prefix: &str) -> (b: bool)
    ensures
        b == has_prefix(s@, prefix@),
{
    let n: usize = s.unicode_len();
    let m: usize = prefix.unicode_len();
    if m > n {
        return false;
    }
    let mut i: usize = 0;
    while i < m
        invariant
            i <= m <= n,
            n == s@.len(),
            m == prefix@.len(),
            s@.subrange(0, i as int) =~= prefix@.subrange(0, i as int),
        decreases m - i,
    {
        if s.get_char(i) != prefix.get_char(i) {
            proof {
                assert(s@.subrange(0, m as int)[i as int] != prefix@[i as int]);
            }
            return false;
        }
        i = i + 1;
    }
    proof {
        assert(prefix@.subrange(0, m as int) =~= prefix@);
    }
    true
}

/// Whether two strings hold the same characters.
pub fn same_text(a: &str, b: &str) -> (r: bool)
    ensures
        r == (a@ == b@),
{
    let n: usize = a.unicode_len();
    if n != b.unicode_len() {
        return false;
    }
    let mut i: usize = 0;
    while i < n
        invariant
            i <= n,
            n == a@.len(),
            n == b@.len(),
            a@.subrange(0, i as int) =~= b@.subrange(0, i as int),
        decreases n - i,
    {
        if a.get_char(i) != b.get_char(i) {
            return false;
        }
        i = i + 1;
    }
    proof {
        assert(a@ =~= a@.subrange(0, n as int));
        assert(b@ =~= b@.subrange(0, n as int));
    }
    true
}

/// `s` followed by `t`.
pub fn join(s: &str, t: &str) -> (r: String)
    ensures
        r@ == s@ + t@,
{
    let mut r = String::from_str(s);
    r.append(t);
    r
}

// ---------------------------------------------------------------------------
// Operations that std performs on our behalf
// ---------------------------------------------------------------------------

/// An ASCII character.
pub open spec fn is_ascii_char(c: char) -> bool {
    (c as u32) < 128
}

/// Text made of ASCII characters only.
pub open spec fn is_ascii_text(s: Seq<char>) -> bool {
    forall|i: int| 0 <= i < s.len() ==> #[trigger] is_ascii_char(s[i])
}

/// The ASCII lowercase of a character: `A`-`Z` become `a`-`z`, anything
/// else is kept.
pub open spec fn ascii_lower(c: char) -> char {
    if 'A' <= c && c <= 'Z' {
        ((c as u32) + 32) as char
    } else {
        c
    }
}

/// The ASCII uppercase of a character: `a`-`z` become `A`-`Z`, anything
/// else is kept.
pub open spec fn ascii_upper(c: char) -> char {
    if 'a' <= c && c <= 'z' {
        ((c as u32) - 32) as char
    } else {
        c
    }
}

/// Lowercasing character by character, as a function to map with.
pub open spec fn ascii_lower_fn() -> spec_fn(char) -> char {
    |c: char| ascii_lower(c)
}

/// Uppercasing character by character, as a function to map with.
pub open spec fn ascii_upper_fn() -> spec_fn(char) -> char {
    |c: char| ascii_upper(c)
}

/// Whether `char::is_alphanumeric` holds of `c`: the Unicode properties
/// `Alphabetic` or `Numeric`, which take tables to state.
pub uninterp spec fn unicode_alphanumeric(c: char) -> bool;

/// What `str::to_lowercase` yields: the Unicode lowercase mapping of the
/// whole string, which is context-sensitive and takes tables to state.
pub uninterp spec fn unicode_lowercase(s: Seq<char>) -> Seq<char>;

/// The characters with the Unicode `White_Space` property, which
/// `char::is_whitespace` tests: tab to carriage return, space, next line,
/// no-break space, ogham space mark, en quad to hair space, line and
/// paragraph separators, narrow no-break space, medium mathematical space
/// and ideographic space.
pub open spec fn unicode_whitespace(c: char) -> bool {
    let n = c as u32;
    (0x9 <= n && n <= 0xD) || n == 0x20 || n == 0x85 || n == 0xA0 || n == 0x1680 || (0x2000 <= n
        && n <= 0x200A) || n == 0x2028 || n == 0x2029 || n == 0x202F || n == 0x205F || n == 0x3000
}

/// The text without its leading whitespace.
pub open spec fn trim_start_ws(s: Seq<char>) -> Seq<char>
    decreases s.len(),
{
    if s.len() > 0 && unicode_whitespace(s[0]) {
        trim_start_ws(s.drop_first())
    } else {
        s
    }
}

/// The text without its trailing whitespace.
pub open spec fn trim_end_ws(s: Seq<char>) -> Seq<char>
    decreases s.len(),
{
    if s.len() > 0 && unicode_whitespace(s.last()) {
        trim_end_ws(s.drop_last())
    } else {
        s
    }
}

/// What `str::trim` yields: the text without leading and trailing
/// whitespace.
pub open spec fn unicode_trim(s: Seq<char>) -> Seq<char> {
    trim_end_ws(trim_start_ws(s))
}

/// Calls `str::trim`: strips leading and trailing whitespace.
#[verifier::external_body]
pub(crate) fn trim(s: &str) -> (r: String)
    ensures
        r@ == unicode_trim(s@),
{
    s.trim().to_string()
}

/// Calls `String::push`: appends one character.
#[verifier::external_body]
pub(crate) fn string_push(s: &mut String, c: char)
    ensures
        final(s)@ == old(s)@.push(c),
{
    s.push(c);
}

/// Calls `char::is_alphanumeric`; its result is named, not stated, but for
/// an ASCII character, where the letters and digits are alphanumeric.
#[verifier::external_body]
pub(crate) fn is_alphanumeric(c: char) -> (b: bool)
    ensures
        b == unicode_alphanumeric(c),
        is_ascii_char(c) ==> b == is_ascii_alphanumeric(c),
{
    c.is_alphanumeric()
}

/// Calls `str::to_lowercase`; its result is named, not stated, but for ASCII
/// text, which it lowercases character by character.
#[verifier::external_body]
pub(crate) fn to_lowercase(s: &str) -> (r: String)
    ensures
        r@ == unicode_lowercase(s@),
        is_ascii_text(s@) ==> r@ == s@.map_values(ascii_lower_fn()),
{
    s.to_lowercase()
}

} // verus!
