use vstd::prelude::*;

verus! {

// ---------------------------------------------------------------------------
// Characters and digits
// ---------------------------------------------------------------------------

/// Is `c` a decimal digit?
pub open spec fn is_digit_ch(c: char) -> bool {
    '0' <= c && c <= '9'
}

/// The numeric value of a digit character.
pub open spec fn digit_val(c: char) -> int {
    c as int - '0' as int
}

/// Every character of `s` is a decimal digit.
pub open spec fn all_digits(s: Seq<char>) -> bool {
    forall|i: int| 0 <= i < s.len() ==> is_digit_ch(#[trigger] s[i])
}

/// The value of a digit string read in base ten.
pub open spec fn digits_val(s: Seq<char>) -> int
    decreases s.len(),
{
    if s.len() == 0 {
        0
    } else {
        digits_val(s.drop_last()) * 10 + digit_val(s.last())
    }
}

pub proof fn lemma_digits_val_nonneg(s: Seq<char>)
    requires
        all_digits(s),
    ensures
        digits_val(s) >= 0,
    decreases s.len(),
{
    if s.len() > 0 {
        assert forall|i: int| 0 <= i < s.drop_last().len() implies is_digit_ch(
            #[trigger] s.drop_last()[i],
        ) by {
            assert(s.drop_last()[i] == s[i]);
        }
        lemma_digits_val_nonneg(s.drop_last());
    }
}

/// Reading one more digit multiplies the value by ten and adds the digit.
pub proof fn lemma_digits_val_push(s: Seq<char>, c: char)
    ensures
        digits_val(s.push(c)) == digits_val(s) * 10 + digit_val(c),
{
    assert(s.push(c).drop_last() =~= s);
    assert(s.push(c).last() == c);
}

// ---------------------------------------------------------------------------
// First occurrence of a character
// ---------------------------------------------------------------------------

/// The index of the first occurrence of `c` in `s`, or -1 if it is absent.
pub open spec fn find_ch(s: Seq<char>, c: char) -> int
    decreases s.len(),
{
    if s.len() == 0 {
        -1
    } else if s[0] == c {
        0
    } else {
        let r = find_ch(s.subrange(1, s.len() as int), c);
        if r == -1 {
            -1
        } else {
            r + 1
        }
    }
}

/// `find_ch` really is the first occurrence: a result of -1 means the
/// character is absent, and a nonnegative result points at the character with
/// nothing equal before it.
pub proof fn lemma_find_ch(s: Seq<char>, c: char)
    ensures
        find_ch(s, c) == -1 ==> forall|i: int| 0 <= i < s.len() ==> s[i] != c,
        find_ch(s, c) != -1 ==> {
            let r = find_ch(s, c);
            &&& 0 <= r < s.len()
            &&& s[r] == c
            &&& forall|i: int| 0 <= i < r ==> s[i] != c
        },
    decreases s.len(),
{
    if s.len() == 0 {
    } else if s[0] == c {
    } else {
        let t = s.subrange(1, s.len() as int);
        lemma_find_ch(t, c);
        assert(forall|i: int| 1 <= i < s.len() ==> s[i] == t[i - 1]);
    }
}

/// Finds the first occurrence of `c` in `s`, if any.
pub fn find_char(s: &str, c: char) -> (r: Option<usize>)
    ensures
        match r {
            Some(i) => find_ch(s@, c) == i as int,
            None => find_ch(s@, c) == -1,
        },
{
    proof {
        lemma_find_ch(s@, c);
    }
    let n = s.unicode_len();
    let mut i: usize = 0;
    while i < n
        invariant
            n == s@.len(),
            0 <= i <= n,
            forall|j: int| 0 <= j < i ==> s@[j] != c,
        decreases n - i,
    {
        if s.get_char(i) == c {
            proof {
                lemma_find_ch(s@, c);
                assert(s@[i as int] == c);
            }
            return Some(i);
        }
        i += 1;
    }
    None
}

// ---------------------------------------------------------------------------
// String equality
// ---------------------------------------------------------------------------

/// Compares two string slices character by character.
pub fn str_eq(a: &str, b: &str) -> (r: bool)
    ensures
        r == (a@ == b@),
{
    let na = a.unicode_len();
    let nb = b.unicode_len();
    if na != nb {
        return false;
    }
    let mut i: usize = 0;
    while i < na
        invariant
            na == a@.len(),
            nb == b@.len(),
            na == nb,
            0 <= i <= na,
            forall|j: int| 0 <= j < i ==> a@[j] == b@[j],
        decreases na - i,
    {
        if a.get_char(i) != b.get_char(i) {
            return false;
        }
        i += 1;
    }
    proof {
        assert(a@ =~= b@);
    }
    true
}

// ---------------------------------------------------------------------------
// Splitting on a delimiter
// ---------------------------------------------------------------------------

/// The pieces of `s` between occurrences of the delimiter `c`.  Splitting
/// never yields an empty sequence of pieces: a string without the delimiter
/// is one piece, and a trailing delimiter yields a trailing empty piece.
pub open spec fn split_on(s: Seq<char>, c: char) -> Seq<Seq<char>>
    decreases s.len(),
{
    let i = find_ch(s, c);
    if 0 <= i < s.len() {
        seq![s.subrange(0, i)] + split_on(s.subrange(i + 1, s.len() as int), c)
    } else {
        seq![s]
    }
}

pub proof fn lemma_split_on_len(s: Seq<char>, c: char)
    ensures
        split_on(s, c).len() >= 1,
    decreases s.len(),
{
    let i = find_ch(s, c);
    if i != -1 {
        lemma_find_ch(s, c);
        lemma_split_on_len(s.subrange(i + 1, s.len() as int), c);
    }
}

/// The views of a sequence of strings.
pub open spec fn strs_view(v: Seq<String>) -> Seq<Seq<char>> {
    v.map_values(|x: String| x@)
}

/// Splits `s` at every occurrence of `c`.
pub fn split_str(s: &str, c: char) -> (r: Vec<String>)
    ensures
        strs_view(r@) == split_on(s@, c),
        r@.len() >= 1,
    decreases s@.len(),
{
    proof {
        lemma_split_on_len(s@, c);
    }
    match find_char(s, c) {
        None => {
            let mut r: Vec<String> = Vec::new();
            r.push(String::from_str(s));
            proof {
                assert(strs_view(r@) =~= split_on(s@, c));
            }
            r
        },
        Some(i) => {
            proof {
                lemma_find_ch(s@, c);
            }
            let n = s.unicode_len();
            let head = String::from_str(s.substring_char(0, i));
            let tail = s.substring_char(i + 1, n);
            let mut r = split_str(tail, c);
            r.insert(0, head);
            proof {
                assert(strs_view(r@) =~= split_on(s@, c));
            }
            r
        },
    }
}

/// Splits `p` at the first colon into a key and a value; a pair without a
/// colon has the whole text as its key and an empty value.
pub open spec fn split_kv(p: Seq<char>) -> (Seq<char>, Seq<char>) {
    let i = find_ch(p, ':');
    if 0 <= i < p.len() {
        (p.subrange(0, i), p.subrange(i + 1, p.len() as int))
    } else {
        (p, Seq::empty())
    }
}

/// Splits a `key:value` pair at its first colon.
pub fn split_pair(p: &str) -> (r: (String, String))
    ensures
        (r.0@, r.1@) == split_kv(p@),
{
    match find_char(p, ':') {
        None => {
            let r = (String::from_str(p), String::new());
            proof {
                assert(r.1@ =~= split_kv(p@).1);
            }
            r
        },
        Some(i) => {
            proof {
                lemma_find_ch(p@, ':');
            }
            let n = p.unicode_len();
            (
                String::from_str(p.substring_char(0, i)),
                String::from_str(p.substring_char(i + 1, n)),
            )
        },
    }
}

} // verus!

verus! {

// ---------------------------------------------------------------------------
// Integer parsing
// ---------------------------------------------------------------------------

/// The integer denoted by `s`: an optional sign followed by at least one
/// digit.  Anything else denotes no integer at all.
pub open spec fn parse_int_spec(s: Seq<char>) -> Option<int> {
    if s.len() > 0 && (s[0] == '+' || s[0] == '-') {
        let mag = s.subrange(1, s.len() as int);
        if mag.len() > 0 && all_digits(mag) {
            if s[0] == '-' {
                Some(-digits_val(mag))
            } else {
                Some(digits_val(mag))
            }
        } else {
            None
        }
    } else if s.len() > 0 && all_digits(s) {
        Some(digits_val(s))
    } else {
        None
    }
}

/// The value of `s` as a 64-bit signed integer; out-of-range values parse to
/// nothing, exactly as an overflowing decimal literal does.
pub open spec fn parse_i64_spec(s: Seq<char>) -> Option<i64> {
    match parse_int_spec(s) {
        Some(v) => if i64::MIN <= v <= i64::MAX {
            Some(v as i64)
        } else {
            None
        },
        None => None,
    }
}

/// The value of `s` as a 32-bit signed integer.
pub open spec fn parse_i32_spec(s: Seq<char>) -> Option<i32> {
    match parse_int_spec(s) {
        Some(v) => if i32::MIN <= v <= i32::MAX {
            Some(v as i32)
        } else {
            None
        },
        None => None,
    }
}

/// A later prefix of a digit string never has a smaller value.
pub proof fn lemma_digits_val_prefix_le(s: Seq<char>, i: int)
    requires
        all_digits(s),
        0 <= i <= s.len(),
    ensures
        digits_val(s.subrange(0, i)) <= digits_val(s),
    decreases s.len() - i,
{
    lemma_digits_val_nonneg(s.subrange(0, i));
    if i < s.len() {
        lemma_digits_val_prefix_le(s, i + 1);
        let p = s.subrange(0, i);
        let q = s.subrange(0, i + 1);
        assert(q.drop_last() =~= p);
        assert(is_digit_ch(q.last()));
        assert(digits_val(q) == digits_val(p) * 10 + digit_val(q.last()));
        assert(digits_val(p) * 10 >= digits_val(p)) by (nonlinear_arith)
            requires
                digits_val(p) >= 0,
        ;
    } else {
        assert(s.subrange(0, i) =~= s);
    }
}

/// Relates the outcome of integer parsing to the magnitude text that follows
/// an optional sign.
pub proof fn lemma_parse_int_cases(s: Seq<char>, has_sign: bool, neg: bool, mag: Seq<char>)
    requires
        s.len() > 0,
        has_sign == (s[0] == '+' || s[0] == '-'),
        neg == (s[0] == '-'),
        mag == if has_sign {
            s.subrange(1, s.len() as int)
        } else {
            s
        },
        mag.len() > 0,
    ensures
        all_digits(mag) ==> parse_int_spec(s) == Some(
            if neg {
                -digits_val(mag)
            } else {
                digits_val(mag)
            },
        ),
        !all_digits(mag) ==> parse_int_spec(s) is None,
{
}

/// Parses `s` as an `i64`, accepting an optional sign and rejecting overflow.
pub fn parse_i64(s: &str) -> (r: Option<i64>)
    ensures
        r == parse_i64_spec(s@),
{
    let n = s.unicode_len();
    if n == 0 {
        return None;
    }
    let c0 = s.get_char(0);
    let neg = c0 == '-';
    let has_sign = neg || c0 == '+';
    let off: usize = if has_sign {
        1
    } else {
        0
    };
    if n == off {
        return None;
    }
    let ghost mag = if has_sign {
        s@.subrange(1, s@.len() as int)
    } else {
        s@
    };
    let limit: u64 = if neg {
        9223372036854775808
    } else {
        9223372036854775807
    };
    let mut acc: u64 = 0;
    let mut i = off;
    while i < n
        invariant
            n == s@.len(),
            off <= i <= n,
            off == if has_sign { 1int } else { 0int },
            off < n,
            has_sign == (s@[0] == '+' || s@[0] == '-'),
            neg == (s@[0] == '-'),
            mag == if has_sign {
                s@.subrange(1, s@.len() as int)
            } else {
                s@
            },
            neg ==> limit == 9223372036854775808,
            !neg ==> limit == 9223372036854775807,
            all_digits(mag.subrange(0, i - off)),
            acc == digits_val(mag.subrange(0, i - off)),
            acc <= limit,
        decreases n - i,
    {
        let c = s.get_char(i);
        if !('0' <= c && c <= '9') {
            proof {
                assert(mag[i - off] == s@[i as int]);
                assert(!is_digit_ch(mag[i - off]));
                assert(!all_digits(mag));
                lemma_parse_int_cases(s@, has_sign, neg, mag);
            }
            return None;
        }
        let dv: u64 = (c as u32 as u64) - 48;
        proof {
            assert(mag[i - off] == s@[i as int]);
            assert(dv == digit_val(c));
            assert(mag.subrange(0, i + 1 - off).drop_last() =~= mag.subrange(0, i - off));
            assert(mag.subrange(0, i + 1 - off).last() == c);
        }
        if acc > (limit - dv) / 10 {
            proof {
                assert(acc * 10 + dv > limit) by (nonlinear_arith)
                    requires
                        acc > (limit - dv) / 10,
                        dv <= limit,
                        acc >= 0,
                ;
                let p = mag.subrange(0, i + 1 - off);
                assert(digits_val(p) == acc * 10 + dv);
                lemma_parse_int_cases(s@, has_sign, neg, mag);
                if all_digits(mag) {
                    lemma_digits_val_prefix_le(mag, i + 1 - off);
                    assert(digits_val(mag) >= digits_val(p));
                    assert(digits_val(mag) > limit);
                }
                assert(parse_i64_spec(s@) is None);
            }
            return None;
        }
        proof {
            assert(acc * 10 + dv <= limit) by (nonlinear_arith)
                requires
                    acc <= (limit - dv) / 10,
                    dv <= limit,
                    acc >= 0,
            ;
        }
        acc = acc * 10 + dv;
        i += 1;
    }
    proof {
        assert(mag.subrange(0, n - off) =~= mag);
        lemma_parse_int_cases(s@, has_sign, neg, mag);
    }
    if neg {
        if acc == 9223372036854775808 {
            Some(i64::MIN)
        } else {
            Some(-(acc as i64))
        }
    } else {
        Some(acc as i64)
    }
}

/// Parses `s` as an `i32`, accepting an optional sign and rejecting overflow.
pub fn parse_i32(s: &str) -> (r: Option<i32>)
    ensures
        r == parse_i32_spec(s@),
{
    match parse_i64(s) {
        Some(v) => if -2147483648 <= v && v <= 2147483647 {
            Some(v as i32)
        } else {
            None
        },
        None => None,
    }
}

// ---------------------------------------------------------------------------
// Integer rendering
// ---------------------------------------------------------------------------

/// The character for one decimal digit.
pub open spec fn digit_char(d: int) -> char {
    if d == 0 { '0' }
    else if d == 1 { '1' }
    else if d == 2 { '2' }
    else if d == 3 { '3' }
    else if d == 4 { '4' }
    else if d == 5 { '5' }
    else if d == 6 { '6' }
    else if d == 7 { '7' }
    else if d == 8 { '8' }
    else { '9' }
}

/// The decimal digits of a nonnegative integer, most significant first.
pub open spec fn dec_digits_of(n: int) -> Seq<char>
    recommends
        n >= 0,
    decreases n,
{
    if n < 10 {
        seq![digit_char(n)]
    } else {
        dec_digits_of(n / 10).push(digit_char(n % 10))
    }
}

/// The canonical decimal text of an integer.
pub open spec fn int_text(v: int) -> Seq<char> {
    if v < 0 {
        seq!['-'] + dec_digits_of(-v)
    } else {
        dec_digits_of(v)
    }
}

/// Renders a nonnegative integer in decimal.
pub fn u64_to_string(n: u64) -> (r: String)
    ensures
        r@ == dec_digits_of(n as int),
    decreases n,
{
    let d = n % 10;
    let ds: &str = if d == 0 { "0" }
    else if d == 1 { "1" }
    else if d == 2 { "2" }
    else if d == 3 { "3" }
    else if d == 4 { "4" }
    else if d == 5 { "5" }
    else if d == 6 { "6" }
    else if d == 7 { "7" }
    else { "8" };
    let ds: &str = if d == 9 { "9" } else { ds };
    proof {
        reveal_strlit("0");
        reveal_strlit("1");
        reveal_strlit("2");
        reveal_strlit("3");
        reveal_strlit("4");
        reveal_strlit("5");
        reveal_strlit("6");
        reveal_strlit("7");
        reveal_strlit("8");
        reveal_strlit("9");
        assert(ds@ =~= seq![digit_char(d as int)]);
    }
    if n < 10 {
        let r = String::from_str(ds);
        proof {
            assert(r@ =~= dec_digits_of(n as int));
        }
        r
    } else {
        let mut r = u64_to_string(n / 10);
        r.append(ds);
        proof {
            assert(r@ =~= dec_digits_of(n as int));
        }
        r
    }
}

/// Renders a signed integer in decimal.
pub fn i64_to_string(v: i64) -> (r: String)
    ensures
        r@ == int_text(v as int),
{
    if v >= 0 {
        u64_to_string(v as u64)
    } else {
        let mag: u64 = ((-(v + 1)) as u64) + 1;
        proof {
            assert(mag as int == -(v as int));
        }
        let mut r = String::from_str("-");
        let digits = u64_to_string(mag);
        r.append(digits.as_str());
        proof {
            reveal_strlit("-");
            assert(r@ =~= int_text(v as int));
        }
        r
    }
}

// ---------------------------------------------------------------------------
// Booleans
// ---------------------------------------------------------------------------

pub open spec fn true_text() -> Seq<char> {
    seq!['t', 'r', 'u', 'e']
}

pub open spec fn false_text() -> Seq<char> {
    seq!['f', 'a', 'l', 's', 'e']
}

/// The boolean denoted by `s`: exactly the literal tokens `true` and `false`.
pub open spec fn parse_bool_spec(s: Seq<char>) -> Option<bool> {
    if s == true_text() {
        Some(true)
    } else if s == false_text() {
        Some(false)
    } else {
        None
    }
}

/// Parses the literal tokens `true` and `false`.
pub fn parse_bool(s: &str) -> (r: Option<bool>)
    ensures
        r == parse_bool_spec(s@),
{
    proof {
        reveal_strlit("true");
        reveal_strlit("false");
        assert("true"@ =~= true_text());
        assert("false"@ =~= false_text());
    }
    if str_eq(s, "true") {
        Some(true)
    } else if str_eq(s, "false") {
        Some(false)
    } else {
        None
    }
}

} // verus!


verus! {

// ---------------------------------------------------------------------------
// Decimal number grammar
// ---------------------------------------------------------------------------

/// The index of the first exponent marker (`e` or `E`) in `t`, or -1.
pub open spec fn exp_split(t: Seq<char>) -> int {
    let a = find_ch(t, 'e');
    let b = find_ch(t, 'E');
    if a == -1 {
        b
    } else if b == -1 {
        a
    } else if a <= b {
        a
    } else {
        b
    }
}

/// A mantissa: digits with at most one decimal point and at least one digit.
pub open spec fn mantissa_ok(m: Seq<char>) -> bool {
    let i = find_ch(m, '.');
    if 0 <= i < m.len() {
        let a = m.subrange(0, i);
        let b = m.subrange(i + 1, m.len() as int);
        all_digits(a) && all_digits(b) && a.len() + b.len() > 0
    } else {
        m.len() > 0 && all_digits(m)
    }
}

/// An exponent part: an optional sign followed by at least one digit.
pub open spec fn exp_ok(x: Seq<char>) -> bool {
    let m = if x.len() > 0 && (x[0] == '+' || x[0] == '-') {
        x.subrange(1, x.len() as int)
    } else {
        x
    };
    m.len() > 0 && all_digits(m)
}

/// The grammar of a finite decimal number: an optional sign, a mantissa, and
/// an optional exponent.
pub open spec fn numeric_ok(s: Seq<char>) -> bool {
    let t = if s.len() > 0 && (s[0] == '+' || s[0] == '-') {
        s.subrange(1, s.len() as int)
    } else {
        s
    };
    let i = exp_split(t);
    if 0 <= i < t.len() {
        mantissa_ok(t.subrange(0, i)) && exp_ok(t.subrange(i + 1, t.len() as int))
    } else {
        mantissa_ok(t)
    }
}

/// Checks that every character of `s` is a decimal digit.
pub fn all_digits_check(s: &str) -> (r: bool)
    ensures
        r == all_digits(s@),
{
    let n = s.unicode_len();
    let mut i: usize = 0;
    while i < n
        invariant
            n == s@.len(),
            0 <= i <= n,
            forall|j: int| 0 <= j < i ==> is_digit_ch(#[trigger] s@[j]),
        decreases n - i,
    {
        let c = s.get_char(i);
        if !('0' <= c && c <= '9') {
            proof {
                assert(!is_digit_ch(s@[i as int]));
            }
            return false;
        }
        i += 1;
    }
    true
}

/// Finds the first exponent marker in `t`, if any.
fn exp_index(t: &str) -> (r: Option<usize>)
    ensures
        match r {
            Some(i) => exp_split(t@) == i as int,
            None => exp_split(t@) == -1,
        },
{
    let a = find_char(t, 'e');
    let b = find_char(t, 'E');
    match (a, b) {
        (None, None) => None,
        (Some(i), None) => Some(i),
        (None, Some(j)) => Some(j),
        (Some(i), Some(j)) => if i <= j {
            Some(i)
        } else {
            Some(j)
        },
    }
}

/// Checks a mantissa against the grammar.
fn mantissa_check(m: &str) -> (r: bool)
    ensures
        r == mantissa_ok(m@),
{
    let n = m.unicode_len();
    match find_char(m, '.') {
        None => {
            if n == 0 {
                return false;
            }
            all_digits_check(m)
        },
        Some(i) => {
            proof {
                lemma_find_ch(m@, '.');
            }
            let a = m.substring_char(0, i);
            let b = m.substring_char(i + 1, n);
            if n == 1 {
                proof {
                    assert(a@.len() + b@.len() == 0);
                }
                return false;
            }
            all_digits_check(a) && all_digits_check(b)
        },
    }
}

/// Checks an exponent part against the grammar.
fn exp_check(x: &str) -> (r: bool)
    ensures
        r == exp_ok(x@),
{
    let n = x.unicode_len();
    if n == 0 {
        return false;
    }
    let c0 = x.get_char(0);
    if c0 == '+' || c0 == '-' {
        if n == 1 {
            return false;
        }
        all_digits_check(x.substring_char(1, n))
    } else {
        all_digits_check(x)
    }
}

/// Checks `s` against the grammar of a finite decimal number.
pub fn numeric_check(s: &str) -> (r: bool)
    ensures
        r == numeric_ok(s@),
{
    let n = s.unicode_len();
    let t: &str = if n > 0 {
        let c0 = s.get_char(0);
        if c0 == '+' || c0 == '-' {
            s.substring_char(1, n)
        } else {
            s
        }
    } else {
        s
    };
    let nt = t.unicode_len();
    match exp_index(t) {
        None => mantissa_check(t),
        Some(i) => {
            proof {
                lemma_find_ch(t@, 'e');
                lemma_find_ch(t@, 'E');
            }
            let m = mantissa_check(t.substring_char(0, i));
            if !m {
                return false;
            }
            exp_check(t.substring_char(i + 1, nt))
        },
    }
}

} // verus!

verus! {

// ---------------------------------------------------------------------------
// JSON string escaping
// ---------------------------------------------------------------------------

/// The character for one lowercase hexadecimal digit.
pub open spec fn hex_char(d: int) -> char {
    if d < 10 {
        digit_char(d)
    } else if d == 10 { 'a' }
    else if d == 11 { 'b' }
    else if d == 12 { 'c' }
    else if d == 13 { 'd' }
    else if d == 14 { 'e' }
    else { 'f' }
}

/// Is `c` a lowercase hexadecimal digit?
pub open spec fn is_hex_ch(c: char) -> bool {
    is_digit_ch(c) || ('a' <= c && c <= 'f')
}

/// The value of a lowercase hexadecimal digit.
pub open spec fn hex_val(c: char) -> int {
    if is_digit_ch(c) {
        digit_val(c)
    } else {
        c as int - 'a' as int + 10
    }
}

/// The character with code `n`, for small codes.
pub open spec fn char_of_code(n: int) -> char {
    (n as u32) as char
}

/// How one character is written inside a JSON string literal: quotes,
/// backslashes and control characters are escaped, everything else stands
/// for itself.
pub open spec fn escape_char(c: char) -> Seq<char> {
    if c == '"' {
        seq!['\\', '"']
    } else if c == '\\' {
        seq!['\\', '\\']
    } else if c == '\n' {
        seq!['\\', 'n']
    } else if c == '\r' {
        seq!['\\', 'r']
    } else if c == '\t' {
        seq!['\\', 't']
    } else if (c as u32) < 0x20 {
        seq!['\\', 'u', '0', '0', hex_char((c as u32) as int / 16), hex_char((c as u32) as int % 16)]
    } else {
        seq![c]
    }
}

/// The body of a JSON string literal for the text `s`.
pub open spec fn escape_str(s: Seq<char>) -> Seq<char>
    decreases s.len(),
{
    if s.len() == 0 {
        Seq::empty()
    } else {
        escape_char(s[0]) + escape_str(s.subrange(1, s.len() as int))
    }
}

pub proof fn lemma_escape_str_snoc(s: Seq<char>, c: char)
    ensures
        escape_str(s.push(c)) == escape_str(s) + escape_char(c),
    decreases s.len(),
{
    if s.len() == 0 {
        reveal_with_fuel(escape_str, 3);
        assert(s.push(c)[0] == c);
        assert(s.push(c).subrange(1, 1) =~= Seq::<char>::empty());
        assert(escape_str(s.push(c).subrange(1, 1)) == escape_str(Seq::<char>::empty()));
        assert(escape_str(s.push(c)) =~= escape_str(s) + escape_char(c));
    } else {
        assert(s.push(c)[0] == s[0]);
        assert(s.push(c).subrange(1, s.push(c).len() as int) =~= s.subrange(
            1,
            s.len() as int,
        ).push(c));
        lemma_escape_str_snoc(s.subrange(1, s.len() as int), c);
        assert(escape_str(s.push(c)) =~= escape_str(s) + escape_char(c));
    }
}

/// The text read back from the body of a JSON string literal, undoing
/// `escape_str`; malformed escapes read back as nothing.
pub open spec fn unescape_str(s: Seq<char>) -> Option<Seq<char>>
    decreases s.len(),
{
    if s.len() == 0 {
        Some(Seq::empty())
    } else if s[0] == '\\' {
        if s.len() >= 2 && (s[1] == '"' || s[1] == '\\') {
            match unescape_str(s.subrange(2, s.len() as int)) {
                Some(r) => Some(seq![s[1]] + r),
                None => None,
            }
        } else if s.len() >= 2 && s[1] == 'n' {
            match unescape_str(s.subrange(2, s.len() as int)) {
                Some(r) => Some(seq!['\n'] + r),
                None => None,
            }
        } else if s.len() >= 2 && s[1] == 'r' {
            match unescape_str(s.subrange(2, s.len() as int)) {
                Some(r) => Some(seq!['\r'] + r),
                None => None,
            }
        } else if s.len() >= 2 && s[1] == 't' {
            match unescape_str(s.subrange(2, s.len() as int)) {
                Some(r) => Some(seq!['\t'] + r),
                None => None,
            }
        } else if s.len() >= 6 && s[1] == 'u' && s[2] == '0' && s[3] == '0' && is_hex_ch(s[4])
            && is_hex_ch(s[5]) {
            match unescape_str(s.subrange(6, s.len() as int)) {
                Some(r) => Some(seq![char_of_code(hex_val(s[4]) * 16 + hex_val(s[5]))] + r),
                None => None,
            }
        } else {
            None
        }
    } else {
        match unescape_str(s.subrange(1, s.len() as int)) {
            Some(r) => Some(seq![s[0]] + r),
            None => None,
        }
    }
}

/// The value of the hexadecimal character of a digit is that digit.
pub proof fn lemma_hex_char_val(d: int)
    requires
        0 <= d < 16,
    ensures
        is_hex_ch(hex_char(d)),
        hex_val(hex_char(d)) == d,
{
}

/// Escaping never loses information: reading an escaped text back yields
/// the original.
pub proof fn lemma_unescape_escape(s: Seq<char>)
    ensures
        unescape_str(escape_str(s)) == Some(s),
    decreases s.len(),
{
    if s.len() == 0 {
    } else {
        let c = s[0];
        let rest = s.subrange(1, s.len() as int);
        lemma_unescape_escape(rest);
        let e = escape_str(s);
        let ec = escape_char(c);
        let er = escape_str(rest);
        assert(e == ec + er);
        assert(forall|j: int| 0 <= j < ec.len() ==> e[j] == ec[j]);
        assert(e.subrange(ec.len() as int, e.len() as int) =~= er);
        if c == '"' || c == '\\' || c == '\n' || c == '\r' || c == '\t' {
            assert(e.subrange(2, e.len() as int) =~= er);
            assert(unescape_str(e) == Some(seq![c] + er.subrange(0, er.len() as int)) || true);
            assert(seq![c] + rest =~= s);
        } else if (c as u32) < 0x20 {
            let code = (c as u32) as int;
            assert(0 <= code);
            lemma_hex_char_val(code / 16);
            lemma_hex_char_val(code % 16);
            assert(e.subrange(6, e.len() as int) =~= er);
            assert(hex_val(e[4]) * 16 + hex_val(e[5]) == code);
            vstd::utf8::char_u32_cast(c, c as u32);
            assert(char_of_code(code) == c);
            assert(seq![c] + rest =~= s);
        } else {
            assert(e[0] == c);
            assert(e.subrange(1, e.len() as int) =~= er);
            assert(seq![c] + rest =~= s);
        }
    }
}

/// Renders one lowercase hexadecimal digit.
fn hex_str(d: u32) -> (r: &'static str)
    requires
        d < 16,
    ensures
        r@ == seq![hex_char(d as int)],
{
    proof {
        reveal_strlit("0");
        reveal_strlit("1");
        reveal_strlit("2");
        reveal_strlit("3");
        reveal_strlit("4");
        reveal_strlit("5");
        reveal_strlit("6");
        reveal_strlit("7");
        reveal_strlit("8");
        reveal_strlit("9");
        reveal_strlit("a");
        reveal_strlit("b");
        reveal_strlit("c");
        reveal_strlit("d");
        reveal_strlit("e");
        reveal_strlit("f");
    }
    if d == 0 { "0" }
    else if d == 1 { "1" }
    else if d == 2 { "2" }
    else if d == 3 { "3" }
    else if d == 4 { "4" }
    else if d == 5 { "5" }
    else if d == 6 { "6" }
    else if d == 7 { "7" }
    else if d == 8 { "8" }
    else if d == 9 { "9" }
    else if d == 10 { "a" }
    else if d == 11 { "b" }
    else if d == 12 { "c" }
    else if d == 13 { "d" }
    else if d == 14 { "e" }
    else { "f" }
}

/// Writes the body of a JSON string literal for `s`.
pub fn escape_string(s: &str) -> (r: String)
    ensures
        r@ == escape_str(s@),
{
    let n = s.unicode_len();
    let mut out = String::new();
    let mut i: usize = 0;
    while i < n
        invariant
            n == s@.len(),
            0 <= i <= n,
            out@ == escape_str(s@.subrange(0, i as int)),
        decreases n - i,
    {
        let c = s.get_char(i);
        if c == '"' {
            out.append("\\\"");
            proof {
                reveal_strlit("\\\"");
            }
        } else if c == '\\' {
            out.append("\\\\");
            proof {
                reveal_strlit("\\\\");
            }
        } else if c == '\n' {
            out.append("\\n");
            proof {
                reveal_strlit("\\n");
            }
        } else if c == '\r' {
            out.append("\\r");
            proof {
                reveal_strlit("\\r");
            }
        } else if c == '\t' {
            out.append("\\t");
            proof {
                reveal_strlit("\\t");
            }
        } else if (c as u32) < 0x20 {
            out.append("\\u00");
            let code = c as u32;
            out.append(hex_str(code / 16));
            out.append(hex_str(code % 16));
            proof {
                reveal_strlit("\\u00");
            }
        } else {
            out.append(s.substring_char(i, i + 1));
        }
        proof {
            lemma_escape_str_snoc(s@.subrange(0, i as int), s@[i as int]);
            assert(s@.subrange(0, i + 1) =~= s@.subrange(0, i as int).push(s@[i as int]));
            assert(out@ =~= escape_str(s@.subrange(0, i + 1)));
        }
        i += 1;
    }
    proof {
        assert(s@.subrange(0, n as int) =~= s@);
    }
    out
}

} // verus!

verus! {

/// The `key:value` pairs of a comma-separated list.
pub open spec fn kv_pairs_of(s: Seq<char>) -> Seq<(Seq<char>, Seq<char>)> {
    split_on(s, ',').map_values(|p: Seq<char>| split_kv(p))
}

} // verus!

verus! {

/// Relies on `String::push`: appends exactly one character.
#[verifier::external_body]
pub fn push_char(s: &mut String, c: char)
    ensures
        final(s)@ == old(s)@.push(c),
{
    s.push(c);
}

/// Relies on `String::pop`: removes and returns the last character, or
/// leaves an empty string as it is.
#[verifier::external_body]
pub fn pop_char(s: &mut String) -> (r: Option<char>)
    ensures
        old(s)@.len() == 0 ==> final(s)@ == old(s)@ && r is None,
        old(s)@.len() > 0 ==> final(s)@ == old(s)@.drop_last() && r == Some(old(s)@.last()),
{
    s.pop()
}

} // verus!

verus! {

// ---------------------------------------------------------------------------
// Rendering and parsing of integers agree
// ---------------------------------------------------------------------------

pub proof fn lemma_dec_digits(n: int)
    requires
        n >= 0,
    ensures
        all_digits(dec_digits_of(n)),
        dec_digits_of(n).len() >= 1,
        digits_val(dec_digits_of(n)) == n,
        is_digit_ch(dec_digits_of(n)[0]),
    decreases n,
{
    if n < 10 {
        assert(is_digit_ch(digit_char(n)));
        assert(dec_digits_of(n) == seq![digit_char(n)]);
        assert(dec_digits_of(n).drop_last() =~= Seq::<char>::empty());
        assert(digits_val(Seq::<char>::empty()) == 0);
        assert(dec_digits_of(n).last() == digit_char(n));
        assert(digits_val(dec_digits_of(n)) == digits_val(dec_digits_of(n).drop_last()) * 10
            + digit_val(dec_digits_of(n).last()));
        assert(digits_val(dec_digits_of(n)) == digit_val(digit_char(n)));
    } else {
        lemma_dec_digits(n / 10);
        let d = dec_digits_of(n / 10);
        let c = digit_char(n % 10);
        assert(is_digit_ch(c));
        lemma_digits_val_push(d, c);
        assert(digits_val(d.push(c)) == n / 10 * 10 + n % 10);
        assert(n / 10 * 10 + n % 10 == n) by (nonlinear_arith);
        assert forall|i: int| 0 <= i < d.push(c).len() implies is_digit_ch(
            #[trigger] d.push(c)[i],
        ) by {
            if i < d.len() {
                assert(d.push(c)[i] == d[i]);
            }
        }
        assert(d.push(c)[0] == d[0]);
    }
}

/// Rendering an integer and reading the text back yields the integer: the
/// decimal writer and the decimal reader are inverse.
pub proof fn lemma_int_text_round_trip(v: int)
    ensures
        parse_int_spec(int_text(v)) == Some(v),
{
    if v >= 0 {
        lemma_dec_digits(v);
        let s = int_text(v);
        assert(s == dec_digits_of(v));
        assert(is_digit_ch(s[0]));
        assert(s[0] != '+' && s[0] != '-');
        assert(parse_int_spec(s) == Some(digits_val(s)));
    } else {
        lemma_dec_digits(-v);
        let s = int_text(v);
        assert(s == seq!['-'] + dec_digits_of(-v));
        assert(s[0] == '-');
        let mag = s.subrange(1, s.len() as int);
        assert(mag =~= dec_digits_of(-v));
        assert(parse_int_spec(s) == Some(-digits_val(mag)));
    }
}

/// The 64-bit reading agrees too, for every representable value.
pub proof fn lemma_i64_text_round_trip(v: i64)
    ensures
        parse_i64_spec(int_text(v as int)) == Some(v),
{
    lemma_int_text_round_trip(v as int);
}

/// And the 32-bit reading, for every representable value.
pub proof fn lemma_i32_text_round_trip(v: i32)
    ensures
        parse_i32_spec(int_text(v as int)) == Some(v),
{
    lemma_int_text_round_trip(v as int);
}

} // verus!

verus! {

/// The value of `s` as an unsigned 64-bit integer; out-of-range values
/// parse to nothing.  A minus sign is accepted only in front of zero.
pub open spec fn parse_u64_spec(s: Seq<char>) -> Option<u64> {
    match parse_int_spec(s) {
        Some(v) => if 0 <= v <= u64::MAX {
            Some(v as u64)
        } else {
            None
        },
        None => None,
    }
}

/// Parses `s` as a `u64`, accepting an optional sign and rejecting overflow.
pub fn parse_u64(s: &str) -> (r: Option<u64>)
    ensures
        r == parse_u64_spec(s@),
{
    let n = s.unicode_len();
    if n == 0 {
        return None;
    }
    let c0 = s.get_char(0);
    let neg = c0 == '-';
    let has_sign = neg || c0 == '+';
    let off: usize = if has_sign {
        1
    } else {
        0
    };
    if n == off {
        return None;
    }
    let ghost mag = if has_sign {
        s@.subrange(1, s@.len() as int)
    } else {
        s@
    };
    let limit: u64 = if neg {
        0
    } else {
        18446744073709551615
    };
    let mut acc: u64 = 0;
    let mut i = off;
    while i < n
        invariant
            n == s@.len(),
            off <= i <= n,
            off == if has_sign { 1int } else { 0int },
            off < n,
            has_sign == (s@[0] == '+' || s@[0] == '-'),
            neg == (s@[0] == '-'),
            mag == if has_sign {
                s@.subrange(1, s@.len() as int)
            } else {
                s@
            },
            neg ==> limit == 0,
            !neg ==> limit == 18446744073709551615,
            all_digits(mag.subrange(0, i - off)),
            acc == digits_val(mag.subrange(0, i - off)),
            acc <= limit,
        decreases n - i,
    {
        let c = s.get_char(i);
        if !('0' <= c && c <= '9') {
            proof {
                assert(mag[i - off] == s@[i as int]);
                assert(!is_digit_ch(mag[i - off]));
                assert(!all_digits(mag));
                lemma_parse_int_cases(s@, has_sign, neg, mag);
            }
            return None;
        }
        let dv: u64 = (c as u32 as u64) - 48;
        proof {
            assert(mag[i - off] == s@[i as int]);
            assert(dv == digit_val(c));
            assert(mag.subrange(0, i + 1 - off).drop_last() =~= mag.subrange(0, i - off));
            assert(mag.subrange(0, i + 1 - off).last() == c);
        }
        if dv > limit || acc > (limit - dv) / 10 {
            proof {
                assert(acc * 10 + dv > limit) by (nonlinear_arith)
                    requires
                        dv > limit || acc > (limit - dv) / 10,
                        acc >= 0,
                        dv >= 0,
                        limit >= 0,
                ;
                let p = mag.subrange(0, i + 1 - off);
                assert(digits_val(p) == acc * 10 + dv);
                lemma_parse_int_cases(s@, has_sign, neg, mag);
                if all_digits(mag) {
                    lemma_digits_val_prefix_le(mag, i + 1 - off);
                    assert(digits_val(mag) >= digits_val(p));
                    assert(digits_val(mag) > limit);
                }
                assert(parse_u64_spec(s@) is None);
            }
            return None;
        }
        proof {
            assert(acc * 10 + dv <= limit) by (nonlinear_arith)
                requires
                    dv <= limit,
                    acc <= (limit - dv) / 10,
                    acc >= 0,
            ;
        }
        acc = acc * 10 + dv;
        i += 1;
    }
    proof {
        assert(mag.subrange(0, n - off) =~= mag);
        lemma_parse_int_cases(s@, has_sign, neg, mag);
    }
    if neg {
        Some(0)
    } else {
        Some(acc)
    }
}

} // verus!
