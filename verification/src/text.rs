use vstd::prelude::*;

verus! {

/// The characters with the Unicode `White_Space` property, which `str::trim` strips.
pub open spec fn is_ws(c: char) -> bool {
    let u = c as u32;
    ||| 0x09 <= u <= 0x0D
    ||| u == 0x20
    ||| u == 0x85
    ||| u == 0xA0
    ||| u == 0x1680
    ||| 0x2000 <= u <= 0x200A
    ||| u == 0x2028
    ||| u == 0x2029
    ||| u == 0x202F
    ||| u == 0x205F
    ||| u == 0x3000
}

/// `s` without its leading whitespace.
pub open spec fn trim_start(s: Seq<char>) -> Seq<char>
    decreases s.len(),
{
    if s.len() > 0 && is_ws(s[0]) {
        trim_start(s.drop_first())
    } else {
        s
    }
}

/// `s` without its trailing whitespace.
pub open spec fn trim_end(s: Seq<char>) -> Seq<char>
    decreases s.len(),
{
    if s.len() > 0 && is_ws(s.last()) {
        trim_end(s.drop_last())
    } else {
        s
    }
}

/// `s` without leading and trailing whitespace, as `str::trim` returns it.
pub open spec fn trim(s: Seq<char>) -> Seq<char> {
    trim_end(trim_start(s))
}

/// `p` is a prefix of `s`.
pub open spec fn has_prefix(s: Seq<char>, p: Seq<char>) -> bool {
    p.len() <= s.len() && s.subrange(0, p.len() as int) == p
}

/// The index of the first occurrence of `c` in `s`, if any.
pub open spec fn first_index(s: Seq<char>, c: char) -> Option<int>
    decreases s.len(),
{
    if s.len() == 0 {
        None
    } else if s[0] == c {
        Some(0)
    } else {
        match first_index(s.drop_first(), c) {
            Some(i) => Some(i + 1),
            None => None,
        }
    }
}

/// Whether `c` has the Unicode `White_Space` property.
pub fn is_whitespace(c: char) -> (r: bool)
    ensures
        r == is_ws(c),
{
    let u = c as u32;
    (0x09 <= u && u <= 0x0D) || u == 0x20 || u == 0x85 || u == 0xA0 || u == 0x1680 || (0x2000
        <= u && u <= 0x200A) || u == 0x2028 || u == 0x2029 || u == 0x202F || u == 0x205F || u
        == 0x3000
}

/// Whether `a` and `b` hold the same characters.
pub fn str_eq(a: &str, b: &str) -> (r: bool)
    ensures
        r == (a@ == b@),
{
    let n = a.unicode_len();
    if n != b.unicode_len() {
        return false;
    }
    let mut i: usize = 0;
    while i < n
        invariant
            n == a@.len(),
            n == b@.len(),
            i <= n,
            forall|j: int| 0 <= j < i ==> a@[j] == b@[j],
        decreases n - i,
    {
        if a.get_char(i) != b.get_char(i) {
            return false;
        }
        i = i + 1;
    }
    assert(a@ =~= b@);
    true
}

/// The characters of `s`, in order.
pub fn chars_of(s: &str) -> (v: Vec<char>)
    ensures
        v@ == s@,
{
    let n = s.unicode_len();
    let mut v: Vec<char> = Vec::new();
    let mut i: usize = 0;
    while i < n
        invariant
            n == s@.len(),
            i <= n,
            v@ == s@.subrange(0, i as int),
        decreases n - i,
    {
        let c = s.get_char(i);
        v.push(c);
        i = i + 1;
        assert(v@ =~= s@.subrange(0, i as int));
    }
    assert(v@ =~= s@);
    v
}

pub proof fn lemma_trim_start_skip(s: Seq<char>, i: int)
    requires
        0 <= i <= s.len(),
        forall|j: int| 0 <= j < i ==> is_ws(#[trigger] s[j]),
    ensures
        trim_start(s) == trim_start(s.subrange(i, s.len() as int)),
    decreases i,
{
    if i == 0 {
        assert(s.subrange(0, s.len() as int) =~= s);
    } else {
        let t = s.drop_first();
        assert forall|j: int| 0 <= j < i - 1 implies is_ws(#[trigger] t[j]) by {
            assert(t[j] == s[j + 1]);
        }
        lemma_trim_start_skip(t, i - 1);
        assert(t.subrange(i - 1, t.len() as int) =~= s.subrange(i, s.len() as int));
    }
}

proof fn lemma_trim_end_skip(s: Seq<char>, k: int)
    requires
        0 <= k <= s.len(),
        forall|j: int| k <= j < s.len() ==> is_ws(#[trigger] s[j]),
    ensures
        trim_end(s) == trim_end(s.subrange(0, k)),
    decreases s.len() - k,
{
    if k == s.len() {
        assert(s.subrange(0, k) =~= s);
    } else {
        let t = s.drop_last();
        assert forall|j: int| k <= j < t.len() implies is_ws(#[trigger] t[j]) by {
            assert(t[j] == s[j]);
        }
        lemma_trim_end_skip(t, k);
        assert(t.subrange(0, k) =~= s.subrange(0, k));
    }
}

/// The bounds of `trim(cs[lo..hi])` inside `cs`.
pub fn trim_range(cs: &Vec<char>, lo: usize, hi: usize) -> (r: (usize, usize))
    requires
        lo <= hi <= cs@.len(),
    ensures
        lo <= r.0 <= r.1 <= hi,
        cs@.subrange(r.0 as int, r.1 as int) == trim(cs@.subrange(lo as int, hi as int)),
{
    let ghost s = cs@.subrange(lo as int, hi as int);
    let mut a = lo;
    while a < hi && is_whitespace(cs[a])
        invariant
            lo <= a <= hi <= cs@.len(),
            s == cs@.subrange(lo as int, hi as int),
            forall|j: int| lo <= j < a ==> is_ws(#[trigger] cs@[j]),
        decreases hi - a,
    {
        a = a + 1;
    }
    proof {
        assert forall|j: int| 0 <= j < a - lo implies is_ws(#[trigger] s[j]) by {
            assert(s[j] == cs@[lo + j]);
        }
        lemma_trim_start_skip(s, a - lo);
        assert(s.subrange(a - lo, s.len() as int) =~= cs@.subrange(a as int, hi as int));
        let u = cs@.subrange(a as int, hi as int);
        assert(trim_start(u) == u);
    }
    let mut b = hi;
    while b > a && is_whitespace(cs[b - 1])
        invariant
            lo <= a <= b <= hi <= cs@.len(),
            forall|j: int| b <= j < hi ==> is_ws(#[trigger] cs@[j]),
        decreases b - a,
    {
        b = b - 1;
    }
    proof {
        let u = cs@.subrange(a as int, hi as int);
        assert forall|j: int| b - a <= j < u.len() implies is_ws(#[trigger] u[j]) by {
            assert(u[j] == cs@[a + j]);
        }
        lemma_trim_end_skip(u, b - a);
        let w = u.subrange(0, b - a);
        assert(w =~= cs@.subrange(a as int, b as int));
        if w.len() > 0 {
            assert(w.last() == cs@[b - 1]);
        }
        assert(trim_end(w) == w);
    }
    (a, b)
}

/// Whether `cs[lo..hi]` begins with the characters of `p`.
pub fn range_starts_with(cs: &Vec<char>, lo: usize, hi: usize, p: &str) -> (r: bool)
    requires
        lo <= hi <= cs@.len(),
    ensures
        r == has_prefix(cs@.subrange(lo as int, hi as int), p@),
{
    let ghost s = cs@.subrange(lo as int, hi as int);
    let n = p.unicode_len();
    if n > hi - lo {
        return false;
    }
    let mut i: usize = 0;
    while i < n
        invariant
            n == p@.len(),
            n <= hi - lo,
            lo <= hi <= cs@.len(),
            s == cs@.subrange(lo as int, hi as int),
            i <= n,
            forall|j: int| 0 <= j < i ==> s[j] == p@[j],
        decreases n - i,
    {
        if cs[lo + i] != p.get_char(i) {
            assert(s.subrange(0, n as int)[i as int] != p@[i as int]);
            return false;
        }
        i = i + 1;
    }
    assert(s.subrange(0, n as int) =~= p@);
    true
}

/// Whether `c` occurs in `cs[lo..hi]`.
pub fn range_contains(cs: &Vec<char>, lo: usize, hi: usize, c: char) -> (r: bool)
    requires
        lo <= hi <= cs@.len(),
    ensures
        r == cs@.subrange(lo as int, hi as int).contains(c),
{
    let ghost s = cs@.subrange(lo as int, hi as int);
    let mut i = lo;
    while i < hi
        invariant
            lo <= i <= hi <= cs@.len(),
            s == cs@.subrange(lo as int, hi as int),
            forall|j: int| lo <= j < i ==> cs@[j] != c,
        decreases hi - i,
    {
        if cs[i] == c {
            assert(s[i - lo] == c);
            return true;
        }
        i = i + 1;
    }
    assert forall|j: int| 0 <= j < s.len() implies s[j] != c by {
        assert(s[j] == cs@[lo + j]);
    }
    false
}

pub proof fn lemma_first_index_none(s: Seq<char>, c: char)
    requires
        forall|j: int| 0 <= j < s.len() ==> s[j] != c,
    ensures
        first_index(s, c) is None,
    decreases s.len(),
{
    if s.len() > 0 {
        let t = s.drop_first();
        assert forall|j: int| 0 <= j < t.len() implies t[j] != c by {
            assert(t[j] == s[j + 1]);
        }
        lemma_first_index_none(t, c);
    }
}

pub proof fn lemma_first_index_at(s: Seq<char>, c: char, k: int)
    requires
        0 <= k < s.len(),
        s[k] == c,
        forall|j: int| 0 <= j < k ==> s[j] != c,
    ensures
        first_index(s, c) == Some(k),
    decreases k,
{
    if k > 0 {
        let t = s.drop_first();
        assert forall|j: int| 0 <= j < k - 1 implies t[j] != c by {
            assert(t[j] == s[j + 1]);
        }
        lemma_first_index_at(t, c, k - 1);
    }
}

/// The first position of `c` in `cs[lo..hi]`, counted from `lo`.
pub fn range_find(cs: &Vec<char>, lo: usize, hi: usize, c: char) -> (r: Option<usize>)
    requires
        lo <= hi <= cs@.len(),
    ensures
        match r {
            Some(k) => first_index(cs@.subrange(lo as int, hi as int), c) == Some(k as int) && k
                < hi - lo,
            None => first_index(cs@.subrange(lo as int, hi as int), c) is None,
        },
{
    let ghost s = cs@.subrange(lo as int, hi as int);
    let mut i = lo;
    while i < hi
        invariant
            lo <= i <= hi <= cs@.len(),
            s == cs@.subrange(lo as int, hi as int),
            forall|j: int| 0 <= j < i - lo ==> s[j] != c,
        decreases hi - i,
    {
        if cs[i] == c {
            proof {
                lemma_first_index_at(s, c, i - lo);
            }
            return Some(i - lo);
        }
        i = i + 1;
    }
    proof {
        lemma_first_index_none(s, c);
    }
    None
}

/// The character for digit `d` (0..15): `0`-`9`, then `a`-`f`.
pub open spec fn digit_char(d: int) -> char {
    if d == 0 {
        '0'
    } else if d == 1 {
        '1'
    } else if d == 2 {
        '2'
    } else if d == 3 {
        '3'
    } else if d == 4 {
        '4'
    } else if d == 5 {
        '5'
    } else if d == 6 {
        '6'
    } else if d == 7 {
        '7'
    } else if d == 8 {
        '8'
    } else if d == 9 {
        '9'
    } else if d == 10 {
        'a'
    } else if d == 11 {
        'b'
    } else if d == 12 {
        'c'
    } else if d == 13 {
        'd'
    } else if d == 14 {
        'e'
    } else {
        'f'
    }
}

/// The digits of `v` in base `base`, most significant first, without
/// leading zeros (`0` is one digit).
pub open spec fn digits(v: nat, base: nat) -> Seq<char>
    decreases v,
{
    if base <= 1 || v < base {
        seq![digit_char(v as int)]
    } else {
        proof {
            vstd::arithmetic::div_mod::lemma_div_decreases(v as int, base as int);
        }
        digits(v / base, base).push(digit_char((v % base) as int))
    }
}

/// `s` filled on the left with `fill` up to `width` characters.
pub open spec fn pad_left(s: Seq<char>, width: nat, fill: char) -> Seq<char> {
    if s.len() < width {
        Seq::new((width - s.len()) as nat, |i: int| fill) + s
    } else {
        s
    }
}

/// The upper-case form of a hexadecimal digit (other characters unchanged).
pub open spec fn upper_digit(c: char) -> char {
    if c == 'a' {
        'A'
    } else if c == 'b' {
        'B'
    } else if c == 'c' {
        'C'
    } else if c == 'd' {
        'D'
    } else if c == 'e' {
        'E'
    } else if c == 'f' {
        'F'
    } else {
        c
    }
}

/// The digits `s` in upper case when `upper` holds.
pub open spec fn cased(s: Seq<char>, upper: bool) -> Seq<char> {
    if upper {
        s.map_values(|c: char| upper_digit(c))
    } else {
        s
    }
}

/// The character for digit `d`, in upper case when `upper` holds.
pub open spec fn cased_digit(d: int, upper: bool) -> char {
    if upper {
        upper_digit(digit_char(d))
    } else {
        digit_char(d)
    }
}

/// A signed number in decimal: a minus sign before the digits of its magnitude.
pub open spec fn signed_digits(v: int) -> Seq<char> {
    if v < 0 {
        "-"@ + digits((-v) as nat, 10)
    } else {
        digits(v as nat, 10)
    }
}

fn digit_str(d: u64, upper: bool) -> (r: &'static str)
    requires
        d < 16,
    ensures
        r@ == seq![cased_digit(d as int, upper)],
{
    proof {
        reveal_strlit("0");
        reveal_strlit("1");
        reveal_strlit("2");
        reveal_strlit("3");
        reveal_strlit("4");
        reveal_strlit("5");
        reveal_strlit("6");
        reveal_strlit("7");
        reveal_strlit("8");
        reveal_strlit("9");
        reveal_strlit("a");
        reveal_strlit("b");
        reveal_strlit("c");
        reveal_strlit("d");
        reveal_strlit("e");
        reveal_strlit("f");
        reveal_strlit("A");
        reveal_strlit("B");
        reveal_strlit("C");
        reveal_strlit("D");
        reveal_strlit("E");
        reveal_strlit("F");
    }
    if d < 10 {
        if d == 0 {
            "0"
        } else if d == 1 {
            "1"
        } else if d == 2 {
            "2"
        } else if d == 3 {
            "3"
        } else if d == 4 {
            "4"
        } else if d == 5 {
            "5"
        } else if d == 6 {
            "6"
        } else if d == 7 {
            "7"
        } else if d == 8 {
            "8"
        } else {
            "9"
        }
    } else if upper {
        if d == 10 {
            "A"
        } else if d == 11 {
            "B"
        } else if d == 12 {
            "C"
        } else if d == 13 {
            "D"
        } else if d == 14 {
            "E"
        } else {
            "F"
        }
    } else {
        if d == 10 {
            "a"
        } else if d == 11 {
            "b"
        } else if d == 12 {
            "c"
        } else if d == 13 {
            "d"
        } else if d == 14 {
            "e"
        } else {
            "f"
        }
    }
}

proof fn lemma_div_smaller(v: u64, base: u64)
    requires
        2 <= base <= v,
    ensures
        1 <= v / base,
        v / base < v,
{
    assert(1 <= v / base && v / base < v) by (nonlinear_arith)
        requires
            2 <= base <= v,
    ;
}

/// How many digits `v` has in base `base`.
fn digit_count(v: u64, base: u64) -> (r: u64)
    requires
        base == 10 || base == 16,
    ensures
        r == digits(v as nat, base as nat).len(),
        r <= (if v == 0 {
            1
        } else {
            v as int
        }),
    decreases v,
{
    if v < base {
        1
    } else {
        proof {
            lemma_div_smaller(v, base);
        }
        digit_count(v / base, base) + 1
    }
}

fn append_digits(out: &mut String, v: u64, base: u64, upper: bool)
    requires
        base == 10 || base == 16,
    ensures
        final(out)@ == old(out)@ + cased(digits(v as nat, base as nat), upper),
    decreases v,
{
    if v < base {
        out.append(digit_str(v, upper));
        assert(cased(digits(v as nat, base as nat), upper) =~= seq![cased_digit(v as int, upper)]);
    } else {
        proof {
            lemma_div_smaller(v, base);
        }
        append_digits(out, v / base, base, upper);
        out.append(digit_str(v % base, upper));
        assert(digits(v as nat, base as nat) == digits((v / base) as nat, base as nat).push(
            digit_char((v % base) as int),
        ));
        assert(cased(digits(v as nat, base as nat), upper) =~= cased(
            digits((v / base) as nat, base as nat),
            upper,
        ).push(cased_digit((v % base) as int, upper)));
        assert(final(out)@ =~= old(out)@ + cased(digits(v as nat, base as nat), upper));
    }
}

/// `v` written in base `base` (10 or 16; letters in upper case when `upper`
/// holds), filled on the left with `fill` up to `width` characters, appended
/// to `out`.
pub fn append_number(out: &mut String, v: u64, base: u64, upper: bool, width: usize, fill: &str)
    requires
        base == 10 || base == 16,
        fill@.len() == 1,
    ensures
        final(out)@ == old(out)@ + pad_left(
            cased(digits(v as nat, base as nat), upper),
            width as nat,
            fill@[0],
        ),
{
    let n = digit_count(v, base);
    let ghost start = out@;
    let ghost c = fill@[0];
    assert(fill@ =~= seq![c]);
    if (width as u64) > n {
        let pad = (width as u64) - n;
        let mut i: u64 = 0;
        while i < pad
            invariant
                fill@ == seq![c],
                i <= pad,
                out@ == start + Seq::new(i as nat, |j: int| c),
            decreases pad - i,
        {
            out.append(fill);
            i = i + 1;
            assert(out@ =~= start + Seq::new(i as nat, |j: int| c));
        }
    } else {
        assert(out@ =~= start);
    }
    let ghost mid = out@;
    append_digits(out, v, base, upper);
    assert(out@ =~= start + pad_left(cased(digits(v as nat, base as nat), upper), width as nat, c));
}

/// The signed decimal of `v`, filled on the left with spaces up to `width`
/// characters, appended to `out`.
pub fn append_signed(out: &mut String, v: i32, width: usize)
    ensures
        final(out)@ == old(out)@ + pad_left(signed_digits(v as int), width as nat, ' '),
{
    let neg = v < 0;
    let mag: u64 = if neg {
        (0i64 - (v as i64)) as u64
    } else {
        v as u64
    };
    assert(mag as int == (if neg { -(v as int) } else { v as int }));
    let n = digit_count(mag, 10);
    let len: u64 = if neg {
        n + 1
    } else {
        n
    };
    let ghost start = out@;
    let ghost text = signed_digits(v as int);
    proof {
        reveal_strlit("-");
        reveal_strlit(" ");
    }
    assert(text.len() == len);
    if (width as u64) > len {
        let pad = (width as u64) - len;
        let mut i: u64 = 0;
        while i < pad
            invariant
                " "@ =~= seq![' '],
                i <= pad,
                out@ == start + Seq::new(i as nat, |j: int| ' '),
            decreases pad - i,
        {
            out.append(" ");
            i = i + 1;
            assert(out@ =~= start + Seq::new(i as nat, |j: int| ' '));
        }
    } else {
        assert(out@ =~= start);
    }
    let ghost mid = out@;
    if neg {
        out.append("-");
    }
    append_digits(out, mag, 10, false);
    assert(out@ =~= start + pad_left(text, width as nat, ' '));
}

/// `v` in upper-case hexadecimal after `0x`, with at least `width` digits.
pub open spec fn hex_text(v: nat, width: nat) -> Seq<char> {
    "0x"@ + pad_left(cased(digits(v, 16), true), width, '0')
}

/// `v` as `0x` and upper-case hexadecimal digits, at least `width` of them.
pub fn hex_string(v: u64, width: usize) -> (r: String)
    ensures
        r@ == hex_text(v as nat, width as nat),
{
    let mut r = String::from_str("0x");
    proof {
        reveal_strlit("0");
    }
    append_number(&mut r, v, 16, true, width, "0");
    r
}

/// `v` in signed decimal, filled on the left with spaces up to `width` characters.
pub fn signed_string(v: i32, width: usize) -> (r: String)
    ensures
        r@ == pad_left(signed_digits(v as int), width as nat, ' '),
{
    let mut r = String::new();
    append_signed(&mut r, v, width);
    assert(r@ =~= pad_left(signed_digits(v as int), width as nat, ' '));
    r
}

/// The value of a digit character: `0`-`9`, `a`-`f` and `A`-`F` count 0..15;
/// any other character counts as 16, which no base here admits.
pub open spec fn char_value(c: char) -> int {
    let u = c as u32;
    if 48 <= u <= 57 {
        u - 48
    } else if 97 <= u <= 102 {
        u - 87
    } else if 65 <= u <= 70 {
        u - 55
    } else {
        16
    }
}

/// The number that the digits `s` denote in base `base`, most significant first.
pub open spec fn value_of(s: Seq<char>, base: nat) -> int
    decreases s.len(),
{
    if s.len() == 0 {
        0
    } else {
        value_of(s.drop_last(), base) * base + char_value(s.last())
    }
}

/// Every character of `s` is a digit of base `base`.
pub open spec fn all_digits(s: Seq<char>, base: nat) -> bool {
    forall|i: int| 0 <= i < s.len() ==> char_value(#[trigger] s[i]) < base
}

/// `s` has no lower-case letter.
pub open spec fn no_lower(s: Seq<char>) -> bool {
    forall|i: int| 0 <= i < s.len() ==> !(97 <= (#[trigger] s[i]) as u32 <= 122)
}

proof fn lemma_digit_char_value(d: int)
    requires
        0 <= d < 16,
    ensures
        char_value(digit_char(d)) == d,
        char_value(upper_digit(digit_char(d))) == d,
        !(97 <= upper_digit(digit_char(d)) as u32 <= 122),
{
}

proof fn lemma_upper_value(c: char)
    ensures
        char_value(upper_digit(c)) == char_value(c),
{
}

/// The digits of `v` in base 10 or 16 read back as `v`: there is at least one,
/// each is a digit of the base, and the first is not `0` unless `v` is 0.
pub proof fn lemma_digits_value(v: nat, base: nat)
    requires
        base == 10 || base == 16,
    ensures
        value_of(digits(v, base), base) == v,
        all_digits(digits(v, base), base),
        digits(v, base).len() >= 1,
        digits(v, base).len() > 1 ==> digits(v, base)[0] != '0',
    decreases v,
{
    if v < base {
        lemma_digit_char_value(v as int);
        assert(digits(v, base).drop_last() =~= Seq::<char>::empty());
        assert(value_of(Seq::<char>::empty(), base) == 0);
        assert(0 * base == 0);
    } else {
        let q = v / base;
        let r = v % base;
        vstd::arithmetic::div_mod::lemma_fundamental_div_mod(v as int, base as int);
        vstd::arithmetic::div_mod::lemma_div_decreases(v as int, base as int);
        assert(q >= 1) by (nonlinear_arith)
            requires
                v >= base,
                base > 0,
                q == v / base,
        ;
        lemma_digits_value(q, base);
        lemma_digit_char_value(r as int);
        let d = digits(v, base);
        assert(d == digits(q, base).push(digit_char(r as int)));
        assert(d.drop_last() =~= digits(q, base));
        assert(d[0] == digits(q, base)[0]);
        assert(value_of(d, base) == q * base + r);
        assert(v == base * q + r);
        assert(q * base == base * q) by (nonlinear_arith);
        assert forall|i: int| 0 <= i < d.len() implies char_value(#[trigger] d[i]) < base by {
            if i < d.len() - 1 {
                assert(d[i] == digits(q, base)[i]);
            }
        }
        if digits(q, base).len() == 1 {
            assert(value_of(digits(q, base), base) == value_of(
                digits(q, base).drop_last(),
                base,
            ) * base + char_value(digits(q, base).last()));
            assert(digits(q, base).drop_last() =~= Seq::<char>::empty());
            assert(digits(q, base)[0] != '0');
        }
    }
}

/// Upper-casing the digits keeps their value and leaves no lower-case letter.
pub proof fn lemma_cased_value(s: Seq<char>, base: nat, upper: bool)
    requires
        all_digits(s, base),
        base <= 16,
    ensures
        value_of(cased(s, upper), base) == value_of(s, base),
        all_digits(cased(s, upper), base),
        cased(s, upper).len() == s.len(),
        upper ==> no_lower(cased(s, true)),
    decreases s.len(),
{
    if upper {
        let c = cased(s, true);
        assert forall|i: int| 0 <= i < c.len() implies char_value(#[trigger] c[i]) < base
            && !(97 <= c[i] as u32 <= 122) by {
            lemma_upper_value(s[i]);
        }
        if s.len() > 0 {
            let d = s.drop_last();
            assert forall|i: int| 0 <= i < d.len() implies char_value(#[trigger] d[i]) < base by {
                assert(d[i] == s[i]);
            }
            lemma_cased_value(d, base, true);
            assert(c.drop_last() =~= cased(d, true));
            lemma_upper_value(s.last());
        }
    }
}

/// Leading zeros do not change a value.
pub proof fn lemma_zeros_value(n: nat, s: Seq<char>, base: nat)
    ensures
        value_of(Seq::new(n, |i: int| '0') + s, base) == value_of(s, base),
    decreases s.len(), n,
{
    let z = Seq::new(n, |i: int| '0');
    if s.len() == 0 {
        assert(z + s =~= z);
        if n > 0 {
            assert(z.drop_last() =~= Seq::new((n - 1) as nat, |i: int| '0'));
            lemma_zeros_value((n - 1) as nat, s, base);
            assert(Seq::new((n - 1) as nat, |i: int| '0') + s =~= Seq::new(
                (n - 1) as nat,
                |i: int| '0',
            ));
        }
    } else {
        assert((z + s).drop_last() =~= z + s.drop_last());
        lemma_zeros_value(n, s.drop_last(), base);
    }
}

/// `hex_text(v, width)` is `0x` and then upper-case hexadecimal digits, at
/// least `width` of them, that read back as `v`.
pub proof fn lemma_hex_text(v: nat, width: nat)
    ensures
        hex_text(v, width).len() >= 2 + width,
        hex_text(v, width)[0] == '0',
        hex_text(v, width)[1] == 'x',
        value_of(hex_text(v, width).skip(2), 16) == v,
        all_digits(hex_text(v, width).skip(2), 16),
        no_lower(hex_text(v, width).skip(2)),
{
    reveal_strlit("0x");
    let d = digits(v, 16);
    lemma_digits_value(v, 16);
    lemma_cased_value(d, 16, true);
    let c = cased(d, true);
    let t = hex_text(v, width);
    assert(t.skip(2) =~= pad_left(c, width, '0'));
    if c.len() < width {
        lemma_zeros_value((width - c.len()) as nat, c, 16);
        let p = pad_left(c, width, '0');
        assert forall|i: int| 0 <= i < p.len() implies char_value(#[trigger] p[i]) < 16 && !(97
            <= p[i] as u32 <= 122) by {
            if i >= width - c.len() {
                assert(p[i] == c[i - (width - c.len())]);
            }
        }
    }
}

/// The number that a signed decimal denotes: a leading `-` negates the
/// digits after it.
pub open spec fn signed_value(s: Seq<char>) -> int {
    if s.len() > 0 && s[0] == '-' {
        -value_of(s.skip(1), 10)
    } else {
        value_of(s, 10)
    }
}

/// A signed decimal filled with spaces to `width` is at least `width` long,
/// and without its leading spaces it reads back as `v`: a `-` for a negative
/// number, then decimal digits.
pub proof fn lemma_signed_text(v: int, width: nat)
    ensures
        pad_left(signed_digits(v), width, ' ').len() >= width,
        signed_value(trim_start(pad_left(signed_digits(v), width, ' '))) == v,
        all_digits(
            trim_start(pad_left(signed_digits(v), width, ' ')).skip(if v < 0 {
                1int
            } else {
                0int
            }),
            10,
        ),
{
    reveal_strlit("-");
    let sd = signed_digits(v);
    let m: nat = if v < 0 {
        (-v) as nat
    } else {
        v as nat
    };
    lemma_digits_value(m, 10);
    let d = digits(m, 10);
    let t = pad_left(sd, width, ' ');
    let k: int = if sd.len() < width {
        width - sd.len()
    } else {
        0
    };
    assert(t.subrange(k, t.len() as int) =~= sd);
    assert forall|j: int| 0 <= j < k implies is_ws(#[trigger] t[j]) by {}
    lemma_trim_start_skip(t, k);
    assert(sd.len() > 0);
    assert(!is_ws(sd[0])) by {
        if v < 0 {
            assert(sd[0] == '-');
        } else {
            assert(sd[0] == d[0]);
            assert(char_value(d[0]) < 10);
        }
    }
    assert(trim_start(sd) == sd);
    if v < 0 {
        assert(sd.skip(1) =~= d);
    } else {
        if d[0] == '-' {
            assert(char_value(d[0]) < 10);
        }
        assert(sd.skip(0) =~= d);
    }
}

/// Spaces in front of a text do not change what it reads as once trimmed.
pub proof fn lemma_trim_spaces_front(n: nat, t: Seq<char>)
    ensures
        trim_start(Seq::new(n, |i: int| ' ') + t) == trim_start(t),
{
    let u = Seq::new(n, |i: int| ' ') + t;
    assert forall|j: int| 0 <= j < n implies is_ws(#[trigger] u[j]) by {}
    lemma_trim_start_skip(u, n as int);
    assert(u.subrange(n as int, u.len() as int) =~= t);
}

/// The signed value of `v` as an `i32`: `v` below 2^31, else `v - 2^32`.
pub proof fn lemma_as_i32(v: u32)
    ensures
        (v as i32) as int == (if v < 0x8000_0000 {
            v as int
        } else {
            v as int - 0x1_0000_0000
        }),
{
    if v < 0x8000_0000 {
        assert(v < 0x8000_0000 ==> (v as i32) as int == v as int) by (bit_vector);
    } else {
        assert(v >= 0x8000_0000 ==> (v as i32) as int == v as int - 0x1_0000_0000) by (bit_vector);
    }
}

} // verus!
