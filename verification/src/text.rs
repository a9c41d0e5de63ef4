//! Character-level text handling: the views of `str` and `String` as
//! sequences of `char`, and the scanning, splitting, number parsing and
//! number formatting that the rest of the crate builds on.
use vstd::prelude::*;

verus! {

// ---------------------------------------------------------------------------
// Characters
// ---------------------------------------------------------------------------

/// Unicode `White_Space`, the set that `char::is_whitespace` tests.
pub open spec fn is_ws(c: char) -> bool {
    let u = c as u32;
    ||| 0x09 <= u <= 0x0D
    ||| u == 0x20
    ||| u == 0x85
    ||| u == 0xA0
    ||| u == 0x1680
    ||| 0x2000 <= u <= 0x200A
    ||| u == 0x2028
    ||| u == 0x2029
    ||| u == 0x202F
    ||| u == 0x205F
    ||| u == 0x3000
}

pub open spec fn is_digit(c: char) -> bool {
    '0' <= c && c <= '9'
}

pub open spec fn digit_value(c: char) -> nat {
    ((c as u32) - ('0' as u32)) as nat
}

pub open spec fn digit_char(d: nat) -> char {
    if d == 0 {
        '0'
    } else if d == 1 {
        '1'
    } else if d == 2 {
        '2'
    } else if d == 3 {
        '3'
    } else if d == 4 {
        '4'
    } else if d == 5 {
        '5'
    } else if d == 6 {
        '6'
    } else if d == 7 {
        '7'
    } else if d == 8 {
        '8'
    } else {
        '9'
    }
}

pub fn is_whitespace(c: char) -> (b: bool)
    ensures
        b == is_ws(c),
{
    let u = c as u32;
    (0x09 <= u && u <= 0x0D) || u == 0x20 || u == 0x85 || u == 0xA0 || u == 0x1680 || (0x2000
        <= u && u <= 0x200A) || u == 0x2028 || u == 0x2029 || u == 0x202F || u == 0x205F || u
        == 0x3000
}

pub fn is_ascii_digit(c: char) -> (b: bool)
    ensures
        b == is_digit(c),
{
    '0' <= c && c <= '9'
}

// ---------------------------------------------------------------------------
// Conversions between strings and character vectors
// ---------------------------------------------------------------------------

/// The characters of `s`, in order.
pub fn chars_of(s: &str) -> (out: Vec<char>)
    ensures
        out@ == s@,
{
    let mut out: Vec<char> = Vec::new();
    for c in it: s.chars()
        invariant
            out@ == it.seq().take(it.index() as int),
            it.seq() == s@,
    {
        out.push(c);
    }
    out
}

/// `String::push`: appends one character to the end of the string, which
/// is what the claim below says of its view.
#[verifier::external_body]
pub(crate) fn push_char(s: &mut String, c: char)
    ensures
        final(s)@ == old(s)@.push(c),
{
    s.push(c);
}

/// The string made of the characters of `chars`.
pub fn string_from(chars: &[char]) -> (s: String)
    ensures
        s@ == chars@,
{
    let mut s = String::new();
    let mut i: usize = 0;
    while i < chars.len()
        invariant
            i <= chars.len(),
            s@ == chars@.take(i as int),
        decreases chars.len() - i,
    {
        push_char(&mut s, chars[i]);
        i = i + 1;
        assert(chars@.take(i as int) == chars@.take(i - 1).push(chars@[i - 1]));
    }
    assert(chars@.take(i as int) == chars@);
    s
}

/// `a` followed by `b`.
pub fn concat(a: &str, b: &str) -> (s: String)
    ensures
        s@ == a@ + b@,
{
    let mut s = a.to_owned();
    s.append(b);
    s
}

/// Whether two strings hold the same characters.
pub fn str_eq(a: &str, b: &str) -> (r: bool)
    ensures
        r == (a@ == b@),
{
    let x = chars_of(a);
    let y = chars_of(b);
    seq_eq(x.as_slice(), y.as_slice())
}

pub fn seq_eq(a: &[char], b: &[char]) -> (r: bool)
    ensures
        r == (a@ == b@),
{
    if a.len() != b.len() {
        return false;
    }
    let mut i: usize = 0;
    while i < a.len()
        invariant
            i <= a.len(),
            a.len() == b.len(),
            forall|j: int| 0 <= j < i ==> a@[j] == b@[j],
        decreases a.len() - i,
    {
        if a[i] != b[i] {
            return false;
        }
        i = i + 1;
    }
    assert(a@ =~= b@);
    true
}

// ---------------------------------------------------------------------------
// Prefixes, suffixes and searching
// ---------------------------------------------------------------------------

pub open spec fn has_prefix(s: Seq<char>, p: Seq<char>) -> bool {
    p.len() <= s.len() && s.take(p.len() as int) == p
}

pub open spec fn has_suffix(s: Seq<char>, p: Seq<char>) -> bool {
    p.len() <= s.len() && s.skip(s.len() - p.len()) == p
}

pub fn starts_with(s: &[char], p: &[char]) -> (r: bool)
    ensures
        r == has_prefix(s@, p@),
{
    if p.len() > s.len() {
        return false;
    }
    let mut i: usize = 0;
    while i < p.len()
        invariant
            i <= p.len() <= s.len(),
            forall|j: int| 0 <= j < i ==> s@[j] == p@[j],
        decreases p.len() - i,
    {
        if s[i] != p[i] {
            assert(s@.take(p.len() as int)[i as int] != p@[i as int]);
            return false;
        }
        i = i + 1;
    }
    assert(s@.take(p.len() as int) =~= p@);
    true
}

/// `str::starts_with` with a string pattern.
pub fn str_starts_with(s: &str, p: &str) -> (r: bool)
    ensures
        r == has_prefix(s@, p@),
{
    let x = chars_of(s);
    let y = chars_of(p);
    starts_with(x.as_slice(), y.as_slice())
}

/// `str::strip_prefix` with a string pattern.
pub open spec fn strip_prefix(s: Seq<char>, p: Seq<char>) -> Option<Seq<char>> {
    if has_prefix(s, p) {
        Some(s.skip(p.len() as int))
    } else {
        None
    }
}

pub fn slice_skip(s: &[char], n: usize) -> (out: Vec<char>)
    requires
        n <= s.len(),
    ensures
        out@ == s@.skip(n as int),
{
    slice_range(s, n, s.len())
}

pub fn slice_range(s: &[char], from: usize, to: usize) -> (out: Vec<char>)
    requires
        from <= to <= s.len(),
    ensures
        out@ == s@.subrange(from as int, to as int),
{
    let mut out: Vec<char> = Vec::new();
    let mut i: usize = from;
    while i < to
        invariant
            from <= i <= to <= s.len(),
            out@ == s@.subrange(from as int, i as int),
        decreases to - i,
    {
        out.push(s[i]);
        i = i + 1;
        assert(s@.subrange(from as int, i as int) == s@.subrange(from as int, i - 1).push(
            s@[i - 1],
        ));
    }
    out
}

pub fn strip_prefix_chars(s: &[char], p: &[char]) -> (r: Option<Vec<char>>)
    ensures
        r matches Some(v) ==> strip_prefix(s@, p@) == Some(v@),
        r is None ==> strip_prefix(s@, p@) is None,
{
    if starts_with(s, p) {
        Some(slice_skip(s, p.len()))
    } else {
        None
    }
}

/// The first position at which `c` occurs in `s`, if any.
pub open spec fn find_char(s: Seq<char>, c: char) -> Option<int>
    decreases s.len(),
{
    if s.len() == 0 {
        None
    } else if s[0] == c {
        Some(0)
    } else {
        match find_char(s.drop_first(), c) {
            Some(i) => Some(i + 1),
            None => None,
        }
    }
}

pub proof fn lemma_find_char(s: Seq<char>, c: char)
    ensures
        find_char(s, c) matches Some(i) ==> 0 <= i < s.len() && s[i] == c && forall|j: int|
            0 <= j < i ==> s[j] != c,
        find_char(s, c) is None ==> forall|j: int| 0 <= j < s.len() ==> s[j] != c,
    decreases s.len(),
{
    if s.len() > 0 {
        lemma_find_char(s.drop_first(), c);
        if s[0] != c {
            assert forall|j: int| 1 <= j < s.len() implies s[j] == s.drop_first()[j - 1] by {}
        }
    }
}

/// Position of the first `c` in `s`.
pub fn position(s: &[char], c: char) -> (r: Option<usize>)
    ensures
        r matches Some(i) ==> find_char(s@, c) == Some(i as int) && i < s.len() && s@[i as int]
            == c,
        r is None ==> find_char(s@, c) is None,
{
    let mut i: usize = 0;
    while i < s.len()
        invariant
            i <= s.len(),
            forall|j: int| 0 <= j < i ==> s@[j] != c,
        decreases s.len() - i,
    {
        if s[i] == c {
            proof {
                lemma_find_char_first(s@, c, i as int);
            }
            return Some(i);
        }
        i = i + 1;
    }
    proof {
        lemma_find_char(s@, c);
        if find_char(s@, c) is Some {
            let k = find_char(s@, c)->0;
            assert(s@[k] == c);
        }
    }
    None
}

pub proof fn lemma_find_char_first(s: Seq<char>, c: char, i: int)
    requires
        0 <= i < s.len(),
        s[i] == c,
        forall|j: int| 0 <= j < i ==> s[j] != c,
    ensures
        find_char(s, c) == Some(i),
    decreases i,
{
    if i > 0 {
        lemma_find_char_first(s.drop_first(), c, i - 1);
    }
}

/// `str::split_once` with a character pattern.
pub open spec fn split_once(s: Seq<char>, c: char) -> Option<(Seq<char>, Seq<char>)> {
    match find_char(s, c) {
        Some(i) => Some((s.take(i), s.skip(i + 1))),
        None => None,
    }
}

pub fn split_once_chars(s: &[char], c: char) -> (r: Option<(Vec<char>, Vec<char>)>)
    ensures
        r matches Some(p) ==> split_once(s@, c) == Some((p.0@, p.1@)),
        r is None ==> split_once(s@, c) is None,
{
    match position(s, c) {
        Some(i) => {
            proof {
                lemma_find_char(s@, c);
            }
            Some((slice_range(s, 0, i), slice_skip(s, i + 1)))
        },
        None => None,
    }
}

// ---------------------------------------------------------------------------
// Decimal numbers
// ---------------------------------------------------------------------------

pub open spec fn all_digits(s: Seq<char>) -> bool {
    forall|i: int| 0 <= i < s.len() ==> is_digit(#[trigger] s[i])
}

/// The value of a string of decimal digits.
pub open spec fn digits_value(s: Seq<char>) -> nat
    decreases s.len(),
{
    if s.len() == 0 {
        0
    } else {
        digits_value(s.drop_last()) * 10 + digit_value(s.last())
    }
}

/// The digits that `from_str` of an unsigned integer reads: one leading
/// `+` is allowed.
pub open spec fn unsigned_digits(s: Seq<char>) -> Seq<char> {
    if s.len() > 0 && s[0] == '+' {
        s.drop_first()
    } else {
        s
    }
}

/// `u64::from_str`: an optional `+`, then one or more ASCII digits whose
/// value fits in a `u64`.
pub open spec fn parse_u64_spec(s: Seq<char>) -> Option<u64> {
    let d = unsigned_digits(s);
    if d.len() > 0 && all_digits(d) && digits_value(d) <= u64::MAX {
        Some(digits_value(d) as u64)
    } else {
        None
    }
}

/// `i32::from_str`: an optional sign, then one or more ASCII digits whose
/// value fits in an `i32`.
pub open spec fn parse_i32_spec(s: Seq<char>) -> Option<i32> {
    if s.len() > 0 && s[0] == '-' {
        let d = s.drop_first();
        if d.len() > 0 && all_digits(d) && digits_value(d) <= 0x8000_0000 {
            Some((-(digits_value(d) as int)) as i32)
        } else {
            None
        }
    } else {
        let d = unsigned_digits(s);
        if d.len() > 0 && all_digits(d) && digits_value(d) <= i32::MAX {
            Some(digits_value(d) as i32)
        } else {
            None
        }
    }
}

pub proof fn lemma_digits_value_prefix(s: Seq<char>, j: int)
    requires
        0 <= j <= s.len(),
    ensures
        digits_value(s.take(j)) <= digits_value(s),
    decreases s.len(),
{
    if j < s.len() {
        lemma_digits_value_prefix(s.drop_last(), j);
        assert(s.drop_last().take(j) == s.take(j));
    } else {
        assert(s.take(j) == s);
    }
}

/// The value of the digits `d`, or `None` where it exceeds `limit`.
fn digits_value_up_to(d: &[char], limit: u64) -> (r: Option<u64>)
    requires
        all_digits(d@),
    ensures
        r matches Some(v) ==> v == digits_value(d@) && v <= limit,
        r is None ==> digits_value(d@) > limit,
{
    let mut acc: u64 = 0;
    let mut i: usize = 0;
    while i < d.len()
        invariant
            i <= d.len(),
            all_digits(d@),
            acc == digits_value(d@.take(i as int)),
            acc <= limit,
        decreases d.len() - i,
    {
        let c = d[i];
        assert(is_digit(d@[i as int]));
        let v: u64 = ((c as u32) - ('0' as u32)) as u64;
        assert(d@.take(i + 1).drop_last() == d@.take(i as int));
        assert(d@.take(i + 1).last() == c);
        let over = match acc.checked_mul(10) {
            Some(m) => match m.checked_add(v) {
                Some(n) => {
                    if n <= limit {
                        acc = n;
                        false
                    } else {
                        true
                    }
                },
                None => true,
            },
            None => true,
        };
        if over {
            proof {
                lemma_digits_value_prefix(d@, i + 1);
            }
            return None;
        }
        i = i + 1;
    }
    assert(d@.take(i as int) == d@);
    Some(acc)
}

pub fn check_digits(d: &[char]) -> (r: bool)
    ensures
        r == all_digits(d@),
{
    let mut i: usize = 0;
    while i < d.len()
        invariant
            i <= d.len(),
            forall|j: int| 0 <= j < i ==> is_digit(#[trigger] d@[j]),
        decreases d.len() - i,
    {
        if !is_ascii_digit(d[i]) {
            return false;
        }
        i = i + 1;
    }
    true
}

/// `str::parse::<u64>`, on characters.
pub fn parse_u64_chars(s: &[char]) -> (r: Option<u64>)
    ensures
        r == parse_u64_spec(s@),
{
    let d = if s.len() > 0 && s[0] == '+' {
        slice_skip(s, 1)
    } else {
        slice_skip(s, 0)
    };
    assert(s@.skip(0) == s@);
    assert(d@ == unsigned_digits(s@));
    if d.len() == 0 || !check_digits(d.as_slice()) {
        return None;
    }
    digits_value_up_to(d.as_slice(), u64::MAX)
}

/// `str::parse::<u64>`.
pub fn parse_u64(s: &str) -> (r: Option<u64>)
    ensures
        r == parse_u64_spec(s@),
{
    let c = chars_of(s);
    parse_u64_chars(c.as_slice())
}

/// `str::parse::<i32>`, on characters.
pub fn parse_i32_chars(s: &[char]) -> (r: Option<i32>)
    ensures
        r == parse_i32_spec(s@),
{
    if s.len() > 0 && s[0] == '-' {
        let d = slice_skip(s, 1);
        if d.len() == 0 || !check_digits(d.as_slice()) {
            return None;
        }
        match digits_value_up_to(d.as_slice(), 0x8000_0000) {
            Some(v) => {
                let n: i64 = -(v as i64);
                Some(n as i32)
            },
            None => None,
        }
    } else {
        let d = if s.len() > 0 && s[0] == '+' {
            slice_skip(s, 1)
        } else {
            slice_skip(s, 0)
        };
        assert(s@.skip(0) == s@);
        if d.len() == 0 || !check_digits(d.as_slice()) {
            return None;
        }
        match digits_value_up_to(d.as_slice(), 0x7FFF_FFFF) {
            Some(v) => Some(v as i32),
            None => None,
        }
    }
}

/// `str::parse::<i32>`.
pub fn parse_i32(s: &str) -> (r: Option<i32>)
    ensures
        r == parse_i32_spec(s@),
{
    let c = chars_of(s);
    parse_i32_chars(c.as_slice())
}

/// The decimal digits of `n`, without sign or leading zeros.
pub open spec fn decimal(n: nat) -> Seq<char>
    decreases n,
{
    if n < 10 {
        seq![digit_char(n)]
    } else {
        decimal(n / 10).push(digit_char(n % 10))
    }
}

/// What `to_string` gives for a signed integer.
pub open spec fn signed_decimal(n: int) -> Seq<char> {
    if n < 0 {
        seq!['-'] + decimal((-n) as nat)
    } else {
        decimal(n as nat)
    }
}

fn push_decimal(out: &mut Vec<char>, n: u64)
    ensures
        final(out)@ == old(out)@ + decimal(n as nat),
    decreases n,
{
    if n >= 10 {
        push_decimal(out, n / 10);
    }
    let d = (n % 10) as u32;
    let c = char_from_digit(d);
    out.push(c);
    assert(decimal(n as nat) == (if n < 10 {
        seq![digit_char(n as nat)]
    } else {
        decimal((n / 10) as nat).push(digit_char((n % 10) as nat))
    }));
}

fn char_from_digit(d: u32) -> (c: char)
    requires
        d < 10,
    ensures
        c == digit_char(d as nat),
{
    if d == 0 {
        '0'
    } else if d == 1 {
        '1'
    } else if d == 2 {
        '2'
    } else if d == 3 {
        '3'
    } else if d == 4 {
        '4'
    } else if d == 5 {
        '5'
    } else if d == 6 {
        '6'
    } else if d == 7 {
        '7'
    } else if d == 8 {
        '8'
    } else {
        '9'
    }
}

/// `u64::to_string`.
pub fn u64_to_string(n: u64) -> (s: String)
    ensures
        s@ == decimal(n as nat),
{
    let mut v: Vec<char> = Vec::new();
    push_decimal(&mut v, n);
    assert(v@ == decimal(n as nat));
    string_from(v.as_slice())
}

/// `i64::to_string`.
pub fn i64_to_string(n: i64) -> (s: String)
    ensures
        s@ == signed_decimal(n as int),
{
    let mut v: Vec<char> = Vec::new();
    if n < 0 {
        v.push('-');
        let m: u64 = if n == i64::MIN {
            0x8000_0000_0000_0000u64
        } else {
            (-n) as u64
        };
        push_decimal(&mut v, m);
    } else {
        push_decimal(&mut v, n as u64);
    }
    string_from(v.as_slice())
}

/// `i32::to_string`.
pub fn i32_to_string(n: i32) -> (s: String)
    ensures
        s@ == signed_decimal(n as int),
{
    i64_to_string(n as i64)
}

pub proof fn lemma_digit_char(d: nat)
    requires
        d < 10,
    ensures
        is_digit(digit_char(d)),
        digit_value(digit_char(d)) == d,
{
}

pub proof fn lemma_decimal_digits(n: nat)
    ensures
        decimal(n).len() > 0,
        all_digits(decimal(n)),
        digits_value(decimal(n)) == n,
        decimal(n)[0] != '+' && decimal(n)[0] != '-',
    decreases n,
{
    lemma_digit_char(n % 10);
    if n >= 10 {
        lemma_decimal_digits(n / 10);
        let d = decimal(n);
        assert(d.drop_last() == decimal(n / 10));
        assert(d[0] == decimal(n / 10)[0]);
        assert(digits_value(d) == digits_value(decimal(n / 10)) * 10 + digit_value(
            digit_char(n % 10),
        ));
        assert((n / 10) * 10 + n % 10 == n);
    } else {
        let d = decimal(n);
        assert(d.drop_last() =~= Seq::<char>::empty());
        assert(digits_value(d.drop_last()) == 0);
    }
}

/// Reading back what `u64::to_string` writes gives the number.
pub proof fn lemma_parse_u64_decimal(n: u64)
    ensures
        parse_u64_spec(decimal(n as nat)) == Some(n),
{
    lemma_decimal_digits(n as nat);
}

/// Reading back what `i32::to_string` writes gives the number.
pub proof fn lemma_parse_i32_decimal(n: i32)
    ensures
        parse_i32_spec(signed_decimal(n as int)) == Some(n),
{
    if n < 0 {
        let m = (-(n as int)) as nat;
        lemma_decimal_digits(m);
        let s = signed_decimal(n as int);
        assert(s.drop_first() == decimal(m));
    } else {
        lemma_decimal_digits(n as nat);
    }
}


// ---------------------------------------------------------------------------
// Splitting
// ---------------------------------------------------------------------------

/// The character sequences held by a vector of character vectors.
pub open spec fn vviews(v: Seq<Vec<char>>) -> Seq<Seq<char>> {
    v.map_values(|x: Vec<char>| x@)
}

/// `str::split` with a character pattern: the pieces between the
/// occurrences of `c`, one more piece than there are occurrences.
pub open spec fn split_char(s: Seq<char>, c: char) -> Seq<Seq<char>>
    decreases s.len(),
{
    if s.len() == 0 {
        seq![Seq::<char>::empty()]
    } else {
        let p = split_char(s.drop_last(), c);
        if s.last() == c {
            p.push(Seq::<char>::empty())
        } else {
            p.update(p.len() - 1, p.last().push(s.last()))
        }
    }
}

pub proof fn lemma_split_char_len(s: Seq<char>, c: char)
    ensures
        split_char(s, c).len() >= 1,
    decreases s.len(),
{
    if s.len() > 0 {
        lemma_split_char_len(s.drop_last(), c);
    }
}

pub fn split_chars(s: &[char], c: char) -> (out: Vec<Vec<char>>)
    ensures
        vviews(out@) == split_char(s@, c),
{
    let mut out: Vec<Vec<char>> = Vec::new();
    let mut cur: Vec<char> = Vec::new();
    let mut i: usize = 0;
    while i < s.len()
        invariant
            i <= s.len(),
            vviews(out@).push(cur@) == split_char(s@.take(i as int), c),
        decreases s.len() - i,
    {
        let ghost before = s@.take(i as int);
        proof {
            lemma_split_char_len(before, c);
        }
        assert(s@.take(i + 1).drop_last() == before);
        if s[i] == c {
            out.push(cur);
            cur = Vec::new();
        } else {
            cur.push(s[i]);
        }
        i = i + 1;
        assert(vviews(out@).push(cur@) =~= split_char(s@.take(i as int), c));
    }
    assert(s@.take(i as int) == s@);
    out.push(cur);
    out
}

/// A line as `str::lines` gives it: without its `\n` and a `\r` just
/// before it.
pub open spec fn strip_cr(l: Seq<char>) -> Seq<char> {
    if l.len() > 0 && l.last() == '\r' {
        l.drop_last()
    } else {
        l
    }
}

/// `str::lines`: the text split at `\n`, each line without a `\r` just
/// before its `\n`, and no empty line after a final `\n`.
pub open spec fn lines(s: Seq<char>) -> Seq<Seq<char>> {
    let p = split_char(s, '\n');
    let ended = p.drop_last().map_values(|l: Seq<char>| strip_cr(l));
    if p.last().len() == 0 {
        ended
    } else {
        ended.push(p.last())
    }
}

fn strip_cr_vec(l: Vec<char>) -> (out: Vec<char>)
    ensures
        out@ == strip_cr(l@),
{
    let mut l = l;
    if l.len() > 0 && l[l.len() - 1] == '\r' {
        l.pop();
    }
    l
}

pub fn lines_of(s: &[char]) -> (out: Vec<Vec<char>>)
    ensures
        vviews(out@) == lines(s@),
{
    let mut out: Vec<Vec<char>> = Vec::new();
    let mut cur: Vec<char> = Vec::new();
    let mut i: usize = 0;
    while i < s.len()
        invariant
            i <= s.len(),
            split_char(s@.take(i as int), '\n').len() >= 1,
            vviews(out@) == split_char(s@.take(i as int), '\n').drop_last().map_values(
                |l: Seq<char>| strip_cr(l),
            ),
            cur@ == split_char(s@.take(i as int), '\n').last(),
        decreases s.len() - i,
    {
        let ghost before = s@.take(i as int);
        let ghost pb = split_char(before, '\n');
        assert(s@.take(i + 1).drop_last() == before);
        if s[i] == '\n' {
            let ghost old_out = out@;
            let done = strip_cr_vec(cur);
            let ghost d = done@;
            out.push(done);
            assert(vviews(out@) =~= vviews(old_out).push(d));
            assert(pb.map_values(|l: Seq<char>| strip_cr(l)) =~= pb.drop_last().map_values(
                |l: Seq<char>| strip_cr(l),
            ).push(strip_cr(pb.last())));
            cur = Vec::new();
        } else {
            cur.push(s[i]);
        }
        i = i + 1;
        let ghost pa = split_char(s@.take(i as int), '\n');
        assert(pa.drop_last() =~= (if s@[i - 1] == '\n' {
            pb
        } else {
            pb.drop_last()
        }));
        assert(vviews(out@) =~= pa.drop_last().map_values(|l: Seq<char>| strip_cr(l)));
    }
    assert(s@.take(i as int) == s@);
    if cur.len() > 0 {
        out.push(cur);
    }
    assert(vviews(out@) =~= lines(s@));
    out
}

/// `str::split_whitespace`: the maximal runs of characters that are not
/// whitespace.
pub open spec fn words(s: Seq<char>) -> Seq<Seq<char>>
    decreases s.len(),
{
    if s.len() == 0 {
        Seq::<Seq<char>>::empty()
    } else {
        let w = words(s.drop_last());
        let c = s.last();
        if is_ws(c) {
            w
        } else if s.len() >= 2 && !is_ws(s[s.len() - 2]) {
            w.update(w.len() - 1, w.last().push(c))
        } else {
            w.push(seq![c])
        }
    }
}

pub proof fn lemma_words_nonempty(s: Seq<char>)
    requires
        s.len() > 0,
        !is_ws(s.last()),
    ensures
        words(s).len() > 0,
    decreases s.len(),
{
    if s.len() >= 2 && !is_ws(s[s.len() - 2]) {
        lemma_words_nonempty(s.drop_last());
    }
}

pub fn words_of(s: &[char]) -> (out: Vec<Vec<char>>)
    ensures
        vviews(out@) == words(s@),
{
    let mut out: Vec<Vec<char>> = Vec::new();
    let mut i: usize = 0;
    while i < s.len()
        invariant
            i <= s.len(),
            vviews(out@) == words(s@.take(i as int)),
        decreases s.len() - i,
    {
        let ghost before = s@.take(i as int);
        let ghost after = s@.take(i + 1);
        assert(after.drop_last() == before);
        let c = s[i];
        if is_whitespace(c) {
        } else if i >= 1 && !is_whitespace(s[i - 1]) {
            proof {
                assert(before.last() == s@[i - 1]);
                lemma_words_nonempty(before);
            }
            let mut last = out.pop().unwrap();
            last.push(c);
            out.push(last);
            assert(after[after.len() - 2] == s@[i - 1]);
        } else {
            let mut w: Vec<char> = Vec::new();
            w.push(c);
            out.push(w);
            assert(w@ == seq![c]);
        }
        i = i + 1;
        assert(vviews(out@) =~= words(s@.take(i as int)));
    }
    assert(s@.take(i as int) == s@);
    out
}

/// The first whitespace-separated field, as `split_whitespace().next()`.
pub open spec fn first_word(s: Seq<char>) -> Option<Seq<char>> {
    if words(s).len() > 0 {
        Some(words(s)[0])
    } else {
        None
    }
}

// ---------------------------------------------------------------------------
// Trimming
// ---------------------------------------------------------------------------

pub open spec fn trim_start(s: Seq<char>) -> Seq<char>
    decreases s.len(),
{
    if s.len() > 0 && is_ws(s[0]) {
        trim_start(s.drop_first())
    } else {
        s
    }
}

pub open spec fn trim_end(s: Seq<char>) -> Seq<char>
    decreases s.len(),
{
    if s.len() > 0 && is_ws(s.last()) {
        trim_end(s.drop_last())
    } else {
        s
    }
}

/// `str::trim`.
pub open spec fn trim(s: Seq<char>) -> Seq<char> {
    trim_end(trim_start(s))
}

/// `str::trim_start_matches` with a character pattern.
pub open spec fn trim_start_char(s: Seq<char>, c: char) -> Seq<char>
    decreases s.len(),
{
    if s.len() > 0 && s[0] == c {
        trim_start_char(s.drop_first(), c)
    } else {
        s
    }
}

/// `str::trim_end_matches` with a character pattern.
pub open spec fn trim_end_char(s: Seq<char>, c: char) -> Seq<char>
    decreases s.len(),
{
    if s.len() > 0 && s.last() == c {
        trim_end_char(s.drop_last(), c)
    } else {
        s
    }
}

pub fn trim_chars(s: &[char]) -> (out: Vec<char>)
    ensures
        out@ == trim(s@),
{
    let mut a: usize = 0;
    assert(s@.skip(0) == s@);
    while a < s.len() && is_whitespace(s[a])
        invariant
            a <= s.len(),
            trim_start(s@) == trim_start(s@.skip(a as int)),
        decreases s.len() - a,
    {
        assert(s@.skip(a as int).drop_first() == s@.skip(a + 1));
        a = a + 1;
    }
    assert(trim_start(s@) == s@.skip(a as int));
    let mut b: usize = s.len();
    while b > a && is_whitespace(s[b - 1])
        invariant
            a <= b <= s.len(),
            trim(s@) == trim_end(s@.subrange(a as int, b as int)),
        decreases b,
    {
        assert(s@.subrange(a as int, b as int).drop_last() == s@.subrange(a as int, b - 1));
        b = b - 1;
    }
    slice_range(s, a, b)
}

/// `str::trim`.
pub fn trim_str(s: &str) -> (out: Vec<char>)
    ensures
        out@ == trim(s@),
{
    let c = chars_of(s);
    trim_chars(c.as_slice())
}

/// `str::trim_matches` with a character pattern.
pub fn trim_matches_char(s: &[char], c: char) -> (out: Vec<char>)
    ensures
        out@ == trim_end_char(trim_start_char(s@, c), c),
{
    let mut a: usize = 0;
    assert(s@.skip(0) == s@);
    while a < s.len() && s[a] == c
        invariant
            a <= s.len(),
            trim_start_char(s@, c) == trim_start_char(s@.skip(a as int), c),
        decreases s.len() - a,
    {
        assert(s@.skip(a as int).drop_first() == s@.skip(a + 1));
        a = a + 1;
    }
    assert(trim_start_char(s@, c) == s@.skip(a as int));
    let mut b: usize = s.len();
    while b > a && s[b - 1] == c
        invariant
            a <= b <= s.len(),
            trim_end_char(trim_start_char(s@, c), c) == trim_end_char(
                s@.subrange(a as int, b as int),
                c,
            ),
        decreases b,
    {
        assert(s@.subrange(a as int, b as int).drop_last() == s@.subrange(a as int, b - 1));
        b = b - 1;
    }
    slice_range(s, a, b)
}

/// `str::trim_start_matches` with a character pattern.
pub fn trim_start_matches_char(s: &[char], c: char) -> (out: Vec<char>)
    ensures
        out@ == trim_start_char(s@, c),
{
    let mut a: usize = 0;
    assert(s@.skip(0) == s@);
    while a < s.len() && s[a] == c
        invariant
            a <= s.len(),
            trim_start_char(s@, c) == trim_start_char(s@.skip(a as int), c),
        decreases s.len() - a,
    {
        assert(s@.skip(a as int).drop_first() == s@.skip(a + 1));
        a = a + 1;
    }
    slice_skip(s, a)
}

// ---------------------------------------------------------------------------
// Substrings
// ---------------------------------------------------------------------------

/// The first position at which `n` occurs in `s`, as `str::find`.
pub open spec fn find_str(s: Seq<char>, n: Seq<char>) -> Option<int>
    decreases s.len(),
{
    if has_prefix(s, n) {
        Some(0)
    } else if s.len() == 0 {
        None
    } else {
        match find_str(s.drop_first(), n) {
            Some(i) => Some(i + 1),
            None => None,
        }
    }
}

/// `str::contains` with a string pattern.
pub open spec fn contains_str(s: Seq<char>, n: Seq<char>) -> bool {
    find_str(s, n) is Some
}

fn matches_at(s: &[char], n: &[char], i: usize) -> (r: bool)
    requires
        i <= s.len(),
    ensures
        r == has_prefix(s@.skip(i as int), n@),
{
    if n.len() > s.len() - i {
        return false;
    }
    let mut j: usize = 0;
    while j < n.len()
        invariant
            i <= s.len(),
            j <= n.len() <= s.len() - i,
            forall|k: int| 0 <= k < j ==> s@[i + k] == n@[k],
        decreases n.len() - j,
    {
        if s[i + j] != n[j] {
            assert(s@.skip(i as int).take(n.len() as int)[j as int] != n@[j as int]);
            return false;
        }
        j = j + 1;
    }
    assert(s@.skip(i as int).take(n.len() as int) =~= n@);
    true
}

/// Position of the first occurrence of `n` in `s`.
pub fn find_chars(s: &[char], n: &[char]) -> (r: Option<usize>)
    ensures
        r matches Some(i) ==> find_str(s@, n@) == Some(i as int) && i + n.len() <= s.len(),
        r is None ==> find_str(s@, n@) is None,
{
    let mut i: usize = 0;
    while i <= s.len()
        invariant
            i <= s.len() + 1,
            forall|k: int| 0 <= k < i ==> !has_prefix(#[trigger] s@.skip(k), n@),
        decreases s.len() + 1 - i,
    {
        if matches_at(s, n, i) {
            proof {
                lemma_find_str_prefix(s@, n@, i as int);
            }
            return Some(i);
        }
        if i == s.len() {
            proof {
                lemma_find_str_none(s@, n@);
            }
            return None;
        }
        i = i + 1;
    }
    proof {
        lemma_find_str_none(s@, n@);
    }
    None
}

pub proof fn lemma_find_str_prefix(s: Seq<char>, n: Seq<char>, i: int)
    requires
        0 <= i <= s.len(),
        has_prefix(s.skip(i), n),
        forall|k: int| 0 <= k < i ==> !has_prefix(#[trigger] s.skip(k), n),
    ensures
        find_str(s, n) == Some(i),
        i + n.len() <= s.len(),
    decreases i,
{
    if i > 0 {
        assert(!has_prefix(s.skip(0), n));
        assert(s.skip(0) == s);
        assert forall|k: int| 0 <= k < i - 1 implies !has_prefix(
            #[trigger] s.drop_first().skip(k),
            n,
        ) by {
            assert(s.drop_first().skip(k) == s.skip(k + 1));
        }
        assert(s.drop_first().skip(i - 1) == s.skip(i));
        lemma_find_str_prefix(s.drop_first(), n, i - 1);
    } else {
        assert(s.skip(0) == s);
    }
}

pub proof fn lemma_find_str_none(s: Seq<char>, n: Seq<char>)
    requires
        forall|k: int| 0 <= k <= s.len() ==> !has_prefix(#[trigger] s.skip(k), n),
    ensures
        find_str(s, n) is None,
    decreases s.len(),
{
    assert(s.skip(0) == s);
    if s.len() > 0 {
        assert forall|k: int| 0 <= k <= s.drop_first().len() implies !has_prefix(
            #[trigger] s.drop_first().skip(k),
            n,
        ) by {
            assert(s.drop_first().skip(k) == s.skip(k + 1));
        }
        lemma_find_str_none(s.drop_first(), n);
    }
}

pub fn contains_chars(s: &[char], n: &[char]) -> (r: bool)
    ensures
        r == contains_str(s@, n@),
{
    find_chars(s, n).is_some()
}

/// `str::contains` with a string pattern.
pub fn str_contains(s: &str, n: &str) -> (r: bool)
    ensures
        r == contains_str(s@, n@),
{
    let x = chars_of(s);
    let y = chars_of(n);
    contains_chars(x.as_slice(), y.as_slice())
}

/// The last position at which `c` occurs in `s`, as `str::rfind`.
pub open spec fn rfind_char(s: Seq<char>, c: char) -> Option<int>
    decreases s.len(),
{
    if s.len() == 0 {
        None
    } else if s.last() == c {
        Some(s.len() - 1)
    } else {
        rfind_char(s.drop_last(), c)
    }
}

pub fn rposition(s: &[char], c: char) -> (r: Option<usize>)
    ensures
        r matches Some(i) ==> rfind_char(s@, c) == Some(i as int) && i < s.len(),
        r is None ==> rfind_char(s@, c) is None,
{
    let mut b: usize = s.len();
    assert(s@.take(b as int) == s@);
    while b > 0
        invariant
            b <= s.len(),
            rfind_char(s@, c) == rfind_char(s@.take(b as int), c),
        decreases b,
    {
        assert(s@.take(b as int).last() == s@[b - 1]);
        if s[b - 1] == c {
            return Some(b - 1);
        }
        assert(s@.take(b as int).drop_last() == s@.take(b - 1));
        b = b - 1;
    }
    None
}

// ---------------------------------------------------------------------------
// Joining
// ---------------------------------------------------------------------------

/// The pieces with `sep` between each two of them, as `join`.
pub open spec fn join(pieces: Seq<Seq<char>>, sep: Seq<char>) -> Seq<char>
    decreases pieces.len(),
{
    if pieces.len() == 0 {
        Seq::<char>::empty()
    } else if pieces.len() == 1 {
        pieces[0]
    } else {
        join(pieces.drop_last(), sep) + sep + pieces.last()
    }
}

/// `[String]::join`.
pub fn join_strings(pieces: &Vec<String>, sep: &str) -> (s: String)
    ensures
        s@ == join(svs(pieces@), sep@),
{
    let mut s = String::new();
    let mut i: usize = 0;
    while i < pieces.len()
        invariant
            i <= pieces.len(),
            s@ == join(svs(pieces@).take(i as int), sep@),
        decreases pieces.len() - i,
    {
        let ghost before = svs(pieces@).take(i as int);
        assert(svs(pieces@).take(i + 1).drop_last() == before);
        if i > 0 {
            s.append(sep);
        }
        s.append(pieces[i].as_str());
        i = i + 1;
        assert(svs(pieces@).take(i as int).last() == pieces[i - 1]@);
        if i == 1 {
            assert(before.len() == 0);
        }
    }
    assert(svs(pieces@).take(i as int) == svs(pieces@));
    s
}


// ---------------------------------------------------------------------------
// Owned strings
// ---------------------------------------------------------------------------

/// The character sequences held by a sequence of strings.
pub open spec fn svs(v: Seq<String>) -> Seq<Seq<char>> {
    v.map_values(|x: String| x@)
}

/// The characters of an optional string.
pub open spec fn opt_view(o: Option<String>) -> Option<Seq<char>> {
    match o {
        Some(s) => Some(s@),
        None => None,
    }
}

/// An owned copy of `s`.
pub fn owned(s: &str) -> (out: String)
    ensures
        out@ == s@,
{
    s.to_owned()
}

/// A copy of `s`.
pub fn copy_string(s: &String) -> (out: String)
    ensures
        out@ == s@,
{
    s.clone()
}

/// `a`, then `b`, then `c`.
pub fn concat3(a: &str, b: &str, c: &str) -> (s: String)
    ensures
        s@ == a@ + b@ + c@,
{
    let mut s = a.to_owned();
    s.append(b);
    s.append(c);
    s
}

/// A copy of a vector of strings.
pub fn copy_strings(v: &Vec<String>) -> (out: Vec<String>)
    ensures
        svs(out@) == svs(v@),
{
    let mut out: Vec<String> = Vec::new();
    let mut i: usize = 0;
    while i < v.len()
        invariant
            i <= v.len(),
            svs(out@) == svs(v@).take(i as int),
        decreases v.len() - i,
    {
        let c = copy_string(&v[i]);
        let ghost before = out@;
        out.push(c);
        assert(svs(out@) =~= svs(before).push(c@));
        i = i + 1;
        assert(svs(out@) =~= svs(v@).take(i as int));
    }
    assert(svs(v@).take(i as int) == svs(v@));
    out
}
proof fn lemma_find_str_found(s: Seq<char>, n: Seq<char>)
    ensures
        find_str(s, n) matches Some(i) ==> 0 <= i <= s.len() && has_prefix(s.skip(i), n),
    decreases s.len(),
{
    assert(s.skip(0) =~= s);
    if !has_prefix(s, n) && s.len() > 0 {
        lemma_find_str_found(s.drop_first(), n);
        if let Some(i) = find_str(s.drop_first(), n) {
            assert(s.drop_first().skip(i) =~= s.skip(i + 1));
        }
    }
}

proof fn lemma_find_str_at(s: Seq<char>, n: Seq<char>, k: int)
    requires
        0 <= k <= s.len(),
        has_prefix(s.skip(k), n),
    ensures
        contains_str(s, n),
    decreases k,
{
    assert(s.skip(0) =~= s);
    if !has_prefix(s, n) {
        assert(k > 0);
        assert(s.drop_first().skip(k - 1) =~= s.skip(k));
        lemma_find_str_at(s.drop_first(), n, k - 1);
    }
}

/// Text found in either part of a concatenation is found in the whole.
pub proof fn lemma_contains_concat(a: Seq<char>, b: Seq<char>, n: Seq<char>)
    ensures
        contains_str(a, n) ==> contains_str(a + b, n),
        contains_str(b, n) ==> contains_str(a + b, n),
{
    lemma_find_str_found(a, n);
    lemma_find_str_found(b, n);
    if let Some(k) = find_str(a, n) {
        assert((a + b).skip(k).take(n.len() as int) =~= a.skip(k).take(n.len() as int));
        lemma_find_str_at(a + b, n, k);
    }
    if let Some(k) = find_str(b, n) {
        assert((a + b).skip(a.len() + k) =~= b.skip(k));
        lemma_find_str_at(a + b, n, a.len() + k);
    }
}

} // verus!
