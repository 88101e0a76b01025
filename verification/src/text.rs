//! Strings as sequences of characters: comparing, splitting, trimming, numbers.

use vstd::prelude::*;
use vstd::utf8::*;

verus! {

/// `String::push` appends the given character to the end of the string.
pub assume_specification[ String::push ](s: &mut String, c: char)
    ensures
        final(s)@ == old(s)@.push(c),
;

// ---------------------------------------------------------------------------------------------
// Views
// ---------------------------------------------------------------------------------------------

/// The contents of an optional string.
pub open spec fn opt_view(o: Option<String>) -> Option<Seq<char>> {
    match o {
        Some(s) => Some(s@),
        None => None,
    }
}

/// The contents of an optional string slice.
pub open spec fn opt_str_view(o: Option<&str>) -> Option<Seq<char>> {
    match o {
        Some(s) => Some(s@),
        None => None,
    }
}

/// The contents of each string of a list.
pub open spec fn strings_view(v: Seq<String>) -> Seq<Seq<char>> {
    Seq::new(v.len(), |i: int| v[i]@)
}

/// The contents of each string slice of a list.
pub open spec fn strs_view(v: Seq<&str>) -> Seq<Seq<char>> {
    Seq::new(v.len(), |i: int| v[i]@)
}

/// The contents of an optional string, or the empty text.
pub open spec fn text_or_empty(o: Option<Seq<char>>) -> Seq<char> {
    match o {
        Some(s) => s,
        None => Seq::empty(),
    }
}

// ---------------------------------------------------------------------------------------------
// Characters
// ---------------------------------------------------------------------------------------------

/// The Unicode property White_Space.
pub open spec fn is_whitespace(c: char) -> bool {
    let n = c as u32;
    ||| 0x09 <= n <= 0x0d
    ||| n == 0x20
    ||| n == 0x85
    ||| n == 0xa0
    ||| n == 0x1680
    ||| 0x2000 <= n <= 0x200a
    ||| n == 0x2028
    ||| n == 0x2029
    ||| n == 0x202f
    ||| n == 0x205f
    ||| n == 0x3000
}

/// The Unicode general category Cc: the C0 and C1 controls and DEL.
pub open spec fn is_control(c: char) -> bool {
    let n = c as u32;
    n <= 0x1f || 0x7f <= n <= 0x9f
}

/// The lower-case form of an ASCII letter; every other character stays.
pub open spec fn ascii_lower(c: char) -> char {
    let n = c as u32;
    if 0x41 <= n <= 0x5a {
        (n + 0x20) as u8 as char
    } else {
        c
    }
}

/// `ascii_lower` at each position.
pub open spec fn ascii_lower_all(s: Seq<char>) -> Seq<char> {
    Seq::new(s.len(), |i: int| ascii_lower(s[i]))
}

/// Tells whether `c` is white space.
pub fn char_is_whitespace(c: char) -> (r: bool)
    ensures
        r == is_whitespace(c),
{
    let n: u32 = c as u32;
    (0x09 <= n && n <= 0x0d) || n == 0x20 || n == 0x85 || n == 0xa0 || n == 0x1680 || (0x2000 <= n && n
        <= 0x200a) || n == 0x2028 || n == 0x2029 || n == 0x202f || n == 0x205f || n == 0x3000
}

/// Tells whether `c` is a control character.
pub fn char_is_control(c: char) -> (r: bool)
    ensures
        r == is_control(c),
{
    let n: u32 = c as u32;
    n <= 0x1f || (0x7f <= n && n <= 0x9f)
}

/// The lower-case form of `c` where it is an ASCII letter, `c` elsewhere.
pub fn char_ascii_lower(c: char) -> (r: char)
    ensures
        r == ascii_lower(c),
{
    let n: u32 = c as u32;
    if 0x41 <= n && n <= 0x5a {
        (n + 0x20) as u8 as char
    } else {
        c
    }
}

// ---------------------------------------------------------------------------------------------
// Characters of a string
// ---------------------------------------------------------------------------------------------

/// The characters of a string, one by one.
pub fn to_chars(s: &str) -> (r: Vec<char>)
    ensures
        r@ == s@,
{
    let mut r: Vec<char> = Vec::new();
    for c in it: s.chars()
        invariant
            r@ == s@.take(it.index()),
            it.seq() == s@,
    {
        r.push(c);
        assert(s@.take(it.index() + 1) == s@.take(it.index()).push(c));
    }
    assert(s@.take(s@.len() as int) == s@);
    r
}

/// The string made of the characters `from..to` of `chars`.
pub fn from_chars(chars: &Vec<char>, from: usize, to: usize) -> (r: String)
    requires
        from <= to <= chars@.len(),
    ensures
        r@ == chars@.subrange(from as int, to as int),
{
    let mut r = String::new();
    let mut i: usize = from;
    while i < to
        invariant
            from <= i <= to <= chars@.len(),
            r@ == chars@.subrange(from as int, i as int),
        decreases to - i,
    {
        r.push(chars[i]);
        i = i + 1;
        assert(chars@.subrange(from as int, i as int) == chars@.subrange(from as int, i - 1).push(
            chars@[i - 1],
        ));
    }
    r
}

/// Tells whether two strings hold the same text.
pub fn str_eq(a: &str, b: &str) -> (r: bool)
    ensures
        r == (a@ == b@),
{
    let x = to_chars(a);
    let y = to_chars(b);
    if x.len() != y.len() {
        return false;
    }
    let mut i: usize = 0;
    while i < x.len()
        invariant
            x@ == a@,
            y@ == b@,
            x@.len() == y@.len(),
            i <= x@.len(),
            forall|j: int| 0 <= j < i ==> x@[j] == y@[j],
        decreases x@.len() - i,
    {
        if x[i] != y[i] {
            return false;
        }
        i = i + 1;
    }
    assert(a@ =~= b@);
    true
}

/// Tells whether the characters of `x` from position `at` on begin with those of `p`.
pub fn matches_at(x: &Vec<char>, at: usize, p: &Vec<char>) -> (r: bool)
    requires
        at <= x@.len(),
    ensures
        r == (at + p@.len() <= x@.len() && x@.subrange(at as int, at + p@.len()) == p@),
{
    if x.len() - at < p.len() {
        return false;
    }
    let n: usize = x.len();
    let mut i: usize = 0;
    while i < p.len()
        invariant
            i <= p@.len(),
            at + p@.len() <= x@.len(),
            n == x@.len(),
            forall|j: int| 0 <= j < i ==> x@[at + j] == p@[j],
        decreases p@.len() - i,
    {
        if x[at + i] != p[i] {
            assert(x@.subrange(at as int, at + p@.len())[i as int] != p@[i as int]);
            return false;
        }
        i = i + 1;
    }
    assert(x@.subrange(at as int, at + p@.len()) =~= p@);
    true
}

/// Tells whether `s` begins with `p`.
pub fn starts_with(s: &str, p: &str) -> (r: bool)
    ensures
        r == p@.is_prefix_of(s@),
{
    let x = to_chars(s);
    let y = to_chars(p);
    matches_at(&x, 0, &y)
}

/// Tells whether `s` ends with `p`.
pub fn ends_with(s: &str, p: &str) -> (r: bool)
    ensures
        r == p@.is_suffix_of(s@),
{
    let x = to_chars(s);
    let y = to_chars(p);
    if x.len() < y.len() {
        return false;
    }
    matches_at(&x, x.len() - y.len(), &y)
}

/// `p` occurs in `s` somewhere.
pub open spec fn has_substring(s: Seq<char>, p: Seq<char>) -> bool {
    exists|i: int| occurs_at(s, p, i)
}

/// `p` occurs in `s` at position `i`.
pub open spec fn occurs_at(s: Seq<char>, p: Seq<char>, i: int) -> bool {
    0 <= i && i + p.len() <= s.len() && s.subrange(i, i + p.len()) == p
}

/// Tells whether `p` occurs in `s`.
pub fn contains_str(s: &str, p: &str) -> (r: bool)
    ensures
        r == has_substring(s@, p@),
{
    let x = to_chars(s);
    let y = to_chars(p);
    let mut i: usize = 0;
    while i < x.len()
        invariant
            x@ == s@,
            y@ == p@,
            i <= x@.len(),
            forall|j: int| 0 <= j < i ==> !occurs_at(s@, p@, j),
        decreases x@.len() - i,
    {
        if matches_at(&x, i, &y) {
            assert(occurs_at(s@, p@, i as int));
            return true;
        }
        i = i + 1;
    }
    if matches_at(&x, i, &y) {
        assert(occurs_at(s@, p@, i as int));
        return true;
    }
    false
}

// ---------------------------------------------------------------------------------------------
// Positions and splitting
// ---------------------------------------------------------------------------------------------

/// The position of the first `c` in `s`; the length of `s` where there is none.
pub open spec fn position(s: Seq<char>, c: char) -> nat
    decreases s.len(),
{
    if s.len() == 0 || s[0] == c {
        0
    } else {
        1 + position(s.drop_first(), c)
    }
}

/// `position` is the only place whose predecessors differ from `c` and which holds `c` or is the end.
pub proof fn lemma_position(s: Seq<char>, c: char, p: nat)
    requires
        p <= s.len(),
        forall|j: int| 0 <= j < p ==> s[j] != c,
        p < s.len() ==> s[p as int] == c,
    ensures
        position(s, c) == p,
    decreases s.len(),
{
    if s.len() != 0 && s[0] != c {
        let t = s.drop_first();
        assert forall|j: int| 0 <= j < p - 1 implies t[j] != c by {
            assert(t[j] == s[j + 1]);
        }
        lemma_position(t, c, (p - 1) as nat);
    }
}

/// What `position` finds.
pub proof fn lemma_position_found(s: Seq<char>, c: char)
    ensures
        position(s, c) <= s.len(),
        forall|j: int| 0 <= j < position(s, c) ==> s[j] != c,
        position(s, c) < s.len() ==> s[position(s, c) as int] == c,
        position(s, c) == s.len() <==> !s.contains(c),
    decreases s.len(),
{
    if s.len() != 0 && s[0] != c {
        let t = s.drop_first();
        lemma_position_found(t, c);
        assert forall|j: int| 0 <= j < position(s, c) implies s[j] != c by {
            if j > 0 {
                assert(s[j] == t[j - 1]);
            }
        }
    }
    if position(s, c) < s.len() {
        assert(s.contains(c));
    } else if s.contains(c) {
        let i = choose|i: int| 0 <= i < s.len() && s[i] == c;
        assert(s[i] != c);
    }
}

/// The position of the first `c` at or after `from` in `x`, or the length of `x`.
pub fn find_from(x: &Vec<char>, from: usize, c: char) -> (r: usize)
    requires
        from <= x@.len(),
    ensures
        from <= r <= x@.len(),
        r - from == position(x@.skip(from as int), c),
        forall|j: int| from <= j < r ==> x@[j] != c,
        r < x@.len() ==> x@[r as int] == c,
{
    let mut i: usize = from;
    while i < x.len()
        invariant_except_break
            from <= i <= x@.len(),
            forall|j: int| from <= j < i ==> x@[j] != c,
        ensures
            from <= i <= x@.len(),
            forall|j: int| from <= j < i ==> x@[j] != c,
            i < x@.len() ==> x@[i as int] == c,
        decreases x@.len() - i,
    {
        if x[i] == c {
            break;
        }
        i = i + 1;
    }
    proof {
        let t = x@.skip(from as int);
        assert forall|j: int| 0 <= j < i - from implies t[j] != c by {
            assert(t[j] == x@[j + from]);
        }
        lemma_position(t, c, (i - from) as nat);
    }
    i
}

/// The pieces of `s` between the occurrences of `c`.
pub open spec fn split_on(s: Seq<char>, c: char) -> Seq<Seq<char>>
    decreases s.len(),
{
    let p = position(s, c);
    if p >= s.len() {
        seq![s]
    } else {
        seq![s.take(p as int)] + split_on(s.skip(p as int + 1), c)
    }
}

/// The text before and the text after the first `c`, where there is one.
pub open spec fn split_once(s: Seq<char>, c: char) -> Option<(Seq<char>, Seq<char>)> {
    let p = position(s, c);
    if p >= s.len() {
        None
    } else {
        Some((s.take(p as int), s.skip(p as int + 1)))
    }
}

/// Splits `s` at the first `c`.
pub fn str_split_once<'a>(s: &'a str, c: char) -> (r: Option<(&'a str, &'a str)>)
    ensures
        match r {
            Some((a, b)) => split_once(s@, c) == Some((a@, b@)),
            None => split_once(s@, c) is None,
        },
{
    let x = to_chars(s);
    let p: usize = find_from(&x, 0, c);
    assert(x@.skip(0) =~= x@);
    if p == x.len() {
        None
    } else {
        Some((s.substring_char(0, p), s.substring_char(p + 1, x.len())))
    }
}

/// Splitting off the first part of a text that has one before `c`.
pub proof fn lemma_split_once_join(a: Seq<char>, c: char, b: Seq<char>)
    requires
        !a.contains(c),
    ensures
        split_once(a + seq![c] + b, c) == Some((a, b)),
{
    let s = a + seq![c] + b;
    assert(s[a.len() as int] == c);
    assert forall|j: int| 0 <= j < a.len() implies s[j] != c by {
        assert(a.contains(a[j]));
    }
    lemma_position(s, c, a.len());
    assert(s.take(a.len() as int) =~= a);
    assert(s.skip(a.len() as int + 1) =~= b);
}

/// The pieces of two texts with a `c` between are the pieces of the one and those of the other.
pub proof fn lemma_split_on_join(a: Seq<char>, c: char, b: Seq<char>)
    ensures
        split_on(a + seq![c] + b, c) == split_on(a, c) + split_on(b, c),
    decreases a.len(),
{
    let s = a + seq![c] + b;
    lemma_position_found(a, c);
    let q = position(a, c);
    assert forall|j: int| 0 <= j < q implies s[j] != c by {
        assert(s[j] == a[j]);
    }
    lemma_position(s, c, q);
    if q < a.len() {
        assert(s.take(q as int) =~= a.take(q as int));
        assert(s.skip(q as int + 1) =~= a.skip(q as int + 1) + seq![c] + b);
        lemma_split_on_join(a.skip(q as int + 1), c, b);
        assert(split_on(s, c) =~= split_on(a, c) + split_on(b, c));
    } else {
        assert(s.take(q as int) =~= a);
        assert(s.skip(q as int + 1) =~= b);
    }
}

// ---------------------------------------------------------------------------------------------
// Trimming
// ---------------------------------------------------------------------------------------------

/// `s` without the white space at its start.
pub open spec fn trimmed_start(s: Seq<char>) -> Seq<char>
    decreases s.len(),
{
    if s.len() > 0 && is_whitespace(s[0]) {
        trimmed_start(s.drop_first())
    } else {
        s
    }
}

/// `s` without the white space at its end.
pub open spec fn trimmed_end(s: Seq<char>) -> Seq<char>
    decreases s.len(),
{
    if s.len() > 0 && is_whitespace(s.last()) {
        trimmed_end(s.drop_last())
    } else {
        s
    }
}

/// `s` without the white space at its two ends.
pub open spec fn trimmed(s: Seq<char>) -> Seq<char> {
    trimmed_end(trimmed_start(s))
}

proof fn lemma_trimmed_start(s: Seq<char>, i: int)
    requires
        0 <= i <= s.len(),
        forall|j: int| 0 <= j < i ==> is_whitespace(s[j]),
        i < s.len() ==> !is_whitespace(s[i]),
    ensures
        trimmed_start(s) == s.skip(i),
    decreases i,
{
    if i > 0 {
        let t = s.drop_first();
        assert forall|j: int| 0 <= j < i - 1 implies is_whitespace(t[j]) by {
            assert(t[j] == s[j + 1]);
        }
        if i < s.len() {
            assert(t[i - 1] == s[i]);
        }
        lemma_trimmed_start(t, i - 1);
        assert(t.skip(i - 1) =~= s.skip(i));
    } else {
        assert(s.skip(0) =~= s);
    }
}

proof fn lemma_trimmed_end(s: Seq<char>, n: int)
    requires
        0 <= n <= s.len(),
        forall|j: int| n <= j < s.len() ==> is_whitespace(s[j]),
        n > 0 ==> !is_whitespace(s[n - 1]),
    ensures
        trimmed_end(s) == s.take(n),
    decreases s.len(),
{
    if n < s.len() {
        assert(is_whitespace(s.last()));
        lemma_trimmed_end(s.drop_last(), n);
        assert(s.drop_last().take(n) =~= s.take(n));
    } else {
        assert(s.take(n) =~= s);
    }
}

/// A text that neither begins nor ends with white space is its own trimmed form.
pub proof fn lemma_trimmed_same(s: Seq<char>)
    requires
        s.len() > 0 ==> !is_whitespace(s[0]) && !is_whitespace(s.last()),
    ensures
        trimmed(s) == s,
{
}

/// A trimmed text neither begins nor ends with white space, so trimming it again changes nothing.
pub proof fn lemma_trimmed_idempotent(s: Seq<char>)
    ensures
        trimmed(trimmed(s)) == trimmed(s),
        trimmed(s).len() > 0 ==> !is_whitespace(trimmed(s)[0]) && !is_whitespace(trimmed(s).last()),
{
    let t = trimmed_start(s);
    lemma_trimmed_start_head(s);
    lemma_trimmed_end_last(t);
    lemma_trimmed_same(trimmed(s));
}

proof fn lemma_trimmed_start_head(s: Seq<char>)
    ensures
        trimmed_start(s).len() > 0 ==> !is_whitespace(trimmed_start(s)[0]),
    decreases s.len(),
{
    if s.len() > 0 && is_whitespace(s[0]) {
        lemma_trimmed_start_head(s.drop_first());
    }
}

proof fn lemma_trimmed_end_last(s: Seq<char>)
    ensures
        trimmed_end(s).len() > 0 ==> !is_whitespace(trimmed_end(s).last()) && trimmed_end(s)[0] == s[0],
    decreases s.len(),
{
    if s.len() > 0 && is_whitespace(s.last()) {
        lemma_trimmed_end_last(s.drop_last());
    }
}

/// `s` without the white space at its two ends.
pub fn trim<'a>(s: &'a str) -> (r: &'a str)
    ensures
        r@ == trimmed(s@),
{
    let x = to_chars(s);
    let mut i: usize = 0;
    while i < x.len() && char_is_whitespace(x[i])
        invariant
            i <= x@.len(),
            forall|j: int| 0 <= j < i ==> is_whitespace(x@[j]),
        decreases x@.len() - i,
    {
        i = i + 1;
    }
    let mut n: usize = x.len();
    while n > i && char_is_whitespace(x[n - 1])
        invariant
            i <= n <= x@.len(),
            forall|j: int| n <= j < x@.len() ==> is_whitespace(x@[j]),
        decreases n,
    {
        n = n - 1;
    }
    proof {
        lemma_trimmed_start(s@, i as int);
        let t = s@.skip(i as int);
        assert forall|j: int| n - i <= j < t.len() implies is_whitespace(t[j]) by {
            assert(t[j] == x@[j + i]);
        }
        lemma_trimmed_end(t, n - i);
        assert(t.take(n - i) =~= s@.subrange(i as int, n as int));
    }
    s.substring_char(i, n)
}

// ---------------------------------------------------------------------------------------------
// Numbers
// ---------------------------------------------------------------------------------------------

/// The character of a decimal digit.
pub open spec fn digit_char(d: nat) -> char {
    (48 + d) as u8 as char
}

/// `n` in decimal, without leading zeros.
pub open spec fn decimal(n: nat) -> Seq<char>
    decreases n,
{
    if n < 10 {
        seq![digit_char(n)]
    } else {
        decimal(n / 10).push(digit_char(n % 10))
    }
}

/// `n` in decimal, with a minus sign where it is negative.
pub open spec fn decimal_signed(n: int) -> Seq<char> {
    if n < 0 {
        seq!['-'] + decimal((-n) as nat)
    } else {
        decimal(n as nat)
    }
}

/// Appends `n` in decimal.
pub fn push_decimal(s: &mut String, n: u64)
    ensures
        final(s)@ == old(s)@ + decimal(n as nat),
    decreases n,
{
    if n >= 10 {
        push_decimal(s, n / 10);
    }
    let d: u8 = (n % 10) as u8;
    s.push((48 + d) as char);
    proof {
        if n >= 10 {
            assert(old(s)@ + decimal(n as nat) =~= (old(s)@ + decimal((n / 10) as nat)).push(
                digit_char((n % 10) as nat),
            ));
        } else {
            assert(old(s)@ + decimal(n as nat) =~= old(s)@.push(digit_char(n as nat)));
        }
    }
}

/// Appends `n` in decimal, with a minus sign where it is negative.
pub fn push_decimal_signed(s: &mut String, n: i64)
    ensures
        final(s)@ == old(s)@ + decimal_signed(n as int),
{
    if n < 0 {
        s.push('-');
        let m: u64 = ((-(n + 1)) as u64) + 1;
        push_decimal(s, m);
        assert(old(s)@.push('-') + decimal((-n) as nat) =~= old(s)@ + decimal_signed(n as int));
    } else {
        push_decimal(s, n as u64);
    }
}

/// The value of a character that is a decimal digit.
pub open spec fn digit_value(c: char) -> Option<nat> {
    let n = c as u32;
    if 0x30 <= n <= 0x39 {
        Some((n - 0x30) as nat)
    } else {
        None
    }
}

/// Tells whether `c` is a decimal digit.
pub fn char_is_digit(c: char) -> (r: bool)
    ensures
        r == (digit_value(c) is Some),
{
    let n: u32 = c as u32;
    0x30 <= n && n <= 0x39
}

/// The number that a non-empty run of decimal digits denotes.
pub open spec fn digits_value(s: Seq<char>) -> Option<nat>
    decreases s.len(),
{
    if s.len() == 0 {
        None
    } else if s.len() == 1 {
        digit_value(s[0])
    } else {
        match (digits_value(s.drop_last()), digit_value(s.last())) {
            (Some(v), Some(d)) => Some(10 * v + d),
            _ => None,
        }
    }
}

/// The number that `s` denotes: an optional sign and a non-empty run of decimal digits.
pub open spec fn signed_value(s: Seq<char>) -> Option<int> {
    if s.len() > 0 && s[0] == '-' {
        match digits_value(s.drop_first()) {
            Some(v) => Some(-(v as int)),
            None => None,
        }
    } else if s.len() > 0 && s[0] == '+' {
        match digits_value(s.drop_first()) {
            Some(v) => Some(v as int),
            None => None,
        }
    } else {
        match digits_value(s) {
            Some(v) => Some(v as int),
            None => None,
        }
    }
}

/// The number that `s` denotes where no minus sign is taken: an optional plus sign and digits.
pub open spec fn unsigned_value(s: Seq<char>) -> Option<nat> {
    if s.len() > 0 && s[0] == '+' {
        digits_value(s.drop_first())
    } else {
        digits_value(s)
    }
}

proof fn lemma_digits_prefix(s: Seq<char>, n: int)
    requires
        0 < n <= s.len(),
        digits_value(s) is Some,
    ensures
        digits_value(s.take(n)) is Some,
        digits_value(s.take(n)).unwrap() <= digits_value(s).unwrap(),
    decreases s.len(),
{
    if n < s.len() {
        lemma_digits_prefix(s.drop_last(), n);
        assert(s.drop_last().take(n) =~= s.take(n));
    } else {
        assert(s.take(n) =~= s);
    }
}

/// The number that the characters from `from` on denote, where it is at most `max`.
fn digits_up_to(x: &Vec<char>, from: usize, max: u64) -> (r: Option<u64>)
    requires
        from <= x@.len(),
    ensures
        match r {
            Some(v) => digits_value(x@.skip(from as int)) == Some(v as nat) && v <= max,
            None => match digits_value(x@.skip(from as int)) {
                Some(v) => v > max,
                None => true,
            },
        },
{
    let ghost t = x@.skip(from as int);
    if from == x.len() {
        return None;
    }
    let mut acc: u128 = 0;
    let mut i: usize = from;
    while i < x.len()
        invariant
            from <= i <= x@.len(),
            from < x@.len(),
            t == x@.skip(from as int),
            acc <= max,
            i == from ==> acc == 0,
            i > from ==> digits_value(t.take(i - from)) == Some(acc as nat),
        decreases x@.len() - i,
    {
        let n: u32 = x[i] as u32;
        let ghost k = i - from;
        assert(t[k] == x@[i as int]);
        assert(t.take(k + 1).last() == t[k]);
        assert(t.take(k + 1).drop_last() =~= t.take(k));
        proof {
            if digits_value(t) is Some {
                lemma_digits_prefix(t, k + 1);
            }
        }
        if n < 0x30 || n > 0x39 {
            assert(digits_value(t.take(k + 1)) is None);
            return None;
        }
        acc = acc * 10 + (n - 0x30) as u128;
        assert(digits_value(t.take(k + 1)) == Some(acc as nat));
        if acc > max as u128 {
            return None;
        }
        i = i + 1;
    }
    assert(t.take(t.len() as int) =~= t);
    Some(acc as u64)
}

/// Reads a number with an optional plus sign that is at most `max`.
pub fn parse_unsigned(s: &str, max: u64) -> (r: Option<u64>)
    ensures
        match r {
            Some(v) => unsigned_value(s@) == Some(v as nat) && v <= max,
            None => match unsigned_value(s@) {
                Some(v) => v > max,
                None => true,
            },
        },
{
    let x = to_chars(s);
    if x.len() > 0 && x[0] == '+' {
        assert(x@.skip(1) =~= s@.drop_first());
        digits_up_to(&x, 1, max)
    } else {
        assert(x@.skip(0) =~= s@);
        digits_up_to(&x, 0, max)
    }
}

/// Reads a 64-bit number with an optional sign.
pub fn parse_i64(s: &str) -> (r: Option<i64>)
    ensures
        match r {
            Some(v) => signed_value(s@) == Some(v as int),
            None => match signed_value(s@) {
                Some(v) => v < i64::MIN || v > i64::MAX,
                None => true,
            },
        },
{
    let x = to_chars(s);
    if x.len() > 0 && x[0] == '-' {
        assert(x@.skip(1) =~= s@.drop_first());
        match digits_up_to(&x, 1, 0x8000_0000_0000_0000) {
            Some(v) => {
                let w: i128 = -(v as i128);
                Some(w as i64)
            },
            None => None,
        }
    } else if x.len() > 0 && x[0] == '+' {
        assert(x@.skip(1) =~= s@.drop_first());
        match digits_up_to(&x, 1, 0x7fff_ffff_ffff_ffff) {
            Some(v) => Some(v as i64),
            None => None,
        }
    } else {
        assert(x@.skip(0) =~= s@);
        match digits_up_to(&x, 0, 0x7fff_ffff_ffff_ffff) {
            Some(v) => Some(v as i64),
            None => None,
        }
    }
}

proof fn lemma_decimal_digits(n: nat)
    ensures
        decimal(n).len() > 0,
        digits_value(decimal(n)) == Some(n),
        forall|i: int| 0 <= i < decimal(n).len() ==> digit_value(#[trigger] decimal(n)[i]) is Some,
    decreases n,
{
    if n >= 10 {
        lemma_decimal_digits(n / 10);
        assert(decimal(n).drop_last() =~= decimal(n / 10));
        assert forall|i: int| 0 <= i < decimal(n).len() implies digit_value(#[trigger] decimal(n)[i]) is Some by {
            if i < decimal(n).len() - 1 {
                assert(decimal(n)[i] == decimal(n / 10)[i]);
            }
        }
    }
}

/// Reading back a number written in decimal gives that number.
pub proof fn lemma_decimal_round_trip(n: int)
    ensures
        signed_value(decimal_signed(n)) == Some(n),
        !decimal_signed(n).contains(':'),
        decimal_signed(n).len() > 0,
{
    let s = decimal_signed(n);
    if n < 0 {
        lemma_decimal_digits((-n) as nat);
        assert(s.drop_first() =~= decimal((-n) as nat));
    } else {
        lemma_decimal_digits(n as nat);
    }
    assert forall|i: int| 0 <= i < s.len() implies s[i] != ':' by {
        if n < 0 {
            if i > 0 {
                assert(s[i] == decimal((-n) as nat)[i - 1]);
            }
        } else {
            assert(s[i] == decimal(n as nat)[i]);
        }
    }
}

// ---------------------------------------------------------------------------------------------
// Lines
// ---------------------------------------------------------------------------------------------

/// `s` without one carriage return at its end.
pub open spec fn without_cr(s: Seq<char>) -> Seq<char> {
    if s.len() > 0 && s.last() == '\r' {
        s.drop_last()
    } else {
        s
    }
}

/// The lines of `s`. A line ends with a line feed, which may have a carriage return before it; the
/// end of the last line may be missing.
pub open spec fn lines_of(s: Seq<char>) -> Seq<Seq<char>>
    decreases s.len(),
{
    if s.len() == 0 {
        Seq::empty()
    } else {
        let p = position(s, '\n');
        if p >= s.len() {
            seq![s]
        } else {
            seq![without_cr(s.take(p as int))] + lines_of(s.skip(p as int + 1))
        }
    }
}

/// The lines of `s`.
pub fn lines(s: &str) -> (r: Vec<String>)
    ensures
        strings_view(r@) == lines_of(s@),
{
    let x = to_chars(s);
    let mut r: Vec<String> = Vec::new();
    let mut at: usize = 0;
    assert(x@.skip(0) =~= x@);
    assert(strings_view(r@) + lines_of(x@) =~= lines_of(x@));
    while at < x.len()
        invariant
            x@ == s@,
            at <= x@.len(),
            strings_view(r@) + lines_of(x@.skip(at as int)) == lines_of(s@),
        decreases x@.len() - at,
    {
        let e: usize = find_from(&x, at, '\n');
        let ghost rest = x@.skip(at as int);
        let ghost before = strings_view(r@);
        if e == x.len() {
            let line = from_chars(&x, at, e);
            assert(line@ =~= rest);
            r.push(line);
            assert(x@.skip(e as int) =~= Seq::<char>::empty());
            assert(strings_view(r@) =~= before.push(rest));
            assert(before.push(rest) + Seq::<Seq<char>>::empty() =~= before + seq![rest]);
            at = e;
        } else {
            let stop: usize = if e > at && x[e - 1] == '\r' { e - 1 } else { e };
            let line = from_chars(&x, at, stop);
            assert(rest.take(e - at) =~= x@.subrange(at as int, e as int));
            assert(line@ =~= without_cr(rest.take(e - at)));
            assert(rest.skip(e - at + 1) =~= x@.skip(e + 1));
            r.push(line);
            assert(strings_view(r@) =~= before.push(line@));
            assert(before.push(line@) + lines_of(x@.skip(e + 1)) =~= before + (seq![line@] + lines_of(
                x@.skip(e + 1),
            )));
            at = e + 1;
        }
    }
    assert(x@.skip(at as int) =~= Seq::<char>::empty());
    assert(strings_view(r@) + Seq::<Seq<char>>::empty() =~= strings_view(r@));
    r
}

/// The first line of a text that begins with a line feed after `a`.
pub proof fn lemma_lines_first(a: Seq<char>, rest: Seq<char>)
    requires
        !a.contains('\n'),
        a.len() > 0 ==> a.last() != '\r',
    ensures
        lines_of(a + seq!['\n'] + rest) == seq![a] + lines_of(rest),
{
    let s = a + seq!['\n'] + rest;
    lemma_split_once_join(a, '\n', rest);
    lemma_position_found(s, '\n');
    let p = position(s, '\n');
    assert(s[a.len() as int] == '\n');
    assert(s.take(p as int) == a);
    assert(s.skip(p as int + 1) == rest);
}

// ---------------------------------------------------------------------------------------------
// Bytes
// ---------------------------------------------------------------------------------------------

/// The number of bytes that a character takes in UTF-8.
pub open spec fn char_width(c: char) -> nat {
    let n = c as u32;
    if n < 0x80 {
        1
    } else if n < 0x800 {
        2
    } else if n < 0x10000 {
        3
    } else {
        4
    }
}

/// The number of bytes that a text takes in UTF-8.
pub open spec fn byte_len(s: Seq<char>) -> nat
    decreases s.len(),
{
    if s.len() == 0 {
        0
    } else {
        byte_len(s.drop_last()) + char_width(s.last())
    }
}

/// The number of bytes that `c` takes in UTF-8.
pub fn width_of(c: char) -> (r: usize)
    ensures
        r == char_width(c),
        1 <= r <= 4,
{
    let n: u32 = c as u32;
    if n < 0x80 {
        1
    } else if n < 0x800 {
        2
    } else if n < 0x10000 {
        3
    } else {
        4
    }
}

/// UTF-8 encodings of two texts stand one after the other.
pub proof fn lemma_encode_concat(a: Seq<char>, b: Seq<char>)
    ensures
        encode_utf8(a + b) == encode_utf8(a) + encode_utf8(b),
    decreases a.len(),
{
    if a.len() == 0 {
        assert(a + b =~= b);
        assert(encode_utf8(a) + encode_utf8(b) =~= encode_utf8(b));
    } else {
        assert((a + b).drop_first() =~= a.drop_first() + b);
        lemma_encode_concat(a.drop_first(), b);
        assert(encode_utf8(a + b) =~= encode_utf8(a) + encode_utf8(b));
    }
}

/// `byte_len` is the length of the UTF-8 encoding.
pub proof fn lemma_byte_len(s: Seq<char>)
    ensures
        encode_utf8(s).len() == byte_len(s),
    decreases s.len(),
{
    if s.len() > 0 {
        lemma_byte_len(s.drop_last());
        lemma_encode_concat(s.drop_last(), seq![s.last()]);
        assert(s.drop_last() + seq![s.last()] =~= s);
        reveal_with_fuel(encode_utf8, 2);
        char_is_scalar(s.last());
        assert(seq![s.last()].drop_first() =~= Seq::<char>::empty());
        assert(encode_utf8(seq![s.last()]) =~= encode_scalar(s.last() as u32));
    }
}

/// Two texts with the same UTF-8 encoding are the same text.
pub proof fn lemma_encode_injective(a: Seq<char>, b: Seq<char>)
    requires
        encode_utf8(a) == encode_utf8(b),
    ensures
        a == b,
{
    encode_utf8_decode_utf8(a);
    encode_utf8_decode_utf8(b);
}

// ---------------------------------------------------------------------------------------------
// Laws
// ---------------------------------------------------------------------------------------------

/// The blank, the tabulator and the line ends are white space; no other printable character of ASCII
/// is, and no letter or digit.
pub proof fn law_white_space_of_ascii(c: char)
    ensures
        c == ' ' || c == '\t' || c == '\n' || c == '\r' ==> is_whitespace(c),
        0x21 <= c as u32 <= 0x7e ==> !is_whitespace(c),
        is_control(c) && is_whitespace(c) ==> (c as u32) < 0x20 || c as u32 == 0x85,
{
}

/// Line ends, tabulators and the null character are control characters; nothing that can be printed in
/// ASCII is, and nothing beyond the first 160 characters.
pub proof fn law_controls_of_ascii(c: char)
    ensures
        c == '\0' || c == '\t' || c == '\n' || c == '\r' ==> is_control(c),
        0x20 <= c as u32 <= 0x7e ==> !is_control(c),
        0xa0 <= c as u32 ==> !is_control(c),
{
}

/// Trimming takes off the white space round a text, all of it and nothing else.
pub proof fn law_trimmed_of_surrounded(a: Seq<char>, t: Seq<char>, b: Seq<char>)
    requires
        forall|i: int| 0 <= i < a.len() ==> is_whitespace(#[trigger] a[i]),
        forall|i: int| 0 <= i < b.len() ==> is_whitespace(#[trigger] b[i]),
        t.len() > 0 ==> !is_whitespace(t[0]) && !is_whitespace(t.last()),
    ensures
        trimmed(a + t + b) == t,
{
    let s = a + t + b;
    if t.len() > 0 {
        assert forall|j: int| 0 <= j < a.len() implies is_whitespace(s[j]) by {
            assert(s[j] == a[j]);
        }
        assert(s[a.len() as int] == t[0]);
        lemma_trimmed_start(s, a.len() as int);
        let r = s.skip(a.len() as int);
        assert(r =~= t + b);
        assert forall|j: int| t.len() <= j < r.len() implies is_whitespace(r[j]) by {
            assert(r[j] == b[j - t.len()]);
        }
        assert(r[t.len() - 1] == t.last());
        lemma_trimmed_end(r, t.len() as int);
        assert(r.take(t.len() as int) =~= t);
    } else {
        assert forall|j: int| 0 <= j < s.len() implies is_whitespace(s[j]) by {
            if j < a.len() {
                assert(s[j] == a[j]);
            } else {
                assert(s[j] == b[j - a.len()]);
            }
        }
        lemma_trimmed_start(s, s.len() as int);
        assert(s.skip(s.len() as int) =~= t);
    }
}

/// What is left of a text when it is trimmed stands in it, and white space alone stands round it.
pub proof fn law_trimmed_stands_in_the_text(s: Seq<char>) -> (p: (Seq<char>, Seq<char>))
    ensures
        s == p.0 + trimmed(s) + p.1,
        forall|i: int| 0 <= i < p.0.len() ==> is_whitespace(#[trigger] p.0[i]),
        forall|i: int| 0 <= i < p.1.len() ==> is_whitespace(#[trigger] p.1[i]),
        trimmed(s).len() > 0 ==> !is_whitespace(trimmed(s)[0]) && !is_whitespace(trimmed(s).last()),
{
    lemma_trimmed_idempotent(s);
    let a = lemma_start_taken_off(s);
    let t = trimmed_start(s);
    let b = lemma_end_taken_off(t);
    assert(s =~= a + trimmed(s) + b);
    (a, b)
}

proof fn lemma_start_taken_off(s: Seq<char>) -> (a: Seq<char>)
    ensures
        s == a + trimmed_start(s),
        forall|i: int| 0 <= i < a.len() ==> is_whitespace(#[trigger] a[i]),
    decreases s.len(),
{
    if s.len() > 0 && is_whitespace(s[0]) {
        let rest = lemma_start_taken_off(s.drop_first());
        let a = seq![s[0]] + rest;
        assert(s =~= seq![s[0]] + s.drop_first());
        assert(seq![s[0]] + (rest + trimmed_start(s)) =~= a + trimmed_start(s));
        a
    } else {
        assert(s =~= Seq::<char>::empty() + s);
        Seq::empty()
    }
}

proof fn lemma_end_taken_off(s: Seq<char>) -> (b: Seq<char>)
    ensures
        s == trimmed_end(s) + b,
        forall|i: int| 0 <= i < b.len() ==> is_whitespace(#[trigger] b[i]),
    decreases s.len(),
{
    if s.len() > 0 && is_whitespace(s.last()) {
        let rest = lemma_end_taken_off(s.drop_last());
        let b = rest + seq![s.last()];
        assert(s =~= s.drop_last() + seq![s.last()]);
        assert((trimmed_end(s) + rest) + seq![s.last()] =~= trimmed_end(s) + b);
        b
    } else {
        assert(s =~= s + Seq::<char>::empty());
        Seq::empty()
    }
}

/// A text that stands somewhere in another occurs in it.
pub proof fn law_parts_occur(a: Seq<char>, p: Seq<char>, b: Seq<char>)
    ensures
        has_substring(a + p + b, p),
{
    let s = a + p + b;
    assert(s.subrange(a.len() as int, a.len() as int + p.len()) =~= p);
    assert(occurs_at(s, p, a.len() as int));
}

/// A text that occurs in another stands in it between two others.
pub proof fn law_what_occurs_is_a_part(s: Seq<char>, p: Seq<char>) -> (r: (Seq<char>, Seq<char>))
    requires
        has_substring(s, p),
    ensures
        s == r.0 + p + r.1,
{
    let i = choose|i: int| occurs_at(s, p, i);
    let a = s.take(i);
    let b = s.skip(i + p.len());
    assert(s =~= a + p + b);
    (a, b)
}

/// A text without the separator is split nowhere, and one with it is.
pub proof fn law_split_where_the_separator_is(s: Seq<char>, c: char)
    ensures
        s.contains(c) ==> split_on(s, c).len() > 1 && split_once(s, c) is Some,
        !s.contains(c) ==> split_on(s, c) == seq![s] && split_once(s, c) is None,
{
    lemma_position_found(s, c);
    if s.contains(c) {
        lemma_some_piece(s.skip(position(s, c) as int + 1), c);
    }
}

proof fn lemma_some_piece(s: Seq<char>, c: char)
    ensures
        split_on(s, c).len() > 0,
{
}

/// A line may end with a carriage return and a line feed.
pub proof fn law_line_ends(a: Seq<char>, rest: Seq<char>)
    requires
        !a.contains('\n'),
    ensures
        lines_of(a + seq!['\r', '\n'] + rest) == seq![a] + lines_of(rest),
{
    let s = a + seq!['\r', '\n'] + rest;
    let line = a.push('\r');
    assert(s =~= line + seq!['\n'] + rest);
    assert forall|j: int| 0 <= j < line.len() implies line[j] != '\n' by {
        if j < a.len() {
            assert(a.contains(a[j]));
        }
    }
    assert(!line.contains('\n'));
    lemma_split_once_join(line, '\n', rest);
    lemma_position_found(s, '\n');
    assert(s[line.len() as int] == '\n');
    assert(line.drop_last() =~= a);
}

/// The end of the last line may be missing, and there is no line behind the last line end.
pub proof fn law_last_line(s: Seq<char>)
    requires
        !s.contains('\n'),
    ensures
        lines_of(s) == if s.len() > 0 {
            seq![s]
        } else {
            Seq::empty()
        },
{
    lemma_position_found(s, '\n');
}

/// Numbers are written with digits alone, without leading zeros, and with a minus sign where they are
/// negative; what is written reads back as the number.
pub proof fn law_numbers_are_written_plainly(n: int)
    ensures
        signed_value(decimal_signed(n)) == Some(n),
        n >= 0 ==> unsigned_value(decimal_signed(n)) == Some(n as nat),
        n < 0 <==> decimal_signed(n)[0] == '-',
        decimal_signed(n).len() > 1 && n >= 0 ==> decimal_signed(n)[0] != '0',
        forall|i: int| 1 <= i < decimal_signed(n).len() ==> 0x30 <= (#[trigger] decimal_signed(n)[i]) as u32 <= 0x39,
        decimal(0) == seq!['0'],
{
    lemma_decimal_round_trip(n);
    let m = (if n < 0 { -n } else { n }) as nat;
    lemma_decimal_digits(m);
    lemma_no_leading_zero(m);
    assert(digit_value(decimal(m)[0]) is Some);
    if n < 0 {
        assert forall|i: int| 1 <= i < decimal_signed(n).len() implies 0x30 <= (
        #[trigger] decimal_signed(n)[i]) as u32 <= 0x39 by {
            assert(digit_value(decimal(m)[i - 1]) is Some);
        }
    } else {
        assert forall|i: int| 1 <= i < decimal_signed(n).len() implies 0x30 <= (
        #[trigger] decimal_signed(n)[i]) as u32 <= 0x39 by {
            assert(digit_value(decimal(m)[i]) is Some);
        }
    }
    assert(decimal(0) =~= seq!['0']);
}

proof fn lemma_no_leading_zero(n: nat)
    ensures
        decimal(n).len() > 0,
        n > 0 ==> decimal(n)[0] != '0',
        decimal(n).len() > 1 ==> n >= 10,
    decreases n,
{
    if n >= 10 {
        lemma_no_leading_zero(n / 10);
    }
}

/// A digit more makes a number ten times as large, and adds its value.
pub proof fn law_digits_count_by_tens(s: Seq<char>, c: char, v: nat)
    requires
        digits_value(s) == Some(v),
        0x30 <= c as u32 <= 0x39,
    ensures
        digits_value(s.push(c)) == Some((10 * v + (c as u32 - 0x30)) as nat),
        digits_value(seq![c]) == Some((c as u32 - 0x30) as nat),
{
    assert(s.push(c).drop_last() =~= s);
    assert(s.len() > 0);
}

} // verus!
