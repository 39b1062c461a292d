//! Character-level helpers shared by the scanners and formatters.
//!
//! Text is modelled as `Seq<char>`. Functions that need random access work on
//! `Vec<char>`; `chars_of` and `string_of` convert at the edges.

use vstd::prelude::*;

verus! {

/// Whether `c` has the Unicode `White_Space` property.
pub uninterp spec fn is_space(c: char) -> bool;

/// Whether `c` is in one of the Unicode general categories for numbers.
pub uninterp spec fn is_number(c: char) -> bool;

/// The lowercase equivalent of `s` under the Unicode case mapping.
pub uninterp spec fn lowercase(s: Seq<char>) -> Seq<char>;

/// The uppercase equivalent of `s` under the Unicode case mapping.
pub uninterp spec fn uppercase(s: Seq<char>) -> Seq<char>;

/// `char::is_whitespace`: the answer is the `White_Space` property of the character.
pub assume_specification[ char::is_whitespace ](c: char) -> (b: bool)
    ensures
        b == is_space(c),
;

/// `char::is_numeric`: whether the character is in one of the general categories for numbers.
pub assume_specification[ char::is_numeric ](c: char) -> (b: bool)
    ensures
        b == is_number(c),
;

/// `str::to_lowercase`: a new string holding the lowercase equivalent.
pub assume_specification[ str::to_lowercase ](s: &str) -> (r: String)
    ensures
        r@ == lowercase(s@),
;

/// `str::to_uppercase`: a new string holding the uppercase equivalent.
pub assume_specification[ str::to_uppercase ](s: &str) -> (r: String)
    ensures
        r@ == uppercase(s@),
;

/// `String::push`: the character is appended at the end.
pub assume_specification[ String::push ](s: &mut String, c: char)
    ensures
        final(s)@ == old(s)@.push(c),
;

/// The characters of `s`, in order, as a vector with random access.
pub fn chars_of(s: &str) -> (v: Vec<char>)
    ensures
        v@ == s@,
{
    let mut v: Vec<char> = Vec::new();
    for c in it: s.chars()
        invariant
            v@ == it.seq().take(it.index() as int),
            it.seq() == s@,
    {
        v.push(c);
    }
    v
}

/// The string made of `v[from..to]`.
pub fn string_of(v: &Vec<char>, from: usize, to: usize) -> (s: String)
    requires
        from <= to <= v.len(),
    ensures
        s@ == v@.subrange(from as int, to as int),
{
    let mut s = String::new();
    let mut i: usize = from;
    while i < to
        invariant
            from <= i <= to <= v.len(),
            s@ == v@.subrange(from as int, i as int),
        decreases to - i,
    {
        s.push(v[i]);
        i += 1;
    }
    s
}

/// Appends `v[from..to]` to `out`.
pub fn push_range(out: &mut String, v: &Vec<char>, from: usize, to: usize)
    requires
        from <= to <= v.len(),
    ensures
        final(out)@ == old(out)@ + v@.subrange(from as int, to as int),
{
    let mut i: usize = from;
    while i < to
        invariant
            from <= i <= to <= v.len(),
            out@ == old(out)@ + v@.subrange(from as int, i as int),
        decreases to - i,
    {
        out.push(v[i]);
        i += 1;
    }
}

/// `s` without its leading whitespace.
pub open spec fn trim_start(s: Seq<char>) -> Seq<char>
    decreases s.len(),
{
    if s.len() > 0 && is_space(s[0]) {
        trim_start(s.drop_first())
    } else {
        s
    }
}

/// `s` without its trailing whitespace.
pub open spec fn trim_end(s: Seq<char>) -> Seq<char>
    decreases s.len(),
{
    if s.len() > 0 && is_space(s.last()) {
        trim_end(s.drop_last())
    } else {
        s
    }
}

/// `s` without leading and trailing whitespace.
pub open spec fn trimmed(s: Seq<char>) -> Seq<char> {
    trim_end(trim_start(s))
}

/// What is left after dropping leading whitespace is the end of the text,
/// and does not begin with whitespace.
pub proof fn lemma_trim_start(s: Seq<char>)
    ensures
        trim_start(s).len() <= s.len(),
        trim_start(s) == s.skip(s.len() - trim_start(s).len()),
        trim_start(s).len() > 0 ==> !is_space(trim_start(s)[0]),
    decreases s.len(),
{
    if s.len() > 0 && is_space(s[0]) {
        lemma_trim_start(s.drop_first());
        let rest = s.drop_first();
        assert(rest.skip(rest.len() - trim_start(rest).len()) == s.skip(
            s.len() - trim_start(rest).len(),
        ));
    } else {
        assert(s.skip(0) == s);
    }
}

/// What is left after dropping trailing whitespace is the beginning of the
/// text, and does not end with whitespace.
pub proof fn lemma_trim_end(s: Seq<char>)
    ensures
        trim_end(s).len() <= s.len(),
        trim_end(s) == s.take(trim_end(s).len() as int),
        trim_end(s).len() > 0 ==> !is_space(trim_end(s).last()),
    decreases s.len(),
{
    if s.len() > 0 && is_space(s.last()) {
        lemma_trim_end(s.drop_last());
        let rest = s.drop_last();
        assert(rest.take(trim_end(rest).len() as int) == s.take(trim_end(rest).len() as int));
    } else {
        assert(s.take(s.len() as int) == s);
    }
}

/// Trimming leaves a part of the text that has no whitespace at either end,
/// and trimming again changes nothing.
pub proof fn lemma_trimmed(s: Seq<char>)
    ensures
        trimmed(s).len() <= s.len(),
        trimmed(s).len() > 0 ==> !is_space(trimmed(s)[0]) && !is_space(trimmed(s).last()),
        trimmed(trimmed(s)) == trimmed(s),
{
    let front = trim_start(s);
    lemma_trim_start(s);
    lemma_trim_end(front);
    let t = trimmed(s);
    if t.len() > 0 {
        assert(t[0] == front.take(t.len() as int)[0]);
    }
    assert(trim_start(t) == t);
    assert(trim_end(t) == t);
}

/// The bounds `(a, b)` of the trimmed part of `v`: `v[a..b]` is `trimmed(v)`.
pub fn trim_bounds(v: &Vec<char>) -> (r: (usize, usize))
    ensures
        r.0 <= r.1 <= v.len(),
        v@.subrange(r.0 as int, r.1 as int) == trimmed(v@),
{
    let n = v.len();
    let mut a: usize = 0;
    assert(v@.skip(0) == v@);
    while a < n && v[a].is_whitespace()
        invariant
            a <= n == v.len(),
            trim_start(v@) == trim_start(v@.skip(a as int)),
        decreases n - a,
    {
        proof {
            assert(v@.skip(a as int).drop_first() == v@.skip(a as int + 1));
        }
        a += 1;
    }
    let mut b: usize = n;
    while b > a && v[b - 1].is_whitespace()
        invariant
            a <= b <= n == v.len(),
            trimmed(v@) == trim_end(v@.subrange(a as int, b as int)),
        decreases b,
    {
        proof {
            assert(v@.subrange(a as int, b as int).drop_last() == v@.subrange(
                a as int,
                b as int - 1,
            ));
        }
        b -= 1;
    }
    (a, b)
}

/// `s` without leading and trailing whitespace, as a new string.
pub fn trim(s: &str) -> (r: String)
    ensures
        r@ == trimmed(s@),
{
    let v = chars_of(s);
    let (a, b) = trim_bounds(&v);
    string_of(&v, a, b)
}

/// The position of the first `c` in `s`, or `s.len()` where there is none.
pub open spec fn first_index<T>(s: Seq<T>, c: T) -> int
    decreases s.len(),
{
    if s.len() == 0 || s[0] == c {
        0
    } else {
        1 + first_index(s.drop_first(), c)
    }
}

/// `first_index` is in range, stops at a `c`, and passes over none.
pub proof fn lemma_first_index<T>(s: Seq<T>, c: T)
    ensures
        0 <= first_index(s, c) <= s.len(),
        first_index(s, c) < s.len() ==> s[first_index(s, c)] == c,
        forall|k: int| 0 <= k < first_index(s, c) ==> s[k] != c,
    decreases s.len(),
{
    if s.len() > 0 && s[0] != c {
        lemma_first_index(s.drop_first(), c);
        assert forall|k: int| 0 <= k < first_index(s, c) implies s[k] != c by {
            if k > 0 {
                assert(s[k] == s.drop_first()[k - 1]);
            }
        }
    }
}

/// A position that holds `c` (or the end) and is preceded by no `c` is `first_index`.
pub proof fn lemma_first_index_is<T>(s: Seq<T>, c: T, i: int)
    requires
        0 <= i <= s.len(),
        i < s.len() ==> s[i] == c,
        forall|k: int| 0 <= k < i ==> s[k] != c,
    ensures
        first_index(s, c) == i,
    decreases s.len(),
{
    if s.len() > 0 && s[0] != c {
        let t = s.drop_first();
        assert forall|k: int| 0 <= k < i - 1 implies t[k] != c by {
            assert(t[k] == s[k + 1]);
        }
        lemma_first_index_is(t, c, i - 1);
    }
}

/// The position of the first `c` at or after `from`, or `v.len()`.
pub fn find_char(v: &Vec<char>, from: usize, c: char) -> (i: usize)
    requires
        from <= v.len(),
    ensures
        from <= i <= v.len(),
        i == from + first_index(v@.skip(from as int), c),
{
    let mut i: usize = from;
    while i < v.len() && v[i] != c
        invariant
            from <= i <= v.len(),
            forall|k: int| from <= k < i ==> v@[k] != c,
        decreases v.len() - i,
    {
        i += 1;
    }
    proof {
        let t = v@.skip(from as int);
        lemma_first_index_is(t, c, i - from);
    }
    i
}

/// Whether `p` stands in `s` at position `i`.
pub open spec fn occurs_at(s: Seq<char>, p: Seq<char>, i: int) -> bool {
    0 <= i && i + p.len() <= s.len() && s.subrange(i, i + p.len()) == p
}

/// Whether `p` stands in `v` at position `i`.
pub fn matches_at(v: &Vec<char>, p: &Vec<char>, i: usize) -> (b: bool)
    ensures
        b == occurs_at(v@, p@, i as int),
{
    if i > v.len() || p.len() > v.len() - i {
        return false;
    }
    let mut k: usize = 0;
    while k < p.len()
        invariant
            k <= p.len(),
            i + p.len() <= v.len(),
            forall|j: int| 0 <= j < k ==> v@[i + j] == p@[j],
        decreases p.len() - k,
    {
        if v[i + k] != p[k] {
            return false;
        }
        k += 1;
    }
    assert(v@.subrange(i as int, i + p.len()) =~= p@);
    true
}

/// Whether `s` contains `p` somewhere.
pub open spec fn contains_text(s: Seq<char>, p: Seq<char>) -> bool {
    exists|i: int| occurs_at(s, p, i)
}

/// Whether `v` contains `p` somewhere.
pub fn contains(v: &Vec<char>, p: &Vec<char>) -> (b: bool)
    ensures
        b == contains_text(v@, p@),
{
    let mut i: usize = 0;
    while i < v.len()
        invariant
            i <= v.len(),
            forall|k: int| 0 <= k < i ==> !occurs_at(v@, p@, k),
        decreases v.len() - i,
    {
        if matches_at(v, p, i) {
            return true;
        }
        i += 1;
    }
    if matches_at(v, p, i) {
        return true;
    }
    false
}

/// The decimal digit for `d`, `0 <= d < 10`.
pub open spec fn digit(d: int) -> char {
    (48 + d) as char
}

/// The decimal digit for `d`.
pub fn digit_char(d: u8) -> (c: char)
    requires
        d < 10,
    ensures
        c == digit(d as int),
{
    (48u8 + d) as char
}

/// `n` written in decimal, without sign or leading zeros.
pub open spec fn decimal(n: nat) -> Seq<char>
    decreases n,
{
    if n < 10 {
        seq![digit(n as int)]
    } else {
        decimal(n / 10).push(digit((n % 10) as int))
    }
}

/// Appends `n` in decimal to `out`.
pub fn push_decimal(out: &mut String, n: u64)
    ensures
        final(out)@ == old(out)@ + decimal(n as nat),
    decreases n,
{
    if n >= 10 {
        push_decimal(out, n / 10);
    }
    out.push(digit_char((n % 10) as u8));
}

/// Whether `c` is one of `0` to `9`.
pub open spec fn is_digit(c: char) -> bool {
    '0' <= c && c <= '9'
}

/// Whether `s` is a non-empty run of decimal digits.
pub open spec fn is_digits(s: Seq<char>) -> bool {
    s.len() > 0 && forall|i: int| 0 <= i < s.len() ==> is_digit(#[trigger] s[i])
}

/// The number that the digits of `s` denote, leading zeros allowed.
pub open spec fn digits_value(s: Seq<char>) -> nat
    decreases s.len(),
{
    if s.len() == 0 {
        0
    } else {
        (10 * digits_value(s.drop_last()) + (s.last() as int - 48)) as nat
    }
}

/// The number that `v[from..]` denotes, where it is a run of digits worth at most `cap`.
pub fn parse_digits(v: &Vec<char>, from: usize, cap: u64) -> (r: Option<u64>)
    requires
        from <= v.len(),
        cap <= 0xffff_ffff,
    ensures
        r is Some <==> is_digits(v@.skip(from as int)) && digits_value(v@.skip(from as int))
            <= cap,
        r matches Some(n) ==> n == digits_value(v@.skip(from as int)),
{
    let ghost s = v@.skip(from as int);
    if from == v.len() {
        return None;
    }
    let mut acc: u64 = 0;
    let mut over = false;
    let mut i: usize = from;
    while i < v.len()
        invariant
            from <= i <= v.len(),
            s == v@.skip(from as int),
            cap <= 0xffff_ffff,
            forall|k: int| 0 <= k < i - from ==> is_digit(#[trigger] s[k]),
            !over ==> acc == digits_value(s.take(i - from)) && acc <= cap,
            over ==> digits_value(s.take(i - from)) > cap,
        decreases v.len() - i,
    {
        let c = v[i];
        assert(s[i - from] == c);
        if !(c >= '0' && c <= '9') {
            return None;
        }
        proof {
            assert(s.take(i - from + 1).drop_last() == s.take(i - from));
        }
        if !over {
            let next = acc * 10 + ((c as u32 - 48) as u64);
            if next > cap {
                over = true;
            } else {
                acc = next;
            }
        }
        i += 1;
    }
    assert(s.take(i - from) == s);
    if over {
        None
    } else {
        Some(acc)
    }
}

/// What a decimal text means as a 32-bit signed integer: an optional sign,
/// then digits, the value in range.
pub open spec fn parsed_i32(s: Seq<char>) -> Option<int> {
    let negative = s.len() > 0 && s[0] == '-';
    let body = if s.len() > 0 && (s[0] == '-' || s[0] == '+') {
        s.skip(1)
    } else {
        s
    };
    if !is_digits(body) {
        None
    } else if negative {
        if digits_value(body) <= 0x8000_0000 {
            Some(-(digits_value(body) as int))
        } else {
            None
        }
    } else if digits_value(body) <= 0x7fff_ffff {
        Some(digits_value(body) as int)
    } else {
        None
    }
}

/// Reads `v` as a 32-bit signed integer.
pub fn parse_i32(v: &Vec<char>) -> (r: Option<i32>)
    ensures
        match r {
            Some(n) => parsed_i32(v@) == Some(n as int),
            None => parsed_i32(v@) is None,
        },
{
    assert(v@.skip(0) == v@);
    if v.len() > 0 && v[0] == '-' {
        match parse_digits(v, 1, 0x8000_0000) {
            Some(n) => Some((0 - (n as i64)) as i32),
            None => None,
        }
    } else if v.len() > 0 && v[0] == '+' {
        match parse_digits(v, 1, 0x7fff_ffff) {
            Some(n) => Some(n as i32),
            None => None,
        }
    } else {
        match parse_digits(v, 0, 0x7fff_ffff) {
            Some(n) => Some(n as i32),
            None => None,
        }
    }
}

/// What a decimal text means as a 16-bit unsigned integer: an optional `+`,
/// then digits, the value in range.
pub open spec fn parsed_u16(s: Seq<char>) -> Option<int> {
    let body = if s.len() > 0 && s[0] == '+' {
        s.skip(1)
    } else {
        s
    };
    if is_digits(body) && digits_value(body) <= 0xffff {
        Some(digits_value(body) as int)
    } else {
        None
    }
}

/// Reads `v` as a 16-bit unsigned integer.
pub fn parse_u16(v: &Vec<char>) -> (r: Option<u16>)
    ensures
        match r {
            Some(n) => parsed_u16(v@) == Some(n as int),
            None => parsed_u16(v@) is None,
        },
{
    assert(v@.skip(0) == v@);
    let from: usize = if v.len() > 0 && v[0] == '+' {
        1
    } else {
        0
    };
    match parse_digits(v, from, 0xffff) {
        Some(n) => Some(n as u16),
        None => None,
    }
}

/// The parts of `s` before and after its first `c`, where it has one.
pub open spec fn split_once(s: Seq<char>, c: char) -> Option<(Seq<char>, Seq<char>)> {
    let i = first_index(s, c);
    if 0 <= i < s.len() {
        Some((s.take(i), s.skip(i + 1)))
    } else {
        None
    }
}

/// The runs of `s` between occurrences of `c`. There is always at least one,
/// and a run may be empty.
pub open spec fn segments(s: Seq<char>, c: char) -> Seq<Seq<char>>
    decreases s.len(),
{
    let i = first_index(s, c);
    if 0 <= i < s.len() {
        seq![s.take(i)] + segments(s.skip(i + 1), c)
    } else {
        seq![s]
    }
}

/// The runs of `v[from..]` between occurrences of `c`.
pub fn split_segments(v: &Vec<char>, from: usize, c: char) -> (r: Vec<String>)
    requires
        from <= v.len(),
    ensures
        r.deep_view() == segments(v@.skip(from as int), c),
{
    let ghost whole = segments(v@.skip(from as int), c);
    let mut out: Vec<String> = Vec::new();
    let mut at: usize = from;
    loop
        invariant_except_break
            from <= at <= v.len(),
            out.deep_view() + segments(v@.skip(at as int), c) == whole,
        ensures
            out.deep_view() == whole,
        decreases v.len() - at,
    {
        let ghost rest = v@.skip(at as int);
        let to = find_char(v, at, c);
        let piece = string_of(v, at, to);
        out.push(piece);
        proof {
            assert(v@.subrange(at as int, to as int) == rest.take(to - at));
        }
        if to < v.len() {
            proof {
                assert(rest.skip(to - at + 1) == v@.skip(to + 1));
            }
            at = to + 1;
        } else {
            break ;
        }
    }
    out
}

/// `s` without the copies of `prefix` that it starts with.
pub open spec fn without_prefixes(s: Seq<char>, prefix: Seq<char>) -> Seq<char>
    decreases s.len(),
{
    if prefix.len() > 0 && occurs_at(s, prefix, 0) {
        without_prefixes(s.skip(prefix.len() as int), prefix)
    } else {
        s
    }
}

/// Where `v` goes on after the copies of `prefix` that it starts with.
pub fn skip_prefixes(v: &Vec<char>, prefix: &Vec<char>) -> (at: usize)
    ensures
        at <= v.len(),
        v@.skip(at as int) == without_prefixes(v@, prefix@),
{
    let mut at: usize = 0;
    assert(v@.skip(0) == v@);
    if prefix.len() == 0 {
        return 0;
    }
    while matches_at(v, prefix, at)
        invariant
            at <= v.len(),
            prefix.len() > 0,
            without_prefixes(v@.skip(at as int), prefix@) == without_prefixes(v@, prefix@),
        decreases v.len() - at,
    {
        proof {
            let rest = v@.skip(at as int);
            assert(rest.subrange(0, prefix.len() as int) == v@.subrange(
                at as int,
                at + prefix.len(),
            ));
            assert(rest.skip(prefix.len() as int) == v@.skip(at + prefix.len()));
        }
        at = at + prefix.len();
    }
    proof {
        let rest = v@.skip(at as int);
        if at + prefix.len() <= v.len() {
            assert(rest.subrange(0, prefix.len() as int) == v@.subrange(
                at as int,
                at + prefix.len(),
            ));
        }
    }
    at
}

/// `parts` with `separator` between each two neighbours.
pub open spec fn joined(parts: Seq<Seq<char>>, separator: Seq<char>) -> Seq<char>
    decreases parts.len(),
{
    if parts.len() == 0 {
        Seq::empty()
    } else if parts.len() == 1 {
        parts[0]
    } else {
        joined(parts.drop_last(), separator) + separator + parts.last()
    }
}

/// Appends `parts`, with `separator` between each two neighbours, to `out`.
pub fn push_joined(out: &mut String, parts: &Vec<String>, separator: &str)
    ensures
        final(out)@ == old(out)@ + joined(parts.deep_view(), separator@),
{
    let ghost all = parts.deep_view();
    let mut i: usize = 0;
    while i < parts.len()
        invariant
            i <= parts.len(),
            all == parts.deep_view(),
            out@ == old(out)@ + joined(all.take(i as int), separator@),
        decreases parts.len() - i,
    {
        proof {
            assert(all.take(i + 1).drop_last() == all.take(i as int));
        }
        if i > 0 {
            out.append(separator);
        }
        out.append(parts[i].as_str());
        i += 1;
    }
    assert(all.take(parts.len() as int) == all);
}

/// `s` with every `mark` written twice.
pub open spec fn doubled(s: Seq<char>, mark: char) -> Seq<char>
    decreases s.len(),
{
    if s.len() == 0 {
        Seq::empty()
    } else if s.last() == mark {
        doubled(s.drop_last(), mark).push(mark).push(mark)
    } else {
        doubled(s.drop_last(), mark).push(s.last())
    }
}

/// Appends `v[from..]`, with every `mark` written twice, to `out`.
pub fn push_doubled(out: &mut String, v: &Vec<char>, from: usize, mark: char)
    requires
        from <= v.len(),
    ensures
        final(out)@ == old(out)@ + doubled(v@.skip(from as int), mark),
{
    let ghost s = v@.skip(from as int);
    let mut i: usize = from;
    while i < v.len()
        invariant
            from <= i <= v.len(),
            s == v@.skip(from as int),
            out@ == old(out)@ + doubled(s.take(i - from), mark),
        decreases v.len() - i,
    {
        let c = v[i];
        proof {
            assert(s.take(i - from + 1).drop_last() == s.take(i - from));
        }
        if c == mark {
            out.push(mark);
        }
        out.push(c);
        i += 1;
    }
    assert(s.take(i - from) == s);
}

} // verus!
