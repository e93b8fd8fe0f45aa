//! Text primitives: the few string operations the daemon's rules are written in.
//!
//! A string is modelled by its sequence of characters. Each operation comes as a `spec`
//! function that says what it means and an executable function proved to compute it.
use vstd::prelude::*;
use vstd::string::*;
use vstd::utf8::*;

verus! {

/// `String::push`: appends one character at the end.
pub assume_specification[ String::push ](s: &mut String, c: char)
    ensures
        final(s)@ == old(s)@.push(c),
;

// ----- models -----

/// The characters with the Unicode `White_Space` property.
pub open spec fn is_space(c: char) -> bool {
    ||| '\u{9}' <= c <= '\u{d}'
    ||| c == ' '
    ||| c == '\u{85}'
    ||| c == '\u{a0}'
    ||| c == '\u{1680}'
    ||| '\u{2000}' <= c <= '\u{200a}'
    ||| c == '\u{2028}'
    ||| c == '\u{2029}'
    ||| c == '\u{202f}'
    ||| c == '\u{205f}'
    ||| c == '\u{3000}'
}

/// `s` without its leading white space.
pub open spec fn trim_front(s: Seq<char>) -> Seq<char>
    decreases s.len(),
{
    if s.len() > 0 && is_space(s[0]) {
        trim_front(s.drop_first())
    } else {
        s
    }
}

/// `s` without its trailing white space.
pub open spec fn trim_back(s: Seq<char>) -> Seq<char>
    decreases s.len(),
{
    if s.len() > 0 && is_space(s.last()) {
        trim_back(s.drop_last())
    } else {
        s
    }
}

/// `s` without leading and trailing white space.
pub open spec fn trimmed(s: Seq<char>) -> Seq<char> {
    trim_back(trim_front(s))
}

/// `s` without the run of `c` at its end.
pub open spec fn without_trailing(s: Seq<char>, c: char) -> Seq<char>
    decreases s.len(),
{
    if s.len() > 0 && s.last() == c {
        without_trailing(s.drop_last(), c)
    } else {
        s
    }
}

/// `pat` stands in `s` at position `i`.
pub open spec fn occurs_at(s: Seq<char>, pat: Seq<char>, i: int) -> bool {
    0 <= i && i + pat.len() <= s.len() && s.subrange(i, i + pat.len()) == pat
}

/// `pat` stands somewhere in `s`.
pub open spec fn has_text(s: Seq<char>, pat: Seq<char>) -> bool {
    exists|i: int| occurs_at(s, pat, i)
}

/// `s` begins with `pat`.
pub open spec fn begins_with(s: Seq<char>, pat: Seq<char>) -> bool {
    occurs_at(s, pat, 0)
}

/// `s` ends with `pat`.
pub open spec fn finishes_with(s: Seq<char>, pat: Seq<char>) -> bool {
    occurs_at(s, pat, s.len() - pat.len())
}

// ----- characters and equality -----

/// Whether `c` is white space.
pub fn char_is_space(c: char) -> (res: bool)
    ensures
        res == is_space(c),
{
    ('\u{9}' <= c && c <= '\u{d}') || c == ' ' || c == '\u{85}' || c == '\u{a0}' || c == '\u{1680}'
        || ('\u{2000}' <= c && c <= '\u{200a}') || c == '\u{2028}' || c == '\u{2029}' || c
        == '\u{202f}' || c == '\u{205f}' || c == '\u{3000}'
}

/// The characters of `s`, in order.
pub fn to_chars(s: &str) -> (res: Vec<char>)
    ensures
        res@ == s@,
{
    let mut out: Vec<char> = Vec::new();
    for c in it: s.chars()
        invariant
            out@ == s@.take(it.index() as int),
            it.seq() == s@,
    {
        out.push(c);
        assert(out@ =~= s@.take(it.index() as int + 1));
    }
    assert(s@.take(s@.len() as int) =~= s@);
    out
}

/// The string made of the characters `chars[from..to]`.
pub fn from_chars(chars: &Vec<char>, from: usize, to: usize) -> (res: String)
    requires
        from <= to <= chars@.len(),
    ensures
        res@ == chars@.subrange(from as int, to as int),
{
    let mut out = String::new();
    let mut i: usize = from;
    while i < to
        invariant
            from <= i <= to <= chars@.len(),
            out@ == chars@.subrange(from as int, i as int),
        decreases to - i,
    {
        out.push(chars[i]);
        i = i + 1;
        assert(out@ =~= chars@.subrange(from as int, i as int));
    }
    out
}

/// Whether two texts are the same.
pub fn same_text(a: &str, b: &str) -> (res: bool)
    ensures
        res == (a@ == b@),
{
    let x = a.as_bytes();
    let y = b.as_bytes();
    proof {
        encode_utf8_decode_utf8(a@);
        encode_utf8_decode_utf8(b@);
    }
    if x.len() != y.len() {
        return false;
    }
    let mut i: usize = 0;
    while i < x.len()
        invariant
            i <= x@.len(),
            x@.len() == y@.len(),
            x@ == encode_utf8(a@),
            y@ == encode_utf8(b@),
            forall|k: int| 0 <= k < i ==> x@[k] == y@[k],
        decreases x@.len() - i,
    {
        if x[i] != y[i] {
            return false;
        }
        i = i + 1;
    }
    assert(x@ =~= y@);
    true
}

// ----- trimming -----

proof fn lemma_trim_front_step(s: Seq<char>, i: int)
    requires
        0 <= i < s.len(),
        is_space(s[i]),
    ensures
        trim_front(s.skip(i)) == trim_front(s.skip(i + 1)),
{
    assert(s.skip(i).drop_first() =~= s.skip(i + 1));
}

proof fn lemma_trim_back_step(s: Seq<char>, i: int)
    requires
        0 < i <= s.len(),
        is_space(s[i - 1]),
    ensures
        trim_back(s.take(i)) == trim_back(s.take(i - 1)),
{
    assert(s.take(i).drop_last() =~= s.take(i - 1));
    assert(s.take(i).last() == s[i - 1]);
}

/// `s` without leading and trailing white space.
pub fn trim(s: &str) -> (res: String)
    ensures
        res@ == trimmed(s@),
{
    let chars = to_chars(s);
    let n: usize = chars.len();
    let mut from: usize = 0;
    assert(s@.skip(0) =~= s@);
    while from < n && char_is_space(chars[from])
        invariant
            n == chars@.len(),
            from <= n,
            chars@ == s@,
            trim_front(s@) == trim_front(s@.skip(from as int)),
        decreases n - from,
    {
        proof {
            lemma_trim_front_step(s@, from as int);
        }
        from = from + 1;
    }
    let ghost rest = s@.skip(from as int);
    assert(trim_front(s@) == rest);
    let mut to: usize = n;
    assert(rest.take(rest.len() as int) =~= rest);
    while to > from && char_is_space(chars[to - 1])
        invariant
            from <= to <= n,
            n == chars@.len(),
            chars@ == s@,
            rest == s@.skip(from as int),
            trim_back(rest) == trim_back(rest.take(to - from)),
        decreases to,
    {
        proof {
            lemma_trim_back_step(rest, to - from);
        }
        to = to - 1;
    }
    assert(rest.take(to - from) =~= s@.subrange(from as int, to as int));
    from_chars(&chars, from, to)
}

/// Whether `s` holds nothing but white space.
pub fn is_blank(s: &str) -> (res: bool)
    ensures
        res == (trimmed(s@).len() == 0),
{
    let t = trim(s);
    t.as_str().is_empty()
}

/// `s` without the run of `c` at its end.
pub fn strip_trailing(s: &str, c: char) -> (res: String)
    ensures
        res@ == without_trailing(s@, c),
{
    let chars = to_chars(s);
    let mut to: usize = chars.len();
    assert(s@.take(s@.len() as int) =~= s@);
    while to > 0 && chars[to - 1] == c
        invariant
            to <= chars@.len(),
            chars@ == s@,
            without_trailing(s@, c) == without_trailing(s@.take(to as int), c),
        decreases to,
    {
        assert(s@.take(to as int).drop_last() =~= s@.take(to - 1));
        to = to - 1;
    }
    assert(s@.take(to as int) =~= s@.subrange(0, to as int));
    from_chars(&chars, 0, to)
}

// ----- searching -----

/// Whether `pat` stands in `s` at position `i`.
pub fn matches_at(s: &Vec<char>, pat: &Vec<char>, i: usize) -> (res: bool)
    ensures
        res == occurs_at(s@, pat@, i as int),
{
    let n: usize = s.len();
    let m: usize = pat.len();
    if i > n || m > n - i {
        return false;
    }
    let mut k: usize = 0;
    while k < m
        invariant
            n == s@.len(),
            m == pat@.len(),
            i + m <= n,
            k <= m,
            forall|j: int| 0 <= j < k ==> s@[i + j] == pat@[j],
        decreases m - k,
    {
        if s[i + k] != pat[k] {
            assert(s@.subrange(i as int, i + m)[k as int] != pat@[k as int]);
            return false;
        }
        k = k + 1;
    }
    assert(s@.subrange(i as int, i + m) =~= pat@);
    true
}

/// Whether `pat` stands somewhere in `s`.
pub fn contains_text(s: &str, pat: &str) -> (res: bool)
    ensures
        res == has_text(s@, pat@),
{
    let chars = to_chars(s);
    let p = to_chars(pat);
    let n: usize = chars.len();
    let m: usize = p.len();
    if m > n {
        return false;
    }
    let mut i: usize = 0;
    while i <= n - m
        invariant
            n == chars@.len(),
            m == p@.len(),
            m <= n,
            i <= n - m + 1,
            chars@ == s@,
            p@ == pat@,
            forall|j: int| 0 <= j < i ==> !occurs_at(s@, pat@, j),
        decreases n - m + 1 - i,
    {
        if matches_at(&chars, &p, i) {
            return true;
        }
        if i == n - m {
            return false;
        }
        i = i + 1;
    }
    false
}

/// Whether `s` begins with `pat`.
pub fn starts_with(s: &str, pat: &str) -> (res: bool)
    ensures
        res == begins_with(s@, pat@),
{
    let chars = to_chars(s);
    let p = to_chars(pat);
    matches_at(&chars, &p, 0)
}

/// Whether `s` ends with `pat`.
pub fn ends_with(s: &str, pat: &str) -> (res: bool)
    ensures
        res == finishes_with(s@, pat@),
{
    let chars = to_chars(s);
    let p = to_chars(pat);
    if p.len() > chars.len() {
        return false;
    }
    matches_at(&chars, &p, chars.len() - p.len())
}

/// Whether the character `c` stands in `s`.
pub fn contains_char(s: &str, c: char) -> (res: bool)
    ensures
        res == s@.contains(c),
{
    let chars = to_chars(s);
    let mut i: usize = 0;
    while i < chars.len()
        invariant
            i <= chars@.len(),
            chars@ == s@,
            forall|j: int| 0 <= j < i ==> s@[j] != c,
        decreases chars@.len() - i,
    {
        if chars[i] == c {
            assert(s@[i as int] == c);
            return true;
        }
        i = i + 1;
    }
    false
}

// ----- splitting -----

/// The pieces of `s` between the characters that `sep` accepts, empty pieces included.
pub open spec fn split_by(s: Seq<char>, sep: spec_fn(char) -> bool) -> Seq<Seq<char>>
    decreases s.len(),
{
    if s.len() == 0 {
        seq![Seq::<char>::empty()]
    } else {
        let before = split_by(s.drop_last(), sep);
        if sep(s.last()) {
            before.push(Seq::<char>::empty())
        } else {
            before.drop_last().push(before.last().push(s.last()))
        }
    }
}

/// The predicate that accepts `c` alone.
pub open spec fn just(c: char) -> spec_fn(char) -> bool {
    |x: char| x == c
}

/// The pieces of `s` between the occurrences of `c`.
pub open spec fn split_on(s: Seq<char>, c: char) -> Seq<Seq<char>> {
    split_by(s, just(c))
}

/// The maximal runs of characters of `s` that are not white space.
pub open spec fn words(s: Seq<char>) -> Seq<Seq<char>> {
    split_by(s, |x: char| is_space(x)).filter(|w: Seq<char>| w.len() > 0)
}

/// The views of a vector of strings.
pub open spec fn views(v: Seq<String>) -> Seq<Seq<char>> {
    v.map_values(|s: String| s@)
}

/// There is always at least one piece.
pub proof fn lemma_split_by_nonempty(s: Seq<char>, sep: spec_fn(char) -> bool)
    ensures
        split_by(s, sep).len() >= 1,
    decreases s.len(),
{
    if s.len() > 0 {
        lemma_split_by_nonempty(s.drop_last(), sep);
    }
}

/// The pieces of `s` between the occurrences of `c`, empty pieces included.
pub fn split_at_char(s: &str, c: char) -> (res: Vec<String>)
    ensures
        views(res@) == split_on(s@, c),
{
    let chars = to_chars(s);
    let ghost sep = just(c);
    let mut done: Vec<String> = Vec::new();
    let mut cur = String::new();
    let mut i: usize = 0;
    assert(views(done@).push(cur@) =~= split_by(s@.take(0), sep));
    while i < chars.len()
        invariant
            i <= chars@.len(),
            chars@ == s@,
            sep == just(c),
            views(done@).push(cur@) == split_by(s@.take(i as int), sep),
        decreases chars@.len() - i,
    {
        let x: char = chars[i];
        let ghost before = views(done@).push(cur@);
        assert(s@.take(i + 1).drop_last() =~= s@.take(i as int));
        assert(s@.take(i + 1).last() == x);
        if x == c {
            done.push(cur);
            cur = String::new();
            assert(views(done@) =~= before);
            assert(views(done@).push(cur@) =~= split_by(s@.take(i + 1), sep));
        } else {
            cur.push(x);
            assert(before.drop_last() =~= views(done@));
            assert(views(done@).push(cur@) =~= split_by(s@.take(i + 1), sep));
        }
        i = i + 1;
    }
    assert(s@.take(i as int) =~= s@);
    let ghost before = views(done@).push(cur@);
    done.push(cur);
    assert(views(done@) =~= before);
    done
}

/// The words of `s`: its maximal runs of characters that are not white space.
pub fn split_words(s: &str) -> (res: Vec<String>)
    ensures
        views(res@) == words(s@),
{
    let chars = to_chars(s);
    let ghost sep = |x: char| is_space(x);
    let ghost kept = |w: Seq<char>| w.len() > 0;
    let mut done: Vec<String> = Vec::new();
    let mut cur = String::new();
    let ghost mut pieces = seq![Seq::<char>::empty()];
    let mut i: usize = 0;
    proof {
        assert(pieces.drop_last() =~= Seq::<Seq<char>>::empty());
        reveal(Seq::filter);
        assert(views(done@) =~= pieces.drop_last().filter(kept));
        assert(s@.take(0) =~= Seq::<char>::empty());
    }
    while i < chars.len()
        invariant
            i <= chars@.len(),
            chars@ == s@,
            sep == (|x: char| is_space(x)),
            kept == (|w: Seq<char>| w.len() > 0),
            pieces == split_by(s@.take(i as int), sep),
            pieces.len() >= 1,
            pieces.last() == cur@,
            views(done@) == pieces.drop_last().filter(kept),
        decreases chars@.len() - i,
    {
        let x: char = chars[i];
        let ghost old_pieces = pieces;
        let ghost old_cur = cur@;
        let ghost old_done = views(done@);
        assert(s@.take(i + 1).drop_last() =~= s@.take(i as int));
        assert(s@.take(i + 1).last() == x);
        if char_is_space(x) {
            proof {
                pieces = old_pieces.push(Seq::<char>::empty());
                assert(pieces.drop_last() =~= old_pieces);
                assert(old_pieces =~= old_pieces.drop_last().push(old_cur));
                lemma_filter_push(old_pieces.drop_last(), old_cur, kept);
            }
            if !cur.as_str().is_empty() {
                done.push(cur);
                cur = String::new();
                assert(views(done@) =~= old_done.push(old_cur));
            }
            assert(cur@ =~= Seq::<char>::empty());
        } else {
            cur.push(x);
            proof {
                pieces = old_pieces.drop_last().push(cur@);
                assert(pieces.drop_last() =~= old_pieces.drop_last());
            }
        }
        i = i + 1;
    }
    assert(s@.take(i as int) =~= s@);
    let ghost old_cur = cur@;
    let ghost old_done = views(done@);
    proof {
        assert(pieces =~= pieces.drop_last().push(old_cur));
        lemma_filter_push(pieces.drop_last(), old_cur, kept);
    }
    if !cur.as_str().is_empty() {
        done.push(cur);
        assert(views(done@) =~= old_done.push(old_cur));
    }
    done
}

/// Filtering a sequence that grew by one element.
pub proof fn lemma_filter_push<A>(s: Seq<A>, x: A, keep: spec_fn(A) -> bool)
    ensures
        s.push(x).filter(keep) == if keep(x) {
            s.filter(keep).push(x)
        } else {
            s.filter(keep)
        },
{
    reveal(Seq::filter);
    assert(s.push(x).drop_last() =~= s);
}

// ----- case folding -----

/// The lower case of an ASCII letter; every other character is kept.
pub open spec fn lower_char(c: char) -> char {
    if 'A' <= c <= 'Z' {
        (c as u32 + 32) as char
    } else {
        c
    }
}

/// `s` with its ASCII letters in lower case.
pub open spec fn lower(s: Seq<char>) -> Seq<char> {
    s.map_values(|c: char| lower_char(c))
}

/// The lower case of an ASCII letter; every other character is kept.
pub fn to_lower_char(c: char) -> (res: char)
    ensures
        res == lower_char(c),
{
    if 'A' <= c && c <= 'Z' {
        let b: u8 = c as u8;
        (b + 32) as char
    } else {
        c
    }
}

/// `s` with its ASCII letters in lower case.
pub fn to_lower(s: &str) -> (res: String)
    ensures
        res@ == lower(s@),
{
    let chars = to_chars(s);
    let mut out = String::new();
    let mut i: usize = 0;
    while i < chars.len()
        invariant
            i <= chars@.len(),
            chars@ == s@,
            out@ == lower(s@.take(i as int)),
        decreases chars@.len() - i,
    {
        out.push(to_lower_char(chars[i]));
        i = i + 1;
        assert(out@ =~= lower(s@.take(i as int)));
    }
    assert(s@.take(i as int) =~= s@);
    out
}

/// Whether two texts are the same up to the case of ASCII letters.
pub fn same_ignoring_case(a: &str, b: &str) -> (res: bool)
    ensures
        res == (lower(a@) == lower(b@)),
{
    let x = to_lower(a);
    let y = to_lower(b);
    same_text(x.as_str(), y.as_str())
}

// ----- decimal numbers -----

/// The character of a decimal digit.
pub open spec fn digit_char(d: int) -> char {
    (48 + d) as char
}

/// The digits `0` to `9`.
pub open spec fn is_digit(c: char) -> bool {
    '0' <= c <= '9'
}

/// `s` holds decimal digits alone.
pub open spec fn all_digits(s: Seq<char>) -> bool {
    forall|i: int| 0 <= i < s.len() ==> is_digit(#[trigger] s[i])
}

/// The decimal notation of `n`, without leading zeros.
pub open spec fn decimal(n: nat) -> Seq<char>
    decreases n,
{
    if n < 10 {
        seq![digit_char(n as int)]
    } else {
        decimal(n / 10).push(digit_char((n % 10) as int))
    }
}

/// The decimal notation of `i`, with a sign where it is negative.
pub open spec fn signed_decimal(i: int) -> Seq<char> {
    if i < 0 {
        seq!['-'] + decimal((-i) as nat)
    } else {
        decimal(i as nat)
    }
}

/// The number that a sequence of digits denotes.
pub open spec fn digits_value(s: Seq<char>) -> nat
    decreases s.len(),
{
    if s.len() == 0 {
        0
    } else {
        10 * digits_value(s.drop_last()) + (s.last() as u32 - 48) as nat
    }
}

/// What `s` denotes as an unsigned number of at most `max`: digits with an optional `+` in front.
pub open spec fn parsed(s: Seq<char>, max: nat) -> Option<nat> {
    let digits = if s.len() > 0 && s[0] == '+' {
        s.drop_first()
    } else {
        s
    };
    if digits.len() > 0 && all_digits(digits) && digits_value(digits) <= max {
        Some(digits_value(digits))
    } else {
        None
    }
}

/// Appends the decimal notation of `n`.
pub fn push_decimal(out: &mut String, n: u64)
    ensures
        final(out)@ == old(out)@ + decimal(n as nat),
    decreases n,
{
    if n >= 10 {
        push_decimal(out, n / 10);
    }
    let d: u8 = (n % 10) as u8;
    out.push((48 + d) as char);
    assert(out@ =~= old(out)@ + decimal(n as nat));
}

/// The decimal notation of `n`.
pub fn decimal_text(n: u64) -> (res: String)
    ensures
        res@ == decimal(n as nat),
{
    let mut out = String::new();
    push_decimal(&mut out, n);
    assert(out@ =~= decimal(n as nat));
    out
}

/// The decimal notation of `i`, with a sign where it is negative.
pub fn signed_decimal_text(i: i64) -> (res: String)
    ensures
        res@ == signed_decimal(i as int),
{
    let mut out = String::new();
    if i < 0 {
        let wide: i128 = -(i as i128);
        out.push('-');
        push_decimal(&mut out, wide as u64);
        assert(out@ =~= signed_decimal(i as int));
    } else {
        push_decimal(&mut out, i as u64);
        assert(out@ =~= signed_decimal(i as int));
    }
    out
}

/// The value of a prefix is at most the value of the whole.
pub proof fn lemma_digits_value_prefix(s: Seq<char>, i: int)
    requires
        0 <= i <= s.len(),
        all_digits(s),
    ensures
        digits_value(s.take(i)) <= digits_value(s),
    decreases s.len() - i,
{
    if i < s.len() {
        assert(s.take(i + 1).drop_last() =~= s.take(i));
        lemma_digits_value_prefix(s, i + 1);
    } else {
        assert(s.take(i) =~= s);
    }
}

/// Reads an unsigned decimal number of at most `max`.
pub fn parse_uint(s: &str, max: u64) -> (res: Option<u64>)
    ensures
        match res {
            Some(v) => parsed(s@, max as nat) == Some(v as nat),
            None => parsed(s@, max as nat) is None,
        },
{
    let chars = to_chars(s);
    let n: usize = chars.len();
    let start: usize = if n > 0 && chars[0] == '+' {
        1
    } else {
        0
    };
    let ghost digits = if s@.len() > 0 && s@[0] == '+' {
        s@.drop_first()
    } else {
        s@
    };
    assert(digits =~= s@.skip(start as int));
    if start == n {
        return None;
    }
    let mut value: u64 = 0;
    let mut i: usize = start;
    assert(digits.take(0) =~= Seq::<char>::empty());
    while i < n
        invariant
            n == chars@.len(),
            start <= i <= n,
            chars@ == s@,
            digits == s@.skip(start as int),
            digits.len() == n - start,
            parsed(s@, max as nat) == (if digits.len() > 0 && all_digits(digits) && digits_value(
                digits,
            ) <= max {
                Some(digits_value(digits))
            } else {
                None
            }),
            value == digits_value(digits.take(i - start)),
            value <= max,
            forall|k: int| 0 <= k < i - start ==> is_digit(#[trigger] digits[k]),
        decreases n - i,
    {
        let c: char = chars[i];
        assert(digits[i - start] == c);
        if !('0' <= c && c <= '9') {
            assert(!all_digits(digits));
            return None;
        }
        let d: u64 = (c as u8 - 48) as u64;
        assert(digits.take(i + 1 - start).drop_last() =~= digits.take(i - start));
        assert(digits_value(digits.take(i + 1 - start)) == 10 * value + d);
        if value > (u64::MAX - d) / 10 || value * 10 + d > max {
            proof {
                if all_digits(digits) {
                    lemma_digits_value_prefix(digits, i + 1 - start);
                }
            }
            return None;
        }
        value = value * 10 + d;
        i = i + 1;
    }
    assert(digits.take(n - start) =~= digits);
    assert(all_digits(digits));
    Some(value)
}

/// Reads a port number.
pub fn parse_port(s: &str) -> (res: Option<u16>)
    ensures
        match res {
            Some(v) => parsed(s@, u16::MAX as nat) == Some(v as nat),
            None => parsed(s@, u16::MAX as nat) is None,
        },
{
    match parse_uint(s, u16::MAX as u64) {
        Some(v) => {
            assert(v <= u16::MAX);
            Some(v as u16)
        },
        None => None,
    }
}

/// The decimal notation of a number is digits alone, at least one, and denotes that number.
pub proof fn law_decimal_denotes(n: nat)
    ensures
        decimal(n).len() >= 1,
        all_digits(decimal(n)),
        digits_value(decimal(n)) == n,
    decreases n,
{
    if n < 10 {
        assert(decimal(n).drop_last() =~= Seq::<char>::empty());
        assert(decimal(n).last() == digit_char(n as int));
        assert(digits_value(Seq::<char>::empty()) == 0);
    } else {
        law_decimal_denotes(n / 10);
        assert(decimal(n).drop_last() =~= decimal(n / 10));
        assert(decimal(n).last() == digit_char((n % 10) as int));
    }
}

/// Reading back the decimal notation of a number gives that number.
pub proof fn law_decimal_round_trip(n: nat, max: nat)
    requires
        n <= max,
    ensures
        parsed(decimal(n), max) == Some(n),
{
    law_decimal_denotes(n);
    assert(is_digit(decimal(n)[0]));
}

/// Different integers have different decimal notations.
pub proof fn law_signed_decimal_injective(a: int, b: int)
    requires
        signed_decimal(a) == signed_decimal(b),
    ensures
        a == b,
{
    let (m, n) = (if a < 0 { (-a) as nat } else { a as nat }, if b < 0 { (-b) as nat } else { b as nat });
    law_decimal_denotes(m);
    law_decimal_denotes(n);
    assert(is_digit(decimal(m)[0]));
    assert(is_digit(decimal(n)[0]));
    if a < 0 {
        assert(signed_decimal(a)[0] == '-');
        assert(b < 0);
        assert(signed_decimal(a).drop_first() =~= decimal(m));
        assert(signed_decimal(b).drop_first() =~= decimal(n));
    } else if b < 0 {
        assert(signed_decimal(b)[0] == '-');
    }
}

// ----- replacing -----

/// `s` with each occurrence of `pat`, found from the left without overlaps, replaced by `by`.
pub open spec fn replaced(s: Seq<char>, pat: Seq<char>, by: Seq<char>) -> Seq<char>
    recommends
        pat.len() > 0,
    decreases s.len(),
{
    if pat.len() == 0 || s.len() < pat.len() {
        s
    } else if begins_with(s, pat) {
        by + replaced(s.skip(pat.len() as int), pat, by)
    } else {
        seq![s[0]] + replaced(s.skip(1), pat, by)
    }
}

/// `s` with the first occurrence of `pat` replaced by `by`.
pub open spec fn replaced_first(s: Seq<char>, pat: Seq<char>, by: Seq<char>) -> Seq<char>
    recommends
        pat.len() > 0,
    decreases s.len(),
{
    if pat.len() == 0 || s.len() < pat.len() {
        s
    } else if begins_with(s, pat) {
        by + s.skip(pat.len() as int)
    } else {
        seq![s[0]] + replaced_first(s.skip(1), pat, by)
    }
}

proof fn lemma_occurs_skip(s: Seq<char>, pat: Seq<char>, i: int)
    requires
        0 <= i <= s.len(),
    ensures
        occurs_at(s, pat, i) == begins_with(s.skip(i), pat),
{
    if i + pat.len() <= s.len() {
        assert(s.skip(i).subrange(0, pat.len() as int) =~= s.subrange(i, i + pat.len()));
    }
}

/// `s` with each occurrence of `pat` replaced by `by`.
pub fn replace_text(s: &str, pat: &str, by: &str) -> (res: String)
    requires
        pat@.len() > 0,
    ensures
        res@ == replaced(s@, pat@, by@),
{
    let chars = to_chars(s);
    let p = to_chars(pat);
    let n: usize = chars.len();
    let mut out = String::new();
    let mut i: usize = 0;
    assert(s@.skip(0) =~= s@);
    assert(out@ + replaced(s@.skip(0), pat@, by@) =~= replaced(s@, pat@, by@));
    while i < n
        invariant
            n == chars@.len(),
            i <= n,
            chars@ == s@,
            p@ == pat@,
            pat@.len() > 0,
            out@ + replaced(s@.skip(i as int), pat@, by@) == replaced(s@, pat@, by@),
        decreases n - i,
    {
        let ghost before = out@;
        let ghost rest = s@.skip(i as int);
        proof {
            lemma_occurs_skip(s@, pat@, i as int);
        }
        if matches_at(&chars, &p, i) {
            out.append(by);
            i = i + p.len();
            assert(rest.skip(pat@.len() as int) =~= s@.skip(i as int));
            assert(out@ + replaced(s@.skip(i as int), pat@, by@) =~= before + replaced(
                rest,
                pat@,
                by@,
            ));
        } else {
            out.push(chars[i]);
            assert(rest.skip(1) =~= s@.skip(i + 1));
            proof {
                if rest.len() < pat@.len() {
                    assert(replaced(rest.skip(1), pat@, by@) =~= rest.skip(1));
                }
            }
            assert(out@ + replaced(s@.skip(i + 1), pat@, by@) =~= before + replaced(
                rest,
                pat@,
                by@,
            ));
            i = i + 1;
        }
    }
    assert(s@.skip(n as int) =~= Seq::<char>::empty());
    assert(out@ =~= out@ + replaced(s@.skip(i as int), pat@, by@));
    out
}

/// `s` with the first occurrence of `pat` replaced by `by`.
pub fn replace_first(s: &str, pat: &str, by: &str) -> (res: String)
    requires
        pat@.len() > 0,
    ensures
        res@ == replaced_first(s@, pat@, by@),
{
    let chars = to_chars(s);
    let p = to_chars(pat);
    let n: usize = chars.len();
    let mut out = String::new();
    let mut i: usize = 0;
    assert(s@.skip(0) =~= s@);
    assert(out@ + replaced_first(s@.skip(0), pat@, by@) =~= replaced_first(s@, pat@, by@));
    while i < n
        invariant
            n == chars@.len(),
            i <= n,
            chars@ == s@,
            p@ == pat@,
            pat@.len() > 0,
            out@ + replaced_first(s@.skip(i as int), pat@, by@) == replaced_first(s@, pat@, by@),
        decreases n - i,
    {
        let ghost before = out@;
        let ghost rest = s@.skip(i as int);
        proof {
            lemma_occurs_skip(s@, pat@, i as int);
        }
        if matches_at(&chars, &p, i) {
            out.append(by);
            let tail = from_chars(&chars, i + p.len(), n);
            assert(tail@ =~= rest.skip(pat@.len() as int));
            out.append(tail.as_str());
            assert(out@ =~= before + replaced_first(rest, pat@, by@));
            return out;
        }
        out.push(chars[i]);
        assert(rest.skip(1) =~= s@.skip(i + 1));
        proof {
            if rest.len() < pat@.len() {
                assert(replaced_first(rest.skip(1), pat@, by@) =~= rest.skip(1));
            }
        }
        assert(out@ + replaced_first(s@.skip(i + 1), pat@, by@) =~= before + replaced_first(
            rest,
            pat@,
            by@,
        ));
        i = i + 1;
    }
    assert(s@.skip(n as int) =~= Seq::<char>::empty());
    assert(out@ =~= out@ + replaced_first(s@.skip(i as int), pat@, by@));
    out
}

// ----- joining and cutting -----

/// `rel` below the directory `base`, as a Unix path. One that begins at the root stays where it is.
pub open spec fn path_join(base: Seq<char>, rel: Seq<char>) -> Seq<char> {
    if base.len() == 0 || rel.len() > 0 && rel[0] == '/' {
        rel
    } else if base.last() == '/' {
        base + rel
    } else {
        base.push('/') + rel
    }
}

/// The path of `rel` below the directory `base`.
pub fn join_path(base: &str, rel: &str) -> (res: String)
    ensures
        res@ == path_join(base@, rel@),
{
    let chars = to_chars(base);
    let tail = to_chars(rel);
    if tail.len() > 0 && tail[0] == '/' {
        return rel.to_owned();
    }
    let mut out = base.to_owned();
    if chars.len() > 0 && chars[chars.len() - 1] != '/' {
        out.push('/');
    }
    out.append(rel);
    assert(out@ =~= path_join(base@, rel@));
    out
}

/// The parts one after the other, with `sep` between them.
pub open spec fn joined(parts: Seq<Seq<char>>, sep: Seq<char>) -> Seq<char>
    decreases parts.len(),
{
    if parts.len() == 0 {
        Seq::empty()
    } else if parts.len() == 1 {
        parts[0]
    } else {
        joined(parts.drop_last(), sep) + sep + parts.last()
    }
}

/// The strings one after the other, with `sep` between them.
pub fn join(parts: &Vec<String>, sep: &str) -> (res: String)
    ensures
        res@ == joined(views(parts@), sep@),
{
    let mut out = String::new();
    let mut i: usize = 0;
    assert(views(parts@).take(0) =~= Seq::<Seq<char>>::empty());
    while i < parts.len()
        invariant
            i <= parts@.len(),
            out@ == joined(views(parts@).take(i as int), sep@),
        decreases parts@.len() - i,
    {
        let ghost next = views(parts@).take(i + 1);
        assert(next.drop_last() =~= views(parts@).take(i as int));
        assert(next.last() == parts@[i as int]@);
        if i > 0 {
            out.append(sep);
        }
        out.append(parts[i].as_str());
        i = i + 1;
        assert(out@ =~= joined(next, sep@));
    }
    assert(views(parts@).take(i as int) =~= views(parts@));
    out
}

/// The first `n` characters, or all of them where there are fewer.
pub open spec fn first_chars(s: Seq<char>, n: nat) -> Seq<char> {
    if s.len() <= n {
        s
    } else {
        s.take(n as int)
    }
}

/// The first `n` characters of `s`, or all of them where there are fewer.
pub fn cut(s: &str, n: usize) -> (res: String)
    ensures
        res@ == first_chars(s@, n as nat),
{
    let chars = to_chars(s);
    if chars.len() <= n {
        s.to_owned()
    } else {
        assert(s@.take(n as int) =~= s@.subrange(0, n as int));
        from_chars(&chars, 0, n)
    }
}

/// The view of an optional string.
pub open spec fn opt_view(o: Option<String>) -> Option<Seq<char>> {
    match o {
        Some(s) => Some(s@),
        None => None,
    }
}

/// The view of an optional string slice.
pub open spec fn opt_str(o: Option<&str>) -> Option<Seq<char>> {
    match o {
        Some(s) => Some(s@),
        None => None,
    }
}

// ----- words -----

/// `s` is not empty and holds no white space.
pub open spec fn is_word(s: Seq<char>) -> bool {
    s.len() > 0 && forall|i: int| 0 <= i < s.len() ==> !is_space(#[trigger] s[i])
}

/// Characters that do not separate lengthen the last piece.
pub proof fn lemma_split_by_run(s: Seq<char>, w: Seq<char>, sep: spec_fn(char) -> bool)
    requires
        forall|i: int| 0 <= i < w.len() ==> !sep(#[trigger] w[i]),
    ensures
        split_by(s + w, sep) == split_by(s, sep).drop_last().push(split_by(s, sep).last() + w),
    decreases w.len(),
{
    lemma_split_by_nonempty(s, sep);
    let before = split_by(s, sep);
    if w.len() == 0 {
        assert(s + w =~= s);
        assert(before.last() + w =~= before.last());
        assert(before =~= before.drop_last().push(before.last() + w));
    } else {
        let shorter = w.drop_last();
        lemma_split_by_run(s, shorter, sep);
        assert((s + w).drop_last() =~= s + shorter);
        assert((s + w).last() == w.last());
        let mid = split_by(s + shorter, sep);
        assert(mid.drop_last() =~= before.drop_last());
        assert(mid.last().push(w.last()) =~= before.last() + w);
    }
}

/// Two words with a blank between them and a line feed behind them are read as those two words.
pub proof fn lemma_two_words(a: Seq<char>, b: Seq<char>)
    requires
        is_word(a),
        is_word(b),
    ensures
        words(a.push(' ') + b.push('\n')) == seq![a, b],
{
    let sep = |x: char| is_space(x);
    let kept = |w: Seq<char>| w.len() > 0;
    let none = Seq::<char>::empty();
    lemma_split_by_run(none, a, sep);
    assert(split_by(none, sep) =~= seq![none]);
    assert(none + a =~= a);
    assert(split_by(a, sep) =~= seq![a]);
    let first = a.push(' ');
    assert(first.drop_last() =~= a);
    assert(split_by(first, sep) =~= seq![a, none]);
    lemma_split_by_run(first, b, sep);
    assert(none + b =~= b);
    assert(split_by(first + b, sep) =~= seq![a, b]);
    let line = first + b.push('\n');
    assert(line.drop_last() =~= first + b);
    assert(split_by(line, sep) =~= seq![a, b, none]);
    reveal(Seq::filter);
    assert(seq![a, b, none] =~= Seq::<Seq<char>>::empty().push(a).push(b).push(none));
    lemma_filter_push(Seq::<Seq<char>>::empty().push(a).push(b), none, kept);
    lemma_filter_push(Seq::<Seq<char>>::empty().push(a), b, kept);
    lemma_filter_push(Seq::<Seq<char>>::empty(), a, kept);
    assert(words(line) =~= seq![a, b]);
}

/// A line that begins and ends with other characters than white space is what trimming leaves of
/// it once a line feed is put behind it.
pub proof fn lemma_trim_line(s: Seq<char>)
    requires
        s.len() > 0,
        !is_space(s[0]),
        !is_space(s.last()),
    ensures
        trimmed(s.push('\n')) == s,
{
    assert(s.push('\n')[0] == s[0]);
    assert(trim_front(s.push('\n')) == s.push('\n'));
    assert(s.push('\n').drop_last() =~= s);
    assert(trim_back(s) == s);
}

// ----- what the operations mean -----

/// Leading white space goes, and nothing else.
proof fn lemma_trim_front(s: Seq<char>) -> (k: int)
    ensures
        0 <= k <= s.len(),
        trim_front(s) == s.skip(k),
        forall|i: int| 0 <= i < k ==> is_space(#[trigger] s[i]),
        k < s.len() ==> !is_space(s[k]),
    decreases s.len(),
{
    if s.len() > 0 && is_space(s[0]) {
        let j = lemma_trim_front(s.drop_first());
        assert(s.drop_first().skip(j) =~= s.skip(j + 1));
        assert forall|i: int| 0 <= i < j + 1 implies is_space(#[trigger] s[i]) by {
            if i > 0 {
                assert(s[i] == s.drop_first()[i - 1]);
            }
        }
        j + 1
    } else {
        assert(s.skip(0) =~= s);
        0
    }
}

/// Trailing white space goes, and nothing else.
proof fn lemma_trim_back(s: Seq<char>) -> (k: int)
    ensures
        0 <= k <= s.len(),
        trim_back(s) == s.take(k),
        forall|i: int| k <= i < s.len() ==> is_space(#[trigger] s[i]),
        k > 0 ==> !is_space(s[k - 1]),
    decreases s.len(),
{
    if s.len() > 0 && is_space(s.last()) {
        let j = lemma_trim_back(s.drop_last());
        assert(s.drop_last().take(j) =~= s.take(j));
        assert forall|i: int| j <= i < s.len() implies is_space(#[trigger] s[i]) by {
            if i < s.len() - 1 {
                assert(s[i] == s.drop_last()[i]);
            }
        }
        j
    } else {
        assert(s.take(s.len() as int) =~= s);
        s.len() as int
    }
}

/// Trimming takes away white space at both ends and nothing else: what is left is a piece of the
/// text with nothing but white space before and behind it, and it neither begins nor ends with white
/// space.
pub proof fn law_trimming_keeps_the_middle(s: Seq<char>)
    ensures
        exists|from: int, to: int|
            0 <= from <= to <= s.len() && trimmed(s) == #[trigger] s.subrange(from, to) && (
            forall|i: int| 0 <= i < from || to <= i < s.len() ==> is_space(#[trigger] s[i])),
        trimmed(s).len() > 0 ==> !is_space(trimmed(s)[0]) && !is_space(trimmed(s).last()),
        trimmed(s).len() == 0 <==> forall|i: int| 0 <= i < s.len() ==> is_space(#[trigger] s[i]),
{
    let from = lemma_trim_front(s);
    let rest = s.skip(from);
    let n = lemma_trim_back(rest);
    let to = from + n;
    assert(rest.take(n) =~= s.subrange(from, to));
    assert forall|i: int| 0 <= i < from || to <= i < s.len() implies is_space(#[trigger] s[i]) by {
        if i >= to {
            assert(s[i] == rest[i - from]);
        }
    }
    if n > 0 {
        assert(trimmed(s).last() == rest[n - 1]);
        if is_space(rest[0]) {
            assert(s[from] == rest[0]);
        }
        assert(trimmed(s)[0] == s[from]);
        assert(!is_space(s[from]));
    }
}

/// A text without white space at its ends is what trimming leaves of it.
pub proof fn law_trimmed_stays(s: Seq<char>)
    requires
        s.len() > 0 ==> !is_space(s[0]) && !is_space(s.last()),
    ensures
        trimmed(s) == s,
{
}

/// What has a place on paper is no white space; blanks, tabs and the ends of lines are.
pub proof fn law_visible_characters_are_no_space(c: char)
    ensures
        '!' <= c <= '~' ==> !is_space(c),
        c == ' ' || c == '\t' || c == '\n' || c == '\r' ==> is_space(c),
        is_digit(c) ==> !is_space(c),
{
}

/// Only the run of the character at the end goes.
pub proof fn law_stripping_takes_the_run(s: Seq<char>, c: char)
    ensures
        exists|k: int|
            0 <= k <= s.len() && without_trailing(s, c) == #[trigger] s.take(k) && (forall|i: int|
                k <= i < s.len() ==> #[trigger] s[i] == c),
        without_trailing(s, c).len() > 0 ==> without_trailing(s, c).last() != c,
    decreases s.len(),
{
    if s.len() > 0 && s.last() == c {
        law_stripping_takes_the_run(s.drop_last(), c);
        let t = s.drop_last();
        let k = choose|k: int|
            0 <= k <= t.len() && without_trailing(t, c) == #[trigger] t.take(k) && (forall|i: int|
                k <= i < t.len() ==> #[trigger] t[i] == c);
        assert(t.take(k) =~= s.take(k));
        assert forall|i: int| k <= i < s.len() implies #[trigger] s[i] == c by {
            if i < s.len() - 1 {
                assert(s[i] == t[i]);
            }
        }
    } else {
        assert(s.take(s.len() as int) =~= s);
    }
}

/// A text that does not end with the character stays as it is.
pub proof fn law_nothing_to_strip(s: Seq<char>, c: char)
    requires
        s.len() > 0 ==> s.last() != c,
    ensures
        without_trailing(s, c) == s,
{
}

/// What stands on both sides of a separator is cut on its own.
pub proof fn law_split_at_separator(a: Seq<char>, c: char, b: Seq<char>)
    ensures
        split_on(a.push(c) + b, c) == split_on(a, c) + split_on(b, c),
    decreases b.len(),
{
    let sep = just(c);
    lemma_split_by_nonempty(b, sep);
    if b.len() == 0 {
        assert(a.push(c) + b =~= a.push(c));
        assert(a.push(c).drop_last() =~= a);
        assert(split_by(b, sep) =~= seq![Seq::<char>::empty()]);
        assert(split_by(a, sep) + split_by(b, sep) =~= split_by(a, sep).push(
            Seq::<char>::empty(),
        ));
    } else {
        let whole = a.push(c) + b;
        let shorter = b.drop_last();
        law_split_at_separator(a, c, shorter);
        lemma_split_by_nonempty(shorter, sep);
        assert(whole.drop_last() =~= a.push(c) + shorter);
        assert(whole.last() == b.last());
        assert(split_by(whole, sep) =~= split_by(a, sep) + split_by(b, sep));
    }
}

/// A text without the separator is one piece.
pub proof fn law_one_piece(s: Seq<char>, c: char)
    requires
        !s.contains(c),
    ensures
        split_on(s, c) == seq![s],
{
    let none = Seq::<char>::empty();
    assert forall|i: int| 0 <= i < s.len() implies !just(c)(#[trigger] s[i]) by {
        assert(s.contains(s[i]));
    }
    lemma_split_by_run(none, s, just(c));
    assert(none + s =~= s);
    assert(split_by(none, just(c)) =~= seq![none]);
    assert(split_on(s, c) =~= seq![s]);
}

/// The pieces hold no separator, and with the separator between them they are the text again.
pub proof fn law_pieces_make_the_text(s: Seq<char>, c: char)
    ensures
        joined(split_on(s, c), seq![c]) == s,
        forall|i: int| 0 <= i < split_on(s, c).len() ==> !(#[trigger] split_on(s, c)[i]).contains(c),
    decreases s.len(),
{
    let sep = just(c);
    lemma_split_by_nonempty(s, sep);
    let all = split_on(s, c);
    if s.len() == 0 {
        assert(all =~= seq![Seq::<char>::empty()]);
        assert(joined(all, seq![c]) =~= s);
    } else {
        let t = s.drop_last();
        law_pieces_make_the_text(t, c);
        lemma_split_by_nonempty(t, sep);
        let before = split_on(t, c);
        assert(s =~= t.push(s.last()));
        if sep(s.last()) {
            assert(all.drop_last() =~= before);
            assert(joined(all, seq![c]) =~= joined(before, seq![c]) + seq![c]
                + Seq::<char>::empty());
            assert(joined(all, seq![c]) =~= s);
        } else {
            assert(all.drop_last() =~= before.drop_last());
            if before.len() == 1 {
                assert(joined(all, seq![c]) =~= s);
            } else {
                assert(joined(all, seq![c]) =~= joined(before.drop_last(), seq![c]) + seq![c]
                    + before.last().push(s.last()));
                assert(joined(before, seq![c]).push(s.last()) =~= joined(all, seq![c]));
            }
            assert forall|i: int| 0 <= i < all.len() implies !(#[trigger] all[i]).contains(c) by {
                if i < before.len() - 1 {
                    assert(all[i] == before[i]);
                } else {
                    let last = before.last();
                    assert(!before[before.len() - 1].contains(c));
                    assert(all[i] == last.push(s.last()));
                    if all[i].contains(c) {
                        let j = choose|j: int| 0 <= j < all[i].len() && all[i][j] == c;
                        assert(j < last.len());
                        assert(last[j] == c);
                    }
                }
            }
        }
    }
}

/// Pieces without the separator, put together with it and cut again, are the same pieces.
pub proof fn law_joined_pieces_come_apart(parts: Seq<Seq<char>>, c: char)
    requires
        parts.len() > 0,
        forall|i: int| 0 <= i < parts.len() ==> !(#[trigger] parts[i]).contains(c),
    ensures
        split_on(joined(parts, seq![c]), c) == parts,
    decreases parts.len(),
{
    if parts.len() == 1 {
        law_one_piece(parts[0], c);
        assert(parts =~= seq![parts[0]]);
    } else {
        let rest = parts.drop_last();
        assert forall|i: int| 0 <= i < rest.len() implies !(#[trigger] rest[i]).contains(c) by {
            assert(rest[i] == parts[i]);
        }
        law_joined_pieces_come_apart(rest, c);
        assert(!parts[parts.len() - 1].contains(c));
        law_one_piece(parts.last(), c);
        law_split_at_separator(joined(rest, seq![c]), c, parts.last());
        assert(joined(parts, seq![c]) =~= joined(rest, seq![c]).push(c) + parts.last());
        assert(rest + seq![parts.last()] =~= parts);
    }
}

/// The decimal notation is positional: one digit for a number below ten, and ten times a number with
/// a digit more has that digit behind it.
pub proof fn law_decimal_is_positional(n: nat, d: nat)
    requires
        d < 10,
    ensures
        decimal(d).len() == 1 && decimal(d)[0] as int == '0' as int + d,
        n > 0 ==> decimal(10 * n + d) == decimal(n) + decimal(d),
{
    if n > 0 {
        assert((10 * n + d) / 10 == n);
        assert((10 * n + d) % 10 == d);
        assert(decimal(n) + decimal(d) =~= decimal(n).push(digit_char(d as int)));
    }
}

/// A number with a sign: a minus in front of the number below it, and no sign in front of the others.
pub proof fn law_sign_stands_in_front(n: nat)
    ensures
        signed_decimal(n as int) == decimal(n),
        n > 0 ==> signed_decimal(-n) == seq!['-'] + decimal(n),
{
}

/// What is read as a number is digits, with a plus in front of them or not, and at most the limit.
/// Digits that denote more, and anything else, are not read.
pub proof fn law_only_digits_are_read(s: Seq<char>, max: nat)
    ensures
        parsed(s, max) matches Some(v) ==> v <= max && s.len() > 0 && (is_digit(s[0]) || s[0] == '+')
            && forall|i: int| 1 <= i < s.len() ==> is_digit(#[trigger] s[i]),
        s.len() > 0 && all_digits(s) && digits_value(s) <= max ==> parsed(s, max) == Some(
            digits_value(s),
        ),
        s.len() > 0 && all_digits(s) && digits_value(s) > max ==> parsed(s, max) is None,
        s.len() == 0 ==> parsed(s, max) is None,
{
    if s.len() > 0 && all_digits(s) {
        assert(is_digit(s[0]));
    }
    if parsed(s, max) is Some {
        if s[0] == '+' {
            let digits = s.drop_first();
            assert forall|i: int| 1 <= i < s.len() implies is_digit(#[trigger] s[i]) by {
                assert(s[i] == digits[i - 1]);
            }
        } else {
            assert(is_digit(s[0]));
        }
    }
}

/// Capital letters of ASCII become small, and nothing else changes.
pub proof fn law_lower_case(s: Seq<char>, i: int)
    requires
        0 <= i < s.len(),
    ensures
        lower(s).len() == s.len(),
        !('A' <= lower(s)[i] <= 'Z'),
        !('A' <= s[i] <= 'Z') ==> lower(s)[i] == s[i],
        'A' <= s[i] <= 'Z' ==> lower(s)[i] as int - 'a' as int == s[i] as int - 'A' as int,
{
}

/// A file below a directory: the path begins with the directory and ends with the name, with one slash
/// between them. A name that begins at the root is a path of its own.
pub proof fn law_path_below_directory(base: Seq<char>, rel: Seq<char>)
    requires
        rel.len() > 0,
    ensures
        rel[0] == '/' ==> path_join(base, rel) == rel,
        rel[0] != '/' && base.len() > 0 && base.last() != '/' ==> path_join(base, rel) == base
            + seq!['/'] + rel,
        rel[0] != '/' && base.len() > 0 && base.last() == '/' ==> path_join(base, rel) == base + rel,
{
    if rel[0] != '/' && base.len() > 0 && base.last() != '/' {
        assert(path_join(base, rel) =~= base + seq!['/'] + rel);
    }
}

/// A text that is cut is the beginning of the text, as long as is allowed.
pub proof fn law_cut_text_is_the_beginning(s: Seq<char>, n: nat)
    ensures
        first_chars(s, n).len() <= n,
        first_chars(s, n).len() == n || first_chars(s, n) == s,
        forall|i: int| 0 <= i < first_chars(s, n).len() ==> #[trigger] first_chars(s, n)[i] == s[i],
{
}

/// A text stays as it is where there is nothing to replace in it.
pub proof fn law_nothing_to_replace(s: Seq<char>, pat: Seq<char>, by: Seq<char>)
    requires
        !has_text(s, pat),
    ensures
        replaced(s, pat, by) == s,
        replaced_first(s, pat, by) == s,
    decreases s.len(),
{
    if pat.len() > 0 && s.len() >= pat.len() {
        assert(!occurs_at(s, pat, 0));
        let rest = s.skip(1);
        if has_text(rest, pat) {
            let i = choose|i: int| occurs_at(rest, pat, i);
            assert(s.subrange(i + 1, i + 1 + pat.len()) =~= rest.subrange(i, i + pat.len()));
            assert(occurs_at(s, pat, i + 1));
        }
        law_nothing_to_replace(rest, pat, by);
        assert(seq![s[0]] + rest =~= s);
    }
}

/// Only the first occurrence is replaced, and what stands before and behind it stays.
pub proof fn law_first_occurrence_is_replaced(
    s: Seq<char>,
    pat: Seq<char>,
    by: Seq<char>,
    at: int,
)
    requires
        pat.len() > 0,
        occurs_at(s, pat, at),
        forall|i: int| 0 <= i < at ==> !#[trigger] occurs_at(s, pat, i),
    ensures
        replaced_first(s, pat, by) == s.take(at) + by + s.skip(at + pat.len()),
    decreases at,
{
    if at == 0 {
        assert(s.take(0) + by + s.skip(pat.len() as int) =~= by + s.skip(pat.len() as int));
    } else {
        assert(!occurs_at(s, pat, 0));
        let rest = s.skip(1);
        assert(rest.subrange(at - 1, at - 1 + pat.len()) =~= s.subrange(at, at + pat.len()));
        assert forall|i: int| 0 <= i < at - 1 implies !#[trigger] occurs_at(rest, pat, i) by {
            assert(!occurs_at(s, pat, i + 1));
            if occurs_at(rest, pat, i) {
                assert(s.subrange(i + 1, i + 1 + pat.len()) =~= rest.subrange(i, i + pat.len()));
            }
        }
        law_first_occurrence_is_replaced(rest, pat, by, at - 1);
        assert(rest.skip(at - 1 + pat.len()) =~= s.skip(at + pat.len()));
        assert(seq![s[0]] + (rest.take(at - 1) + by + rest.skip(at - 1 + pat.len())) =~= s.take(at)
            + by + s.skip(at + pat.len()));
    }
}

} // verus!
