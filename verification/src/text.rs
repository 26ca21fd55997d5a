//! Character-level text utilities with exact specifications.
use vstd::prelude::*;

verus! {

// ---------------------------------------------------------------------------
// Specifications
// ---------------------------------------------------------------------------

/// The ASCII digit for a value below ten.
pub open spec fn digit_char(d: nat) -> char {
    if d == 0 { '0' }
    else if d == 1 { '1' }
    else if d == 2 { '2' }
    else if d == 3 { '3' }
    else if d == 4 { '4' }
    else if d == 5 { '5' }
    else if d == 6 { '6' }
    else if d == 7 { '7' }
    else if d == 8 { '8' }
    else { '9' }
}

/// The decimal representation of a natural number, without leading zeros.
pub open spec fn decimal(n: nat) -> Seq<char>
    decreases n,
{
    if n < 10 {
        seq![digit_char(n)]
    } else {
        decimal(n / 10).push(digit_char(n % 10))
    }
}

/// `s` with `'0'` prepended until it is at least `width` characters long.
pub open spec fn pad_zeros(s: Seq<char>, width: nat) -> Seq<char>
    decreases width,
{
    if s.len() >= width {
        s
    } else {
        seq!['0'] + pad_zeros(s, (width - 1) as nat)
    }
}

/// The decimal representation of a signed integer.
pub open spec fn signed_decimal(n: int) -> Seq<char> {
    if n < 0 {
        seq!['-'] + decimal((-n) as nat)
    } else {
        decimal(n as nat)
    }
}

/// `prefix` is a prefix of `s`.
pub open spec fn starts_with(s: Seq<char>, prefix: Seq<char>) -> bool {
    prefix.len() <= s.len() && s.subrange(0, prefix.len() as int) == prefix
}

/// `pat` occurs in `s` at position `i`.
pub open spec fn occurs_at(s: Seq<char>, pat: Seq<char>, i: int) -> bool {
    0 <= i && i + pat.len() <= s.len() && s.subrange(i, i + pat.len()) == pat
}

/// `pat` occurs somewhere in `s`.
pub open spec fn contains(s: Seq<char>, pat: Seq<char>) -> bool {
    exists|i: int| occurs_at(s, pat, i)
}

/// Every non-overlapping occurrence of `pat` in `s`, found from left to right,
/// replaced by `rep` (what `str::replace` computes).
pub open spec fn replace_all(s: Seq<char>, pat: Seq<char>, rep: Seq<char>) -> Seq<char>
    decreases s.len(),
{
    if pat.len() == 0 || s.len() < pat.len() {
        s
    } else if s.subrange(0, pat.len() as int) == pat {
        rep + replace_all(s.subrange(pat.len() as int, s.len() as int), pat, rep)
    } else {
        seq![s[0]] + replace_all(s.subrange(1, s.len() as int), pat, rep)
    }
}

/// The items of `items` separated by `sep`.
pub open spec fn join(items: Seq<Seq<char>>, sep: Seq<char>) -> Seq<char>
    decreases items.len(),
{
    if items.len() == 0 {
        Seq::empty()
    } else if items.len() == 1 {
        items[0]
    } else {
        join(items.drop_last(), sep) + sep + items.last()
    }
}

/// The concatenation of all items.
pub open spec fn concat(items: Seq<Seq<char>>) -> Seq<char>
    decreases items.len(),
{
    if items.len() == 0 {
        Seq::empty()
    } else {
        concat(items.drop_last()) + items.last()
    }
}

/// The lines of `s` as `str::lines` yields them: split after each `'\n'`,
/// where a `'\r'` just before that `'\n'` also ends the line; a final line
/// without `'\n'` is kept as it is, and an empty remainder yields no line.
pub open spec fn lines(s: Seq<char>) -> Seq<Seq<char>> {
    let (done, current) = lines_scan(s);
    if current.len() == 0 {
        done
    } else {
        done.push(current)
    }
}

/// The finished lines of `s` and the unfinished line after the last `'\n'`.
pub open spec fn lines_scan(s: Seq<char>) -> (Seq<Seq<char>>, Seq<char>)
    decreases s.len(),
{
    if s.len() == 0 {
        (Seq::empty(), Seq::empty())
    } else {
        let (done, current) = lines_scan(s.drop_last());
        if s.last() == '\n' {
            (done.push(strip_carriage_return(current)), Seq::empty())
        } else {
            (done, current.push(s.last()))
        }
    }
}

/// `s` without one trailing `'\r'`.
pub open spec fn strip_carriage_return(s: Seq<char>) -> Seq<char> {
    if s.len() > 0 && s.last() == '\r' {
        s.drop_last()
    } else {
        s
    }
}

/// The position of the first `c` in `s`.
pub open spec fn index_of(s: Seq<char>, c: char) -> Option<nat>
    decreases s.len(),
{
    if s.len() == 0 {
        None
    } else if s[0] == c {
        Some(0)
    } else {
        match index_of(s.drop_first(), c) {
            Some(k) => Some(k + 1),
            None => None,
        }
    }
}

/// The parts of `s` before and after its first `c` (what `str::split_once` gives).
pub open spec fn split_once(s: Seq<char>, c: char) -> Option<(Seq<char>, Seq<char>)> {
    match index_of(s, c) {
        Some(i) => Some((s.subrange(0, i as int), s.subrange(i as int + 1, s.len() as int))),
        None => None,
    }
}

/// Whether `c` has the Unicode `White_Space` property (what `char::is_whitespace` tests).
pub open spec fn is_whitespace(c: char) -> bool {
    ||| ('\u{9}' <= c && c <= '\u{d}')
    ||| c == ' '
    ||| c == '\u{85}'
    ||| c == '\u{a0}'
    ||| c == '\u{1680}'
    ||| ('\u{2000}' <= c && c <= '\u{200a}')
    ||| c == '\u{2028}'
    ||| c == '\u{2029}'
    ||| c == '\u{202f}'
    ||| c == '\u{205f}'
    ||| c == '\u{3000}'
}

/// `s` without leading and trailing whitespace (what `str::trim` gives).
pub open spec fn trim(s: Seq<char>) -> Seq<char>
    decreases s.len(),
{
    if s.len() > 0 && is_whitespace(s[0]) {
        trim(s.drop_first())
    } else if s.len() > 0 && is_whitespace(s.last()) {
        trim(s.drop_last())
    } else {
        s
    }
}

// ---------------------------------------------------------------------------
// String building
// ---------------------------------------------------------------------------

/// Calls `String::push`, trusted to append exactly `c` to the characters of `s`.
#[verifier::external_body]
pub(crate) fn push_char(s: &mut String, c: char)
    ensures
        final(s)@ == old(s)@.push(c),
{
    s.push(c);
}

/// Appends a string slice.
pub fn push_str(s: &mut String, t: &str)
    ensures
        final(s)@ == old(s)@ + t@,
{
    s.append(t);
}

/// The characters of a string slice.
pub fn chars_of(s: &str) -> (out: Vec<char>)
    ensures
        out@ == s@,
{
    let mut out: Vec<char> = Vec::new();
    for c in it: s.chars()
        invariant
            out@ == it.seq().take(it.index() as int),
            it.seq() == s@,
    {
        out.push(c);
    }
    out
}

/// Appends the characters `chars[from..to]`.
pub fn push_chars(s: &mut String, chars: &[char], from: usize, to: usize)
    requires
        from <= to <= chars@.len(),
    ensures
        final(s)@ == old(s)@ + chars@.subrange(from as int, to as int),
{
    let mut i = from;
    while i < to
        invariant
            from <= i <= to <= chars@.len(),
            s@ == old(s)@ + chars@.subrange(from as int, i as int),
        decreases to - i,
    {
        push_char(s, chars[i]);
        i = i + 1;
        assert(s@ =~= old(s)@ + chars@.subrange(from as int, i as int));
    }
}

/// A string holding exactly the given characters.
pub fn string_of(chars: &[char]) -> (s: String)
    ensures
        s@ == chars@,
{
    let mut s = String::new();
    push_chars(&mut s, chars, 0, chars.len());
    assert(s@ =~= chars@);
    s
}

/// The characters `s[from..to]` as a new vector.
pub fn sub_chars(s: &[char], from: usize, to: usize) -> (out: Vec<char>)
    requires
        from <= to <= s@.len(),
    ensures
        out@ == s@.subrange(from as int, to as int),
{
    let mut out: Vec<char> = Vec::new();
    let mut i = from;
    while i < to
        invariant
            from <= i <= to <= s@.len(),
            out@ == s@.subrange(from as int, i as int),
        decreases to - i,
    {
        out.push(s[i]);
        i = i + 1;
        assert(out@ =~= s@.subrange(from as int, i as int));
    }
    out
}

/// Whether `s[from..to]` holds exactly the characters of `t`.
pub fn range_eq(s: &[char], from: usize, to: usize, t: &[char]) -> (r: bool)
    requires
        from <= to <= s@.len(),
    ensures
        r == (s@.subrange(from as int, to as int) == t@),
{
    if to - from != t.len() {
        return false;
    }
    let mut k: usize = 0;
    while k < t.len()
        invariant
            from + t@.len() == to <= s@.len(),
            s@.len() == s.len(),
            t@.len() == t.len(),
            k <= t@.len(),
            forall|j: int| 0 <= j < k ==> s@[from + j] == t@[j],
        decreases t.len() - k,
    {
        if s[from + k] != t[k] {
            assert(s@.subrange(from as int, to as int)[k as int] != t@[k as int]);
            return false;
        }
        k = k + 1;
    }
    assert(s@.subrange(from as int, to as int) =~= t@);
    true
}

/// Whether two character slices are equal.
pub fn chars_eq(a: &[char], b: &[char]) -> (r: bool)
    ensures
        r == (a@ == b@),
{
    let r = range_eq(a, 0, a.len(), b);
    assert(a@.subrange(0, a@.len() as int) =~= a@);
    r
}

/// Whether two string slices hold the same characters.
pub fn str_eq(a: &str, b: &str) -> (r: bool)
    ensures
        r == (a@ == b@),
{
    let x = chars_of(a);
    let y = chars_of(b);
    if x.len() != y.len() {
        return false;
    }
    let mut i: usize = 0;
    while i < x.len()
        invariant
            x@ == a@,
            y@ == b@,
            x.len() == y.len(),
            i <= x.len(),
            forall|j: int| 0 <= j < i ==> x@[j] == y@[j],
        decreases x.len() - i,
    {
        if x[i] != y[i] {
            return false;
        }
        i = i + 1;
    }
    assert(x@ =~= y@);
    true
}

// ---------------------------------------------------------------------------
// Numbers
// ---------------------------------------------------------------------------

fn digit(d: u64) -> (c: char)
    requires
        d < 10,
    ensures
        c == digit_char(d as nat),
{
    if d == 0 { '0' }
    else if d == 1 { '1' }
    else if d == 2 { '2' }
    else if d == 3 { '3' }
    else if d == 4 { '4' }
    else if d == 5 { '5' }
    else if d == 6 { '6' }
    else if d == 7 { '7' }
    else if d == 8 { '8' }
    else { '9' }
}

/// Appends the decimal representation of `n` (as `{}` formats it).
pub fn push_decimal(s: &mut String, n: u64)
    ensures
        final(s)@ == old(s)@ + decimal(n as nat),
    decreases n,
{
    if n >= 10 {
        push_decimal(s, n / 10);
    }
    push_char(s, digit(n % 10));
    assert(final(s)@ =~= old(s)@ + decimal(n as nat)) by {
        if n < 10 {
        } else {
        }
    }
}

pub proof fn lemma_decimal_len(n: nat)
    ensures
        decimal(n).len() >= 1,
        n < 10 ==> decimal(n).len() == 1,
        10 <= n < 100 ==> decimal(n).len() == 2,
        100 <= n < 1000 ==> decimal(n).len() == 3,
    decreases n,
{
    if n >= 10 {
        lemma_decimal_len(n / 10);
    }
}

/// The decimal representation of `n` as a new string.
pub fn decimal_string(n: u64) -> (s: String)
    ensures
        s@ == decimal(n as nat),
{
    let mut s = String::new();
    push_decimal(&mut s, n);
    assert(s@ =~= decimal(n as nat));
    s
}

/// The decimal representation of a signed 32-bit integer (as `{}` formats it).
pub fn signed_decimal_string(n: i32) -> (s: String)
    ensures
        s@ == signed_decimal(n as int),
{
    let mut s = String::new();
    if n < 0 {
        push_char(&mut s, '-');
        let magnitude: u64 = (0i64 - (n as i64)) as u64;
        push_decimal(&mut s, magnitude);
    } else {
        push_decimal(&mut s, n as u64);
    }
    assert(s@ =~= signed_decimal(n as int));
    s
}

/// Appends `n` in decimal, zero-padded to at least `width` digits (as `{:0width$}`).
pub fn push_padded_decimal(s: &mut String, n: u64, width: usize)
    ensures
        final(s)@ == old(s)@ + pad_zeros(decimal(n as nat), width as nat),
{
    let digits = decimal_string(n);
    let len = chars_of(digits.as_str()).len();
    let mut missing: usize = if len >= width { 0 } else { width - len };
    let ghost d = decimal(n as nat);
    proof {
        lemma_pad_zeros_count(d, width as nat);
    }
    let mut k: usize = 0;
    while k < missing
        invariant
            k <= missing,
            missing == (if d.len() >= width { 0 } else { width - d.len() }),
            s@ == old(s)@ + Seq::new(k as nat, |i: int| '0'),
        decreases missing - k,
    {
        push_char(s, '0');
        k = k + 1;
        assert(s@ =~= old(s)@ + Seq::new(k as nat, |i: int| '0'));
    }
    push_str(s, digits.as_str());
    assert(s@ =~= old(s)@ + pad_zeros(d, width as nat));
}

proof fn lemma_pad_zeros_count(d: Seq<char>, width: nat)
    ensures
        pad_zeros(d, width) =~= Seq::new(
            (if d.len() >= width { 0 } else { width - d.len() }) as nat,
            |i: int| '0',
        ) + d,
    decreases width,
{
    if d.len() < width {
        lemma_pad_zeros_count(d, (width - 1) as nat);
    }
}

// ---------------------------------------------------------------------------
// Searching and rewriting
// ---------------------------------------------------------------------------

/// Whether `pat` occurs in `s` at position `i`.
pub fn matches_at(s: &[char], pat: &[char], i: usize) -> (r: bool)
    requires
        i <= s@.len(),
    ensures
        r == occurs_at(s@, pat@, i as int),
{
    if pat.len() > s.len() - i {
        return false;
    }
    let mut k: usize = 0;
    while k < pat.len()
        invariant
            i + pat@.len() <= s@.len(),
            s@.len() == s.len(),
            pat@.len() == pat.len(),
            k <= pat@.len(),
            forall|j: int| 0 <= j < k ==> s@[i + j] == pat@[j],
        decreases pat.len() - k,
    {
        if s[i + k] != pat[k] {
            assert(s@.subrange(i as int, i + pat@.len())[k as int] != pat@[k as int]);
            return false;
        }
        k = k + 1;
    }
    assert(s@.subrange(i as int, i + pat@.len()) =~= pat@);
    true
}

/// Whether `pat` occurs anywhere in `s`.
pub fn contains_chars(s: &[char], pat: &[char]) -> (r: bool)
    ensures
        r == contains(s@, pat@),
{
    if pat.len() == 0 {
        assert(s@.subrange(0, 0) =~= pat@);
        assert(occurs_at(s@, pat@, 0));
        return true;
    }
    let mut i: usize = 0;
    while i < s.len()
        invariant
            pat@.len() > 0,
            i <= s@.len(),
            forall|j: int| 0 <= j < i ==> !occurs_at(s@, pat@, j),
        decreases s.len() - i,
    {
        if matches_at(s, pat, i) {
            return true;
        }
        i = i + 1;
    }
    false
}

proof fn lemma_replace_step_match(s: Seq<char>, pat: Seq<char>, rep: Seq<char>, i: int)
    requires
        pat.len() > 0,
        occurs_at(s, pat, i),
    ensures
        replace_all(s.subrange(i, s.len() as int), pat, rep) == rep + replace_all(
            s.subrange(i + pat.len(), s.len() as int),
            pat,
            rep,
        ),
{
    let t = s.subrange(i, s.len() as int);
    assert(t.subrange(0, pat.len() as int) =~= s.subrange(i, i + pat.len()));
    assert(t.subrange(pat.len() as int, t.len() as int) =~= s.subrange(
        i + pat.len(),
        s.len() as int,
    ));
}

proof fn lemma_replace_step_skip(s: Seq<char>, pat: Seq<char>, rep: Seq<char>, i: int)
    requires
        pat.len() > 0,
        0 <= i,
        i + pat.len() <= s.len(),
        !occurs_at(s, pat, i),
    ensures
        replace_all(s.subrange(i, s.len() as int), pat, rep) == seq![s[i]] + replace_all(
            s.subrange(i + 1, s.len() as int),
            pat,
            rep,
        ),
{
    let t = s.subrange(i, s.len() as int);
    assert(t.subrange(0, pat.len() as int) =~= s.subrange(i, i + pat.len()));
    assert(t.subrange(1, t.len() as int) =~= s.subrange(i + 1, s.len() as int));
}

/// `s` with every non-overlapping occurrence of `pat` replaced by `rep`, from left to right.
pub fn replace_chars(s: &[char], pat: &[char], rep: &str) -> (out: String)
    requires
        pat@.len() > 0,
    ensures
        out@ == replace_all(s@, pat@, rep@),
{
    let mut out = String::new();
    let mut i: usize = 0;
    assert(s@.subrange(0, s@.len() as int) =~= s@);
    assert(out@ + replace_all(s@, pat@, rep@) =~= replace_all(s@, pat@, rep@));
    while i < s.len()
        invariant
            pat@.len() > 0,
            i <= s@.len(),
            out@ + replace_all(s@.subrange(i as int, s@.len() as int), pat@, rep@) == replace_all(
                s@,
                pat@,
                rep@,
            ),
        decreases s.len() - i,
    {
        let ghost before = out@;
        if matches_at(s, pat, i) {
            proof {
                lemma_replace_step_match(s@, pat@, rep@, i as int);
            }
            push_str(&mut out, rep);
            assert(out@ + replace_all(s@.subrange(i + pat@.len(), s@.len() as int), pat@, rep@)
                =~= before + replace_all(s@.subrange(i as int, s@.len() as int), pat@, rep@));
            i = i + pat.len();
        } else if pat.len() <= s.len() - i {
            proof {
                lemma_replace_step_skip(s@, pat@, rep@, i as int);
            }
            push_char(&mut out, s[i]);
            assert(out@ + replace_all(s@.subrange(i + 1, s@.len() as int), pat@, rep@)
                =~= before + replace_all(s@.subrange(i as int, s@.len() as int), pat@, rep@));
            i = i + 1;
        } else {
            push_chars(&mut out, s, i, s.len());
            assert(out@ + replace_all(s@.subrange(s@.len() as int, s@.len() as int), pat@, rep@)
                =~= before + replace_all(s@.subrange(i as int, s@.len() as int), pat@, rep@));
            i = s.len();
        }
    }
    assert(replace_all(s@.subrange(s@.len() as int, s@.len() as int), pat@, rep@) =~= Seq::<
        char,
    >::empty());
    assert(out@ =~= replace_all(s@, pat@, rep@));
    out
}

/// The lines of `s` (as `str::lines` yields them).
pub fn split_lines(s: &[char]) -> (out: Vec<Vec<char>>)
    ensures
        out@.len() == lines(s@).len(),
        forall|k: int| 0 <= k < out@.len() ==> #[trigger] out@[k]@ == lines(s@)[k],
{
    let mut done: Vec<Vec<char>> = Vec::new();
    let mut current: Vec<char> = Vec::new();
    let mut i: usize = 0;
    while i < s.len()
        invariant
            i <= s@.len(),
            lines_scan(s@.take(i as int)).1 == current@,
            lines_scan(s@.take(i as int)).0.len() == done@.len(),
            forall|k: int|
                0 <= k < done@.len() ==> #[trigger] done@[k]@ == lines_scan(
                    s@.take(i as int),
                ).0[k],
        decreases s.len() - i,
    {
        assert(s@.take(i + 1).drop_last() =~= s@.take(i as int));
        if s[i] == '\n' {
            let mut line = current;
            if line.len() > 0 && line[line.len() - 1] == '\r' {
                line.pop();
            }
            assert(line@ =~= strip_carriage_return(lines_scan(s@.take(i as int)).1));
            done.push(line);
            current = Vec::new();
        } else {
            current.push(s[i]);
        }
        i = i + 1;
    }
    assert(s@.take(s@.len() as int) =~= s@);
    if current.len() > 0 {
        done.push(current);
    }
    done
}

/// The position of the first `c` in `s`.
pub fn find_char(s: &[char], c: char) -> (r: Option<usize>)
    ensures
        r matches Some(i) ==> index_of(s@, c) == Some(i as nat) && i < s@.len() && s@[i as int]
            == c,
        r is None ==> index_of(s@, c) is None,
{
    let mut i: usize = 0;
    assert(s@.subrange(0, s@.len() as int) =~= s@);
    while i < s.len()
        invariant
            i <= s@.len(),
            index_of(s@, c) == (match index_of(s@.subrange(i as int, s@.len() as int), c) {
                Some(k) => Some((k + i) as nat),
                None => None,
            }),
        decreases s.len() - i,
    {
        if s[i] == c {
            return Some(i);
        }
        assert(s@.subrange(i as int, s@.len() as int).drop_first() =~= s@.subrange(
            i + 1,
            s@.len() as int,
        ));
        i = i + 1;
    }
    None
}

/// Whether `c` has the Unicode `White_Space` property.
pub fn char_is_whitespace(c: char) -> (r: bool)
    ensures
        r == is_whitespace(c),
{
    ('\u{9}' <= c && c <= '\u{d}') || c == ' ' || c == '\u{85}' || c == '\u{a0}' || c
        == '\u{1680}' || ('\u{2000}' <= c && c <= '\u{200a}') || c == '\u{2028}' || c
        == '\u{2029}' || c == '\u{202f}' || c == '\u{205f}' || c == '\u{3000}'
}

proof fn lemma_trim_range(s: Seq<char>, a: int, b: int)
    requires
        0 <= a <= b <= s.len(),
        forall|j: int| 0 <= j < a ==> is_whitespace(#[trigger] s[j]),
        forall|j: int| b <= j < s.len() ==> is_whitespace(#[trigger] s[j]),
        a == b || (!is_whitespace(s[a]) && !is_whitespace(s[b - 1])),
    ensures
        trim(s) == s.subrange(a, b),
    decreases s.len(),
{
    if s.len() > 0 && is_whitespace(s[0]) {
        assert(a > 0 || (a == b && b == 0) || a == 0);
        if a == 0 && b == 0 {
            // all characters are whitespace
            lemma_trim_range(s.drop_first(), 0, 0);
            assert(s.drop_first().subrange(0, 0) =~= s.subrange(0, 0));
        } else {
            lemma_trim_range(s.drop_first(), a - 1, b - 1);
            assert(s.drop_first().subrange(a - 1, b - 1) =~= s.subrange(a, b));
        }
    } else if s.len() > 0 && is_whitespace(s.last()) {
        if a == b {
            let a2 = if a == s.len() { a - 1 } else { a };
            lemma_trim_range(s.drop_last(), a2, a2);
            assert(s.drop_last().subrange(a2, a2) =~= s.subrange(a, b));
        } else {
            lemma_trim_range(s.drop_last(), a, b);
            assert(s.drop_last().subrange(a, b) =~= s.subrange(a, b));
        }
    } else {
        if a == b {
            if s.len() > 0 {
                assert(is_whitespace(s[0]) || a > 0 || b < s.len());
            }
        }
        assert(s.subrange(a, b) =~= s);
    }
}

/// `s` without leading and trailing whitespace.
pub fn trim_chars(s: &[char]) -> (out: Vec<char>)
    ensures
        out@ == trim(s@),
{
    let mut a: usize = 0;
    while a < s.len() && char_is_whitespace(s[a])
        invariant
            a <= s@.len(),
            forall|j: int| 0 <= j < a ==> is_whitespace(#[trigger] s@[j]),
        decreases s.len() - a,
    {
        a = a + 1;
    }
    let mut b: usize = s.len();
    while b > a && char_is_whitespace(s[b - 1])
        invariant
            a <= b <= s@.len(),
            forall|j: int| b <= j < s@.len() ==> is_whitespace(#[trigger] s@[j]),
        decreases b,
    {
        b = b - 1;
    }
    proof {
        lemma_trim_range(s@, a as int, b as int);
    }
    let mut out: Vec<char> = Vec::new();
    let mut i = a;
    while i < b
        invariant
            a <= i <= b <= s@.len(),
            out@ == s@.subrange(a as int, i as int),
        decreases b - i,
    {
        out.push(s[i]);
        i = i + 1;
        assert(out@ =~= s@.subrange(a as int, i as int));
    }
    out
}


// ---------------------------------------------------------------------------
// Occurrences in text made of lines
// ---------------------------------------------------------------------------

/// `s` holds no `c`.
pub open spec fn lacks(s: Seq<char>, c: char) -> bool {
    forall|i: int| 0 <= i < s.len() ==> s[i] != c
}

/// Every item is a nonempty line ending in `'\n'`.
pub open spec fn all_lines(items: Seq<Seq<char>>) -> bool {
    forall|i: int| 0 <= i < items.len() ==> #[trigger] items[i].len() > 0 && items[i].last() == '\n'
}

/// A pattern without line breaks that occurs in text made of whole lines occurs in one of them.
pub proof fn lemma_occurrence_in_lines(items: Seq<Seq<char>>, pat: Seq<char>)
    requires
        pat.len() > 0,
        lacks(pat, '\n'),
        all_lines(items),
        contains(concat(items), pat),
    ensures
        exists|i: int| 0 <= i < items.len() && contains(#[trigger] items[i], pat),
    decreases items.len(),
{
    let whole = concat(items);
    let k = choose|k: int| occurs_at(whole, pat, k);
    if items.len() == 0 {
        assert(whole.len() == 0);
    } else {
        let front = items.drop_last();
        let a = concat(front);
        let b = items.last();
        assert(whole == a + b);
        assert(all_lines(front)) by {
            assert forall|i: int| 0 <= i < front.len() implies #[trigger] front[i].len() > 0
                && front[i].last() == '\n' by {
                assert(front[i] == items[i]);
            }
        }
        let n = pat.len() as int;
        if k + n <= a.len() {
            assert(a.subrange(k, k + n) =~= whole.subrange(k, k + n));
            assert(occurs_at(a, pat, k));
            lemma_occurrence_in_lines(front, pat);
            let i = choose|i: int| 0 <= i < front.len() && contains(#[trigger] front[i], pat);
            assert(items[i] == front[i]);
        } else if k >= a.len() {
            assert(b.subrange(k - a.len(), k - a.len() + n) =~= whole.subrange(k, k + n));
            assert(occurs_at(b, pat, k - a.len()));
            assert(contains(items[items.len() - 1], pat));
        } else {
            // The occurrence would run across the line break that ends `a`.
            assert(front.len() > 0) by {
                if front.len() == 0 {
                    assert(a.len() == 0);
                }
            }
            assert(a == concat(front.drop_last()) + front.last());
            assert(front.last() == items[front.len() - 1]);
            assert(a.last() == '\n');
            assert(whole[a.len() - 1] == a.last());
            assert(whole.subrange(k, k + n)[a.len() - 1 - k] == whole[a.len() - 1]);
            assert(pat[a.len() - 1 - k] == '\n');
        }
    }
}

/// A pattern that occurs in one of the items occurs in their concatenation.
pub proof fn lemma_occurrence_in_part(items: Seq<Seq<char>>, pat: Seq<char>, i: int)
    requires
        0 <= i < items.len(),
        contains(items[i], pat),
    ensures
        contains(concat(items), pat),
    decreases items.len(),
{
    let front = items.drop_last();
    let a = concat(front);
    let b = items.last();
    let whole = concat(items);
    assert(whole == a + b);
    let n = pat.len() as int;
    if i == items.len() - 1 {
        let k = choose|k: int| occurs_at(b, pat, k);
        assert(whole.subrange(a.len() + k, a.len() + k + n) =~= b.subrange(k, k + n));
        assert(occurs_at(whole, pat, a.len() + k));
    } else {
        assert(front[i] == items[i]);
        lemma_occurrence_in_part(front, pat, i);
        let k = choose|k: int| occurs_at(a, pat, k);
        assert(whole.subrange(k, k + n) =~= a.subrange(k, k + n));
        assert(occurs_at(whole, pat, k));
    }
}


/// Replacing a pattern that does not occur changes nothing.
pub proof fn lemma_replace_absent(s: Seq<char>, pat: Seq<char>, rep: Seq<char>)
    requires
        !contains(s, pat),
    ensures
        replace_all(s, pat, rep) == s,
    decreases s.len(),
{
    if pat.len() == 0 {
        assert(s.subrange(0, 0) =~= pat);
        assert(occurs_at(s, pat, 0));
    } else if s.len() >= pat.len() {
        assert(s.subrange(0, pat.len() as int) != pat) by {
            if s.subrange(0, pat.len() as int) == pat {
                assert(occurs_at(s, pat, 0));
            }
        }
        let rest = s.subrange(1, s.len() as int);
        assert(!contains(rest, pat)) by {
            if contains(rest, pat) {
                let k = choose|k: int| occurs_at(rest, pat, k);
                assert(s.subrange(k + 1, k + 1 + pat.len()) =~= rest.subrange(k, k + pat.len()));
                assert(occurs_at(s, pat, k + 1));
            }
        }
        lemma_replace_absent(rest, pat, rep);
        assert(seq![s[0]] + rest =~= s);
    }
}

/// Replacing a pattern without line breaks in text that ends at a line break, followed by
/// more text, replaces in each part alone.
pub proof fn lemma_replace_split(a: Seq<char>, b: Seq<char>, pat: Seq<char>, rep: Seq<char>)
    requires
        pat.len() > 0,
        lacks(pat, '\n'),
        a.len() == 0 || a.last() == '\n',
    ensures
        replace_all(a + b, pat, rep) == replace_all(a, pat, rep) + replace_all(b, pat, rep),
    decreases a.len(),
{
    let n = pat.len() as int;
    let ab = a + b;
    if a.len() == 0 {
        assert(ab == b);
        assert(replace_all(a, pat, rep) == a);
        assert(Seq::<char>::empty() + replace_all(b, pat, rep) == replace_all(b, pat, rep));
    } else if ab.len() < n {
        assert(replace_all(b, pat, rep) == b);
        assert(replace_all(a, pat, rep) == a);
    } else if ab.subrange(0, n) == pat {
        if a.len() < n {
            assert(ab[a.len() - 1] == a.last());
            assert(pat[a.len() - 1] == ab.subrange(0, n)[a.len() - 1]);
            assert(false);
        }
        assert(a.subrange(0, n) =~= ab.subrange(0, n));
        let a2 = a.subrange(n, a.len() as int);
        assert(ab.subrange(n, ab.len() as int) =~= a2 + b);
        if a2.len() > 0 {
            assert(a2.last() == a.last());
        }
        lemma_replace_split(a2, b, pat, rep);
        assert(rep + (replace_all(a2, pat, rep) + replace_all(b, pat, rep)) =~= rep
            + replace_all(a2, pat, rep) + replace_all(b, pat, rep));
    } else {
        let a2 = a.subrange(1, a.len() as int);
        assert(ab.subrange(1, ab.len() as int) =~= a2 + b);
        if a2.len() > 0 {
            assert(a2.last() == a.last());
        }
        lemma_replace_split(a2, b, pat, rep);
        assert(ab[0] == a[0]);
        if a.len() >= n {
            assert(a.subrange(0, n) =~= ab.subrange(0, n));
        } else {
            assert(replace_all(a, pat, rep) == a);
            assert(replace_all(a2, pat, rep) == a2);
            assert(seq![a[0]] + a2 =~= a);
        }
        assert(seq![a[0]] + (replace_all(a2, pat, rep) + replace_all(b, pat, rep)) =~= seq![a[0]]
            + replace_all(a2, pat, rep) + replace_all(b, pat, rep));
    }
}

/// Replacing a pattern without line breaks in text made of lines replaces in each line alone.
pub proof fn lemma_replace_in_lines(items: Seq<Seq<char>>, pat: Seq<char>, rep: Seq<char>)
    requires
        pat.len() > 0,
        lacks(pat, '\n'),
        all_lines(items),
    ensures
        replace_all(concat(items), pat, rep) == concat(
            items.map_values(|line: Seq<char>| replace_all(line, pat, rep)),
        ),
    decreases items.len(),
{
    let f = |line: Seq<char>| replace_all(line, pat, rep);
    let mapped = items.map_values(f);
    if items.len() == 0 {
        assert(replace_all(Seq::<char>::empty(), pat, rep) == Seq::<char>::empty());
    } else {
        let front = items.drop_last();
        assert(all_lines(front)) by {
            assert forall|i: int| 0 <= i < front.len() implies #[trigger] front[i].len() > 0
                && front[i].last() == '\n' by {
                assert(front[i] == items[i]);
            }
        }
        lemma_replace_in_lines(front, pat, rep);
        let a = concat(front);
        if front.len() > 0 {
            assert(a == concat(front.drop_last()) + front.last());
            assert(front.last() == items[front.len() - 1]);
        }
        lemma_replace_split(a, items.last(), pat, rep);
        assert(mapped.drop_last() =~= front.map_values(f));
        assert(mapped.last() == f(items.last()));
    }
}

} // verus!
