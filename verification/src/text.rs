//! Text helpers shared by the library: specifications of the std string
//! operations it relies on, and small verified string builders.

use vstd::prelude::*;
use vstd::string::*;

verus! {

/// `str` equality compares the two byte sequences; UTF-8 encoding is
/// injective, so this is equality of the character sequences.
pub assume_specification[ <str as PartialEq>::eq ](a: &str, b: &str) -> (res: bool)
    ensures
        res == (a@ == b@),
;

/// `String::push` appends one character.
pub assume_specification[ String::push ](s: &mut String, ch: char)
    ensures
        final(s)@ == old(s)@.push(ch),
;

/// Whether two texts are equal.
pub fn same_text(a: &str, b: &str) -> (res: bool)
    ensures
        res == (a@ == b@),
{
    <str as PartialEq>::eq(a, b)
}

/// A fresh string holding a copy of `s`.
pub fn owned(s: &str) -> (res: String)
    ensures
        res@ == s@,
{
    s.to_string()
}

/// The concatenation of two texts.
pub fn concat2(a: &str, b: &str) -> (res: String)
    ensures
        res@ == a@ + b@,
{
    let mut s = a.to_string();
    s.append(b);
    s
}

/// Whether `s` starts with `prefix`.
pub open spec fn has_prefix(s: Seq<char>, prefix: Seq<char>) -> bool {
    prefix.len() <= s.len() && s.subrange(0, prefix.len() as int) == prefix
}

/// The path `std::path::Path::join` builds from `base` and `name`.
pub uninterp spec fn joined_path_of(base: Seq<char>, name: Seq<char>) -> Seq<char>;

/// `Path::new(base).join(name)`, as text. The result is a function of the two
/// paths alone (on a given platform); the separator and absolute-path rules
/// are left to the name. For UTF-8 inputs `to_string_lossy` loses nothing.
#[verifier::external_body]
pub fn path_join(base: &str, name: &str) -> (res: String)
    ensures
        res@ == joined_path_of(base@, name@),
{
    std::path::Path::new(base).join(name).to_string_lossy().into_owned()
}

/// The characters of a text, in order.
pub fn chars_of(s: &str) -> (res: Vec<char>)
    ensures
        res@ == s@,
{
    let mut out: Vec<char> = Vec::new();
    for c in it: s.chars()
        invariant
            out@ == it.seq().take(it.index() as int),
    {
        out.push(c);
    }
    out
}

/// The text of the characters of `cs` from `lo` up to `hi`.
pub fn text_of_range(cs: &Vec<char>, lo: usize, hi: usize) -> (res: String)
    requires
        lo <= hi <= cs@.len(),
    ensures
        res@ == cs@.subrange(lo as int, hi as int),
{
    let mut out = String::new();
    let mut i = lo;
    while i < hi
        invariant
            lo <= i <= hi <= cs@.len(),
            out@ == cs@.subrange(lo as int, i as int),
        decreases hi - i,
    {
        out.push(cs[i]);
        assert(out@ =~= cs@.subrange(lo as int, i + 1));
        i = i + 1;
    }
    out
}

/// The decimal digit character for `d` (0 to 9).
pub open spec fn digit_char(d: int) -> char {
    seq!['0', '1', '2', '3', '4', '5', '6', '7', '8', '9'][d]
}

/// The decimal numeral of `n`, without leading zeros.
pub open spec fn decimal(n: nat) -> Seq<char>
    decreases n,
{
    if n < 10 {
        seq![digit_char(n as int)]
    } else {
        decimal(n / 10).push(digit_char((n % 10) as int))
    }
}

/// The two-digit decimal numeral of `n` (below 100), zero-padded.
pub open spec fn two_digits(n: nat) -> Seq<char> {
    seq![digit_char((n / 10) as int), digit_char((n % 10) as int)]
}

/// The number that decimal digit characters stand for, read most
/// significant digit first.
pub open spec fn numeral_value(s: Seq<char>) -> int
    decreases s.len(),
{
    if s.len() == 0 {
        0
    } else {
        numeral_value(s.drop_last()) * 10 + ((s.last() as int) - 48)
    }
}

/// A decimal digit character.
pub open spec fn is_digit_char(c: char) -> bool {
    '0' <= c && c <= '9'
}

/// The digit character for `d` is the character whose code is `'0'` plus `d`.
proof fn lemma_digit_char(d: int)
    requires
        0 <= d < 10,
    ensures
        (digit_char(d) as int) == 48 + d,
        is_digit_char(digit_char(d)),
{
}

/// `decimal(n)` is the usual base-10 numeral of `n`: digits, no leading zero
/// unless `n` is zero, and reading it back gives `n`.
pub proof fn lemma_decimal_numeral(n: nat)
    ensures
        decimal(n).len() > 0,
        forall|i: int| 0 <= i < decimal(n).len() ==> is_digit_char(#[trigger] decimal(n)[i]),
        decimal(n)[0] != '0' || n == 0,
        numeral_value(decimal(n)) == n,
    decreases n,
{
    let d = decimal(n);
    if n >= 10 {
        lemma_decimal_numeral(n / 10);
        lemma_digit_char((n % 10) as int);
        assert(d.drop_last() =~= decimal(n / 10));
        assert(d[0] == decimal(n / 10)[0]);
        vstd::arithmetic::div_mod::lemma_fundamental_div_mod(n as int, 10);
        assert(numeral_value(d) == (n / 10) * 10 + n % 10);
    } else {
        lemma_digit_char(n as int);
        assert(d.drop_last() =~= Seq::<char>::empty());
        assert(numeral_value(d.drop_last()) == 0);
    }
}

/// `two_digits(n)`, for `n` below 100, is two digit characters that read
/// back as `n`.
pub proof fn lemma_two_digits_numeral(n: nat)
    requires
        n < 100,
    ensures
        two_digits(n).len() == 2,
        is_digit_char(two_digits(n)[0]),
        is_digit_char(two_digits(n)[1]),
        numeral_value(two_digits(n)) == n,
{
    let t = two_digits(n);
    lemma_digit_char((n / 10) as int);
    lemma_digit_char((n % 10) as int);
    let first = t.drop_last();
    assert(first.drop_last() =~= Seq::<char>::empty());
    assert(first.last() == t[0]);
    assert(numeral_value(first.drop_last()) == 0);
    assert(numeral_value(first) == (t[0] as int) - 48);
    assert(numeral_value(t) == numeral_value(first) * 10 + (t[1] as int) - 48);
    vstd::arithmetic::div_mod::lemma_fundamental_div_mod(n as int, 10);
}

/// The decimal digit character for `d`.
pub fn digit(d: u64) -> (c: char)
    requires
        d < 10,
    ensures
        c == digit_char(d as int),
{
    match d {
        0 => '0',
        1 => '1',
        2 => '2',
        3 => '3',
        4 => '4',
        5 => '5',
        6 => '6',
        7 => '7',
        8 => '8',
        _ => '9',
    }
}

/// Append the decimal numeral of `n` to `out`.
pub fn push_decimal(out: &mut String, n: u64)
    ensures
        final(out)@ == old(out)@ + decimal(n as nat),
    decreases n,
{
    if n < 10 {
        out.push(digit(n));
        assert(final(out)@ =~= old(out)@ + decimal(n as nat));
    } else {
        push_decimal(out, n / 10);
        out.push(digit(n % 10));
        assert(final(out)@ =~= old(out)@ + decimal(n as nat));
    }
}

/// Append the zero-padded two-digit numeral of `n` to `out`.
pub fn push_two_digits(out: &mut String, n: u64)
    requires
        n < 100,
    ensures
        final(out)@ == old(out)@ + two_digits(n as nat),
{
    out.push(digit(n / 10));
    out.push(digit(n % 10));
    assert(final(out)@ =~= old(out)@ + two_digits(n as nat));
}

/// `p` occurs in `s` at position `i`.
pub open spec fn occurs_at<A>(s: Seq<A>, p: Seq<A>, i: int) -> bool {
    0 <= i && i + p.len() <= s.len() && s.subrange(i, i + p.len()) == p
}

/// `j` is the first position at or after `from` where `p` occurs in `s`.
pub open spec fn first_from<A>(s: Seq<A>, p: Seq<A>, from: int, j: int) -> bool {
    &&& from <= j
    &&& occurs_at(s, p, j)
    &&& forall|k: int| from <= k < j ==> !occurs_at(s, p, k)
}

/// `p` occurs in `s` at or after `from`.
pub open spec fn occurs_from<A>(s: Seq<A>, p: Seq<A>, from: int) -> bool {
    exists|j: int| from <= j && occurs_at(s, p, j)
}

/// Whether `p` occurs in `s` at `i`.
pub fn occurs(s: &Vec<char>, p: &Vec<char>, i: usize) -> (res: bool)
    ensures
        res == occurs_at(s@, p@, i as int),
{
    if i > s.len() || p.len() > s.len() - i {
        return false;
    }
    let mut k: usize = 0;
    assert(s@.len() == s.len());
    while k < p.len()
        invariant
            s@.len() <= usize::MAX,
            i + p@.len() <= s@.len(),
            k <= p@.len(),
            forall|m: int| 0 <= m < k ==> s@[i + m] == p@[m],
        decreases p@.len() - k,
    {
        if s[i + k] != p[k] {
            assert(s@.subrange(i as int, i + p@.len())[k as int] != p@[k as int]);
            return false;
        }
        k = k + 1;
    }
    assert(s@.subrange(i as int, i + p@.len()) =~= p@);
    true
}

/// The first position at or after `from` where `p` occurs in `s`.
pub fn find_from(s: &Vec<char>, p: &Vec<char>, from: usize) -> (res: Option<usize>)
    ensures
        match res {
            Some(j) => first_from(s@, p@, from as int, j as int),
            None => !occurs_from(s@, p@, from as int),
        },
{
    let mut j = from;
    while j < s.len()
        invariant
            from <= j,
            forall|k: int| from <= k < j ==> !occurs_at(s@, p@, k),
        decreases s@.len() - j,
    {
        if occurs(s, p, j) {
            return Some(j);
        }
        j = j + 1;
    }
    if p.len() == 0 && j == s.len() {
        assert(s@.subrange(j as int, j as int) =~= p@);
        return Some(j);
    }
    proof {
        if occurs_from(s@, p@, from as int) {
            let w = choose|w: int| from <= w && occurs_at(s@, p@, w);
            assert(!occurs_at(s@, p@, w));
        }
    }
    None
}

/// Whether `needle` occurs in `hay`.
pub fn contains_text(hay: &str, needle: &str) -> (res: bool)
    ensures
        res == occurs_from(hay@, needle@, 0),
{
    let h = chars_of(hay);
    let n = chars_of(needle);
    match find_from(&h, &n, 0) {
        Some(_) => true,
        None => false,
    }
}


/// Whether the bytes `p` occur in `s` at `i`.
pub fn occurs_bytes(s: &[u8], p: &[u8], i: usize) -> (res: bool)
    ensures
        res == occurs_at(s@, p@, i as int),
{
    if i > s.len() || p.len() > s.len() - i {
        return false;
    }
    let mut k: usize = 0;
    assert(s@.len() == s.len());
    while k < p.len()
        invariant
            s@.len() <= usize::MAX,
            i + p@.len() <= s@.len(),
            k <= p@.len(),
            forall|m: int| 0 <= m < k ==> s@[i + m] == p@[m],
        decreases p@.len() - k,
    {
        if s[i + k] != p[k] {
            assert(s@.subrange(i as int, i + p@.len())[k as int] != p@[k as int]);
            return false;
        }
        k = k + 1;
    }
    assert(s@.subrange(i as int, i + p@.len()) =~= p@);
    true
}

/// The first position where the bytes `p` occur in `s`.
pub fn find_bytes(s: &[u8], p: &[u8]) -> (res: Option<usize>)
    ensures
        match res {
            Some(j) => first_from(s@, p@, 0, j as int),
            None => !occurs_from(s@, p@, 0),
        },
{
    let mut j: usize = 0;
    while j < s.len()
        invariant
            j <= s@.len(),
            forall|k: int| 0 <= k < j ==> !occurs_at(s@, p@, k),
        decreases s@.len() - j,
    {
        if occurs_bytes(s, p, j) {
            return Some(j);
        }
        j = j + 1;
    }
    if p.len() == 0 {
        assert(s@.subrange(j as int, j as int) =~= p@);
        return Some(j);
    }
    proof {
        if occurs_from(s@, p@, 0) {
            let w = choose|w: int| 0 <= w && occurs_at(s@, p@, w);
            assert(!occurs_at(s@, p@, w));
        }
    }
    None
}


/// Unicode `White_Space`, the property `char::is_whitespace` tests.
pub open spec fn is_white(c: char) -> bool {
    ||| ('\u{9}' <= c && c <= '\u{d}')
    ||| c == ' '
    ||| c == '\u{85}'
    ||| c == '\u{a0}'
    ||| c == '\u{1680}'
    ||| ('\u{2000}' <= c && c <= '\u{200a}')
    ||| c == '\u{2028}'
    ||| c == '\u{2029}'
    ||| c == '\u{202f}'
    ||| c == '\u{205f}'
    ||| c == '\u{3000}'
}

/// Whether `c` is white space.
pub fn white(c: char) -> (res: bool)
    ensures
        res == is_white(c),
{
    ('\u{9}' <= c && c <= '\u{d}') || c == ' ' || c == '\u{85}' || c == '\u{a0}' || c == '\u{1680}'
        || ('\u{2000}' <= c && c <= '\u{200a}') || c == '\u{2028}' || c == '\u{2029}' || c
        == '\u{202f}' || c == '\u{205f}' || c == '\u{3000}'
}

/// `s` without its leading white space.
pub open spec fn trim_start(s: Seq<char>) -> Seq<char>
    decreases s.len(),
{
    if s.len() > 0 && is_white(s[0]) {
        trim_start(s.drop_first())
    } else {
        s
    }
}

/// `s` without its trailing white space.
pub open spec fn trim_end(s: Seq<char>) -> Seq<char>
    decreases s.len(),
{
    if s.len() > 0 && is_white(s.last()) {
        trim_end(s.drop_last())
    } else {
        s
    }
}

/// `s` without leading and trailing white space, as `str::trim` gives it.
pub open spec fn trimmed(s: Seq<char>) -> Seq<char> {
    trim_end(trim_start(s))
}

/// `s` with leading and trailing white space removed.
pub fn trim_text(s: &str) -> (res: String)
    ensures
        res@ == trimmed(s@),
{
    let cs = chars_of(s);
    let mut i: usize = 0;
    assert(cs@.skip(0) =~= cs@);
    while i < cs.len() && white(cs[i])
        invariant
            i <= cs@.len(),
            trim_start(cs@) == trim_start(cs@.skip(i as int)),
        decreases cs@.len() - i,
    {
        assert(cs@.skip(i as int).drop_first() =~= cs@.skip(i + 1));
        i = i + 1;
    }
    assert(trim_start(cs@) == cs@.skip(i as int));
    let mut j: usize = cs.len();
    assert(cs@.skip(i as int) =~= cs@.subrange(i as int, j as int));
    while j > i && white(cs[j - 1])
        invariant
            i <= j <= cs@.len(),
            trimmed(cs@) == trim_end(cs@.subrange(i as int, j as int)),
        decreases j,
    {
        assert(cs@.subrange(i as int, j as int).drop_last() =~= cs@.subrange(i as int, j - 1));
        j = j - 1;
    }
    text_of_range(&cs, i, j)
}

/// The words of `s`: its maximal runs of characters other than white space,
/// as `str::split_whitespace` gives them.
pub open spec fn words(s: Seq<char>) -> Seq<Seq<char>>
    decreases s.len(),
{
    if s.len() == 0 {
        Seq::empty()
    } else {
        let w = words(s.drop_last());
        let c = s.last();
        if is_white(c) {
            w
        } else if s.len() >= 2 && !is_white(s[s.len() - 2]) {
            w.update(w.len() - 1, w.last().push(c))
        } else {
            w.push(seq![c])
        }
    }
}

/// A text that ends in a character other than white space has a word.
proof fn lemma_words_nonempty(s: Seq<char>)
    requires
        s.len() > 0,
        !is_white(s.last()),
    ensures
        words(s).len() > 0,
    decreases s.len(),
{
    if s.len() >= 2 && !is_white(s[s.len() - 2]) {
        lemma_words_nonempty(s.drop_last());
    }
}

/// The texts of a list of strings.
pub open spec fn texts(v: Seq<String>) -> Seq<Seq<char>> {
    v.map_values(|x: String| x@)
}

/// The words of `s`.
pub fn split_words(s: &str) -> (res: Vec<String>)
    ensures
        texts(res@) == words(s@),
{
    let cs = chars_of(s);
    let mut out: Vec<String> = Vec::new();
    let mut cur = String::new();
    let mut in_word = false;
    let mut i: usize = 0;
    while i < cs.len()
        invariant
            i <= cs@.len(),
            in_word == (i > 0 && !is_white(cs@[i - 1])),
            in_word ==> texts(out@).push(cur@) == words(cs@.take(i as int)),
            !in_word ==> texts(out@) == words(cs@.take(i as int)),
        decreases cs@.len() - i,
    {
        let c = cs[i];
        let ghost w = words(cs@.take(i as int));
        assert(cs@.take(i + 1).drop_last() =~= cs@.take(i as int));
        if white(c) {
            if in_word {
                out.push(cur);
                assert(texts(out@) =~= w);
                cur = String::new();
            }
            in_word = false;
        } else if in_word {
            proof {
                lemma_words_nonempty(cs@.take(i as int));
            }
            cur.push(c);
            assert(texts(out@).push(cur@) =~= w.update(w.len() - 1, w.last().push(c)));
        } else {
            cur = String::new();
            cur.push(c);
            assert(texts(out@).push(cur@) =~= w.push(seq![c]));
            in_word = true;
        }
        i = i + 1;
    }
    assert(cs@.take(i as int) =~= cs@);
    if in_word {
        out.push(cur);
        assert(texts(out@) =~= words(cs@));
    }
    out
}

/// The pieces of `s` between its line feeds (one more than there are line
/// feeds).
pub open spec fn pieces(s: Seq<char>) -> Seq<Seq<char>>
    decreases s.len(),
{
    if s.len() == 0 {
        seq![Seq::empty()]
    } else {
        let p = pieces(s.drop_last());
        if s.last() == '\n' {
            p.push(Seq::empty())
        } else {
            p.update(p.len() - 1, p.last().push(s.last()))
        }
    }
}

/// The trimmed lines among the first `n` of `ps`, the first one left out and
/// the blank ones dropped.
pub open spec fn kept_lines(ps: Seq<Seq<char>>, n: int) -> Seq<Seq<char>>
    decreases n,
{
    if n <= 1 {
        Seq::empty()
    } else {
        let r = kept_lines(ps, n - 1);
        let t = trimmed(ps[n - 1]);
        if t.len() > 0 {
            r.push(t)
        } else {
            r
        }
    }
}

/// `kept_lines` reads only the first `n` lines.
proof fn lemma_kept_lines_prefix(ps: Seq<Seq<char>>, qs: Seq<Seq<char>>, n: int)
    requires
        n <= ps.len(),
        n <= qs.len(),
        forall|k: int| 0 <= k < n ==> ps[k] == qs[k],
    ensures
        kept_lines(ps, n) == kept_lines(qs, n),
    decreases n,
{
    if n > 1 {
        lemma_kept_lines_prefix(ps, qs, n - 1);
    }
}

/// The lines of `s` after the first, trimmed, without the blank ones.
pub open spec fn lines_after_first(s: Seq<char>) -> Seq<Seq<char>> {
    kept_lines(pieces(s), pieces(s).len() as int)
}

/// The lines of `s` after the first (a header), trimmed, blank ones left out.
pub fn trimmed_lines_after_first(s: &str) -> (res: Vec<String>)
    ensures
        texts(res@) == lines_after_first(s@),
{
    let cs = chars_of(s);
    let mut out: Vec<String> = Vec::new();
    let mut cur = String::new();
    let mut done: usize = 0;
    let mut i: usize = 0;
    proof {
        assert(cs@.take(0) =~= Seq::<char>::empty());
    }
    while i < cs.len()
        invariant
            i <= cs@.len(),
            pieces(cs@.take(i as int)).len() == done + 1,
            pieces(cs@.take(i as int)).last() == cur@,
            texts(out@) == kept_lines(pieces(cs@.take(i as int)), done as int),
            done <= i,
        decreases cs@.len() - i,
    {
        let c = cs[i];
        let ghost p = pieces(cs@.take(i as int));
        assert(cs@.take(i + 1).drop_last() =~= cs@.take(i as int));
        assert(cs@.take(i + 1).last() == c);
        if c == '\n' {
            let ghost p2 = p.push(Seq::<char>::empty());
            proof {
                lemma_kept_lines_prefix(p, p2, done as int);
                lemma_kept_lines_prefix(p, p2, done + 1);
            }
            if done >= 1 {
                let t = trim_text(cur.as_str());
                if t.as_str().unicode_len() > 0 {
                    out.push(t);
                    assert(texts(out@) =~= kept_lines(p, done as int).push(trimmed(p[done as int])));
                }
            }
            cur = String::new();
            done = done + 1;
        } else {
            let ghost p2 = p.update(p.len() - 1, p.last().push(c));
            proof {
                lemma_kept_lines_prefix(p, p2, done as int);
            }
            cur.push(c);
        }
        i = i + 1;
    }
    assert(cs@.take(i as int) =~= cs@);
    if done >= 1 {
        let t = trim_text(cur.as_str());
        if t.as_str().unicode_len() > 0 {
            out.push(t);
            assert(texts(out@) =~= lines_after_first(cs@));
        }
    }
    out
}


/// Whether `s` starts with `prefix`.
pub fn starts_with_text(s: &str, prefix: &str) -> (res: bool)
    ensures
        res == has_prefix(s@, prefix@),
{
    let c = chars_of(s);
    let q = chars_of(prefix);
    if q.len() > c.len() {
        return false;
    }
    let mut i: usize = 0;
    while i < q.len()
        invariant
            c@ == s@,
            q@ == prefix@,
            q@.len() <= c@.len(),
            i <= q@.len(),
            forall|k: int| 0 <= k < i ==> c@[k] == q@[k],
        decreases q@.len() - i,
    {
        if c[i] != q[i] {
            assert(c@.subrange(0, q@.len() as int)[i as int] != q@[i as int]);
            return false;
        }
        i = i + 1;
    }
    assert(c@.subrange(0, q@.len() as int) =~= q@);
    true
}

} // verus!
