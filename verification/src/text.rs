//! Character-level text helpers: splitting, decimal numbers, substring search.
use vstd::prelude::*;

verus! {

/// The characters of a string slice, in order.
pub fn chars_of(s: &str) -> (v: Vec<char>)
    ensures
        v@ == s@,
{
    let mut v: Vec<char> = Vec::new();
    for c in it: s.chars()
        invariant
            v@ == it.seq().take(it.index() as int),
            it.seq() == s@,
    {
        v.push(c);
    }
    v
}

/// Appends one character to a `String` (std's `String::push`).
#[verifier::external_body]
pub(crate) fn push_char(s: &mut String, c: char)
    ensures
        final(s)@ == old(s)@.push(c),
{
    s.push(c);
}

/// Removes the last character of a `String`, if any (std's `String::pop`).
#[verifier::external_body]
pub(crate) fn pop_char(s: &mut String) -> (r: Option<char>)
    ensures
        old(s)@.len() == 0 ==> r is None && final(s)@ == old(s)@,
        old(s)@.len() > 0 ==> r == Some(old(s)@.last()) && final(s)@ == old(s)@.drop_last(),
{
    s.pop()
}

/// A `String` holding exactly the given characters.
pub fn string_of(v: &Vec<char>) -> (s: String)
    ensures
        s@ == v@,
{
    let mut s = String::new();
    for i in 0..v.len()
        invariant
            s@ == v@.take(i as int),
    {
        push_char(&mut s, v[i]);
        assert(v@.take(i + 1) == v@.take(i as int).push(v@[i as int]));
    }
    assert(v@.take(v.len() as int) == v@);
    s
}

/// A `String` holding the characters of `lit`.
pub fn string_from(lit: &str) -> (r: String)
    ensures
        r@ == lit@,
{
    String::from_str(lit)
}

/// The decimal representation of `n` as a `String`.
pub fn decimal_string(n: u64) -> (r: String)
    ensures
        r@ == decimal(n as nat),
{
    string_of(&decimal_chars(n))
}

/// `s` followed by the characters `v`.
pub fn append_chars(s: String, v: &Vec<char>) -> (r: String)
    ensures
        r@ == s@ + v@,
{
    let mut r = s;
    for i in 0..v.len()
        invariant
            r@ == s@ + v@.take(i as int),
    {
        push_char(&mut r, v[i]);
        assert(v@.take(i + 1) == v@.take(i as int).push(v@[i as int]));
        assert(r@ =~= s@ + v@.take(i + 1));
    }
    assert(v@.take(v.len() as int) == v@);
    r
}

/// `s` followed by the characters of `t`.
pub fn concat(s: String, t: &str) -> (r: String)
    ensures
        r@ == s@ + t@,
{
    let tv = chars_of(t);
    append_chars(s, &tv)
}

/// Whitespace as std's `char::is_whitespace` defines it (the Unicode
/// `White_Space` property).
pub open spec fn is_ws(c: char) -> bool {
    ||| c == ' '
    ||| '\t' <= c <= '\r'
    ||| c == '\u{85}'
    ||| c == '\u{a0}'
    ||| c == '\u{1680}'
    ||| '\u{2000}' <= c <= '\u{200a}'
    ||| c == '\u{2028}'
    ||| c == '\u{2029}'
    ||| c == '\u{202f}'
    ||| c == '\u{205f}'
    ||| c == '\u{3000}'
}

pub fn is_whitespace(c: char) -> (b: bool)
    ensures
        b == is_ws(c),
{
    c == ' ' || ('\t' <= c && c <= '\r') || c == '\u{85}' || c == '\u{a0}' || c == '\u{1680}'
        || ('\u{2000}' <= c && c <= '\u{200a}') || c == '\u{2028}' || c == '\u{2029}' || c
        == '\u{202f}' || c == '\u{205f}' || c == '\u{3000}'
}

/// The maximal runs of non-whitespace characters of `s`, in order
/// (what std's `str::split_whitespace` yields).
pub open spec fn words(s: Seq<char>) -> Seq<Seq<char>>
    decreases s.len(),
{
    if s.len() == 0 {
        seq![]
    } else if is_ws(s.last()) {
        words(s.drop_last())
    } else if s.len() > 1 && !is_ws(s[s.len() - 2]) {
        let w = words(s.drop_last());
        w.update(w.len() - 1, w.last().push(s.last()))
    } else {
        words(s.drop_last()).push(seq![s.last()])
    }
}

proof fn lemma_words_nonempty(s: Seq<char>)
    requires
        s.len() > 0,
        !is_ws(s.last()),
    ensures
        words(s).len() > 0,
    decreases s.len(),
{
    if s.len() > 1 && !is_ws(s[s.len() - 2]) {
        lemma_words_nonempty(s.drop_last());
    }
}

pub open spec fn views(v: Seq<Vec<char>>) -> Seq<Seq<char>> {
    v.map_values(|x: Vec<char>| x@)
}

/// Splits `s` at whitespace, like `split_whitespace`.
pub fn split_words(s: &Vec<char>) -> (r: Vec<Vec<char>>)
    ensures
        views(r@) == words(s@),
{
    let mut r: Vec<Vec<char>> = Vec::new();
    let mut i: usize = 0;
    while i < s.len()
        invariant
            i <= s.len(),
            views(r@) == words(s@.take(i as int)),
        decreases s.len() - i,
    {
        let c = s[i];
        let ghost pre = s@.take(i as int);
        let ghost post = s@.take(i + 1);
        assert(post.drop_last() == pre);
        assert(post.last() == c);
        if is_whitespace(c) {
        } else if i > 0 && !is_whitespace(s[i - 1]) {
            assert(pre.last() == s@[i - 1]);
            proof {
                lemma_words_nonempty(pre);
            }
            let mut last = r.pop().unwrap();
            last.push(c);
            r.push(last);
            assert(views(r@) =~= words(post));
        } else {
            assert(i > 0 ==> post[i - 1] == s@[i - 1]);
            let ghost before = r@;
            let w = vec![c];
            assert(w@ == seq![c]);
            r.push(w);
            assert(r@ == before.push(w));
            assert(views(r@) =~= words(post));
        }
        i = i + 1;
    }
    assert(s@.take(s.len() as int) == s@);
    r
}

/// The pieces of `s` that std's `str::split_inclusive('\n')` yields: each
/// piece but the last ends with its newline.
pub open spec fn nl_pieces(s: Seq<char>) -> Seq<Seq<char>>
    decreases s.len(),
{
    if s.len() == 0 {
        seq![]
    } else {
        let p = nl_pieces(s.drop_last());
        if p.len() > 0 && p.last().last() != '\n' {
            p.update(p.len() - 1, p.last().push(s.last()))
        } else {
            p.push(seq![s.last()])
        }
    }
}

/// A piece with its line ending (`"\n"` or `"\r\n"`) removed.
pub open spec fn strip_eol(p: Seq<char>) -> Seq<char> {
    if p.len() > 0 && p.last() == '\n' {
        let q = p.drop_last();
        if q.len() > 0 && q.last() == '\r' {
            q.drop_last()
        } else {
            q
        }
    } else {
        p
    }
}

/// The lines of `s`, as std's `str::lines` yields them.
pub open spec fn lines(s: Seq<char>) -> Seq<Seq<char>> {
    nl_pieces(s).map_values(|p: Seq<char>| strip_eol(p))
}

proof fn lemma_pieces_nonempty(s: Seq<char>)
    ensures
        forall|k: int| 0 <= k < nl_pieces(s).len() ==> #[trigger] nl_pieces(s)[k].len() > 0,
    decreases s.len(),
{
    if s.len() > 0 {
        lemma_pieces_nonempty(s.drop_last());
        let p = nl_pieces(s.drop_last());
        if p.len() > 0 && p.last().last() != '\n' {
            let q = p.update(p.len() - 1, p.last().push(s.last()));
            assert forall|k: int| 0 <= k < q.len() implies #[trigger] q[k].len() > 0 by {
                if k < p.len() - 1 {
                    assert(q[k] == p[k]);
                }
            }
        } else {
            let q = p.push(seq![s.last()]);
            assert forall|k: int| 0 <= k < q.len() implies #[trigger] q[k].len() > 0 by {
                if k < p.len() {
                    assert(q[k] == p[k]);
                }
            }
        }
    }
}

/// Splits `s` into lines, like `str::lines`.
pub fn split_lines(s: &Vec<char>) -> (r: Vec<Vec<char>>)
    ensures
        views(r@) == lines(s@),
{
    let mut pieces: Vec<Vec<char>> = Vec::new();
    let mut i: usize = 0;
    while i < s.len()
        invariant
            i <= s.len(),
            views(pieces@) == nl_pieces(s@.take(i as int)),
        decreases s.len() - i,
    {
        let c = s[i];
        let ghost pre = s@.take(i as int);
        let ghost post = s@.take(i + 1);
        assert(post.drop_last() == pre);
        assert(post.last() == c);
        proof {
            lemma_pieces_nonempty(pre);
        }
        let n = pieces.len();
        let open_piece = if n > 0 {
            assert(views(pieces@)[n - 1] == pieces@[n - 1]@);
            let m = pieces[n - 1].len();
            assert(nl_pieces(pre)[n - 1].len() > 0);
            pieces[n - 1][m - 1] != '\n'
        } else {
            false
        };
        let ghost pv = nl_pieces(pre);
        assert(open_piece == (pv.len() > 0 && pv.last().last() != '\n'));
        if open_piece {
            let mut last = pieces.pop().unwrap();
            last.push(c);
            pieces.push(last);
            assert(views(pieces@) =~= pv.update(pv.len() - 1, pv.last().push(c)));
        } else {
            let ghost before = pieces@;
            let w = vec![c];
            assert(w@ == seq![c]);
            pieces.push(w);
            assert(pieces@ == before.push(w));
            assert(views(pieces@) =~= pv.push(seq![c]));
        }
        assert(views(pieces@) =~= nl_pieces(post));
        i = i + 1;
    }
    assert(s@.take(s.len() as int) == s@);
    let mut r: Vec<Vec<char>> = Vec::new();
    let mut k: usize = 0;
    while k < pieces.len()
        invariant
            k <= pieces.len(),
            views(pieces@) == nl_pieces(s@),
            r@.len() == k,
            forall|j: int| 0 <= j < k ==> #[trigger] r@[j]@ == strip_eol(nl_pieces(s@)[j]),
        decreases pieces.len() - k,
    {
        let mut p = pieces[k].clone();
        let ghost orig = p@;
        assert(views(pieces@)[k as int] == pieces@[k as int]@);
        assert(p@ == nl_pieces(s@)[k as int]);
        let n = p.len();
        if n > 0 && p[n - 1] == '\n' {
            p.pop();
            let m = p.len();
            if m > 0 && p[m - 1] == '\r' {
                p.pop();
            }
        }
        assert(p@ == strip_eol(orig));
        r.push(p);
        k = k + 1;
    }
    assert(views(r@) =~= lines(s@));
    r
}

/// The numeric value of an ASCII digit.
pub open spec fn digit_value(c: char) -> nat {
    (c as nat - '0' as nat) as nat
}

pub open spec fn is_digit(c: char) -> bool {
    '0' <= c <= '9'
}

pub open spec fn all_digits(s: Seq<char>) -> bool {
    forall|i: int| 0 <= i < s.len() ==> is_digit(#[trigger] s[i])
}

/// The number that the decimal digits `s` spell out.
pub open spec fn digits_value(s: Seq<char>) -> nat
    decreases s.len(),
{
    if s.len() == 0 {
        0
    } else {
        digits_value(s.drop_last()) * 10 + digit_value(s.last())
    }
}

/// What std's `from_str` for an unsigned integer type whose largest value is
/// `max` makes of `s`: an optional leading `+`, then at least one ASCII
/// digit and nothing else, of a value no larger than `max`.
pub open spec fn unsigned_value(s: Seq<char>, max: nat) -> Option<nat> {
    let d = if s.len() > 0 && s[0] == '+' {
        s.drop_first()
    } else {
        s
    };
    if d.len() > 0 && all_digits(d) && digits_value(d) <= max {
        Some(digits_value(d))
    } else {
        None
    }
}

/// Parses an unsigned decimal number no larger than `max`, as std's
/// `from_str` for unsigned integers does.
pub fn parse_unsigned(s: &Vec<char>, max: u64) -> (r: Option<u64>)
    requires
        max <= u32::MAX,
    ensures
        match unsigned_value(s@, max as nat) {
            Some(v) => r == Some(v as u64),
            None => r is None,
        },
{
    let start: usize = if s.len() > 0 && s[0] == '+' {
        1
    } else {
        0
    };
    let ghost d = if s@.len() > 0 && s@[0] == '+' {
        s@.drop_first()
    } else {
        s@
    };
    assert(d == s@.subrange(start as int, s@.len() as int));
    if start >= s.len() {
        assert(d.len() == 0);
        return None;
    }
    let mut acc: u64 = 0;
    let mut over = false;
    let mut i = start;
    while i < s.len()
        invariant
            start <= i <= s.len(),
            start < s.len(),
            d == s@.subrange(start as int, s@.len() as int),
            d == (if s@.len() > 0 && s@[0] == '+' { s@.drop_first() } else { s@ }),
            max <= u32::MAX,
            all_digits(s@.subrange(start as int, i as int)),
            !over ==> acc == digits_value(s@.subrange(start as int, i as int)) && acc <= max,
            over ==> digits_value(s@.subrange(start as int, i as int)) > max,
        decreases s.len() - i,
    {
        let c = s[i];
        let ghost pre = s@.subrange(start as int, i as int);
        let ghost post = s@.subrange(start as int, i + 1);
        assert(post.drop_last() == pre);
        if !('0' <= c && c <= '9') {
            assert(d[i - start] == c);
            assert(!is_digit(d[i - start]));
            assert(!all_digits(d));
            return None;
        }
        let dv = (c as u32 - '0' as u32) as u64;
        assert(dv == digit_value(c));
        if !over {
            let next = acc * 10 + dv;
            if next > max {
                over = true;
            } else {
                acc = next;
            }
        }
        assert(all_digits(post));
        i = i + 1;
    }
    assert(s@.subrange(start as int, s.len() as int) == d);
    if over {
        None
    } else {
        Some(acc)
    }
}

/// A decimal digit character.
pub open spec fn digit_char(d: nat) -> char {
    ('0' as nat + d) as char
}

/// The decimal representation of `n`, without leading zeros.
pub open spec fn decimal(n: nat) -> Seq<char>
    decreases n,
{
    if n < 10 {
        seq![digit_char(n)]
    } else {
        decimal(n / 10).push(digit_char(n % 10))
    }
}

/// The decimal representation of a number is a non-empty run of digits that
/// reads back as the number.
pub proof fn lemma_decimal_reads_back(n: nat)
    ensures
        decimal(n).len() > 0,
        all_digits(decimal(n)),
        digits_value(decimal(n)) == n,
    decreases n,
{
    let d = n % 10;
    assert(digit_value(digit_char(d)) == d);
    assert(is_digit(digit_char(d)));
    if n < 10 {
        assert(decimal(n).drop_last() =~= Seq::<char>::empty());
        assert(decimal(n).last() == digit_char(d));
        assert(digits_value(decimal(n)) == digits_value(decimal(n).drop_last()) * 10 + digit_value(
            decimal(n).last(),
        ));
    } else {
        lemma_decimal_reads_back(n / 10);
        let s = decimal(n);
        assert(s.drop_last() == decimal(n / 10));
        assert(s.last() == digit_char(d));
        assert(digits_value(s) == digits_value(decimal(n / 10)) * 10 + d);
        assert(n == (n / 10) * 10 + d);
        assert forall|i: int| 0 <= i < s.len() implies is_digit(#[trigger] s[i]) by {
            if i < s.len() - 1 {
                assert(s[i] == decimal(n / 10)[i]);
            }
        }
    }
}

/// The character of a decimal digit.
pub fn digit(d: u64) -> (c: char)
    requires
        d < 10,
    ensures
        c == digit_char(d as nat),
{
    if d == 0 {
        '0'
    } else if d == 1 {
        '1'
    } else if d == 2 {
        '2'
    } else if d == 3 {
        '3'
    } else if d == 4 {
        '4'
    } else if d == 5 {
        '5'
    } else if d == 6 {
        '6'
    } else if d == 7 {
        '7'
    } else if d == 8 {
        '8'
    } else {
        '9'
    }
}

/// The decimal digits of `n`, as `to_string` writes them.
pub fn decimal_chars(n: u64) -> (v: Vec<char>)
    ensures
        v@ == decimal(n as nat),
    decreases n,
{
    if n < 10 {
        vec![digit(n)]
    } else {
        let mut v = decimal_chars(n / 10);
        v.push(digit(n % 10));
        v
    }
}

/// Whether `needle` occurs in `hay` as a contiguous run (as std's
/// `str::contains` with a string pattern decides).
pub open spec fn has_substring(hay: Seq<char>, needle: Seq<char>) -> bool {
    exists|i: int|
        0 <= i && i + needle.len() <= hay.len() && #[trigger] hay.subrange(i, i + needle.len())
            == needle
}

fn occurs_at(hay: &Vec<char>, needle: &Vec<char>, i: usize) -> (b: bool)
    requires
        i + needle.len() <= hay.len(),
    ensures
        b == (hay@.subrange(i as int, i + needle.len()) == needle@),
{
    let mut k: usize = 0;
    while k < needle.len()
        invariant
            i + needle.len() <= hay.len(),
            k <= needle.len(),
            forall|j: int| 0 <= j < k ==> hay@[i + j] == needle@[j],
        decreases needle.len() - k,
    {
        if hay[i + k] != needle[k] {
            assert(hay@.subrange(i as int, i + needle.len())[k as int] != needle@[k as int]);
            return false;
        }
        k = k + 1;
    }
    assert(hay@.subrange(i as int, i + needle.len()) =~= needle@);
    true
}

/// Substring search.
pub fn contains_chars(hay: &Vec<char>, needle: &Vec<char>) -> (b: bool)
    ensures
        b == has_substring(hay@, needle@),
{
    if needle.len() > hay.len() {
        return false;
    }
    let last = hay.len() - needle.len();
    let mut i: usize = 0;
    while i <= last
        invariant
            last == hay.len() - needle.len(),
            i <= last + 1,
            forall|j: int|
                0 <= j < i ==> #[trigger] hay@.subrange(j, j + needle.len()) != needle@,
        decreases last + 1 - i,
    {
        if occurs_at(hay, needle, i) {
            return true;
        }
        if i == last {
            return false;
        }
        i = i + 1;
    }
    false
}

/// A run occurs in any text that holds it between two others.
pub proof fn lemma_infix_is_substring(a: Seq<char>, b: Seq<char>, c: Seq<char>)
    ensures
        has_substring(a + b + c, b),
{
    let i = a.len() as int;
    assert((a + b + c).subrange(i, i + b.len()) =~= b);
}

/// Whether two character vectors are equal.
pub fn eq_chars(v: &Vec<char>, w: &Vec<char>) -> (b: bool)
    ensures
        b == (v@ == w@),
{
    if v.len() != w.len() {
        return false;
    }
    let mut i: usize = 0;
    while i < v.len()
        invariant
            v.len() == w.len(),
            i <= v.len(),
            forall|j: int| 0 <= j < i ==> v@[j] == w@[j],
        decreases v.len() - i,
    {
        if v[i] != w[i] {
            return false;
        }
        i = i + 1;
    }
    assert(v@ =~= w@);
    true
}

/// ASCII lowercasing of one character.
pub open spec fn ascii_lower(c: char) -> char {
    if 'A' <= c <= 'Z' {
        ((c as u32) + 32) as char
    } else {
        c
    }
}

/// ASCII lowercasing of a sequence of characters.
pub open spec fn lower(s: Seq<char>) -> Seq<char> {
    s.map_values(|c: char| ascii_lower(c))
}

pub fn to_ascii_lower(c: char) -> (r: char)
    ensures
        r == ascii_lower(c),
{
    if 'A' <= c && c <= 'Z' {
        let b = c as u8;
        assert(b == c as u32);
        ((b + 32) as char)
    } else {
        c
    }
}

/// The ASCII-lowercased characters of `v`.
pub fn lower_chars(v: &Vec<char>) -> (r: Vec<char>)
    ensures
        r@ == lower(v@),
{
    let mut r: Vec<char> = Vec::new();
    for i in 0..v.len()
        invariant
            r@ == lower(v@).take(i as int),
    {
        r.push(to_ascii_lower(v[i]));
        assert(r@ =~= lower(v@).take(i + 1));
    }
    assert(lower(v@).take(v.len() as int) =~= lower(v@));
    r
}

} // verus!
