use vstd::prelude::*;

verus! {

/// Whether both strings hold the same characters.
pub fn str_equals(a: &str, b: &str) -> (r: bool)
    ensures
        r == (a@ == b@),
{
    let a = a.to_owned();
    let b = b.to_owned();
    a == b
}

/// What matching `text` against the regular expression `pattern` gives:
/// `None` when `pattern` is not a valid expression, otherwise whether some part
/// of `text` matches it.
pub uninterp spec fn regex_match(pattern: Seq<char>, text: Seq<char>) -> Option<bool>;

/// Compiles `pattern` with `regex::Regex::new` and, when it compiles, tests
/// `text` against it with `regex::Regex::is_match`. The result is taken to
/// depend on the two strings alone. For the anchored expressions that the
/// names of this library use, it is stated as the regex crate documents them:
/// `^` and `$` match at the ends of the text only, `.` matches any character
/// but a new line, a class matches one character of it, and `{m,n}` repeats
/// from `m` to `n` times; for other expressions nothing more is claimed.
#[verifier::external_body]
pub(crate) fn regex_is_match(pattern: &str, text: &str) -> (r: Option<bool>)
    ensures
        r == regex_match(pattern@, text@),
        pattern@ == r"^[1-9][0-9]{0,8}$"@ ==> r == Some(
            1 <= text@.len() <= 9 && '1' <= text@[0] <= '9' && forall|i: int|
                1 <= i < text@.len() ==> is_digit(#[trigger] text@[i]),
        ),
        pattern@ == r"^.{1,100}$"@ ==> r == Some(
            1 <= text@.len() <= 100 && forall|i: int| 0 <= i < text@.len() ==> #[trigger] text@[i] != '\n',
        ),
        pattern@ == r"^[0-9A-Za-z-]{1,14}$"@ ==> r == Some(
            1 <= text@.len() <= 14 && forall|i: int|
                0 <= i < text@.len() ==> is_alphanumeric(#[trigger] text@[i]) || text@[i] == '-',
        ),
        pattern@ == r"^[0-9A-Za-z_-]{1,12}$"@ ==> r == Some(
            1 <= text@.len() <= 12 && forall|i: int|
                0 <= i < text@.len() ==> is_alphanumeric(#[trigger] text@[i]) || text@[i] == '_'
                    || text@[i] == '-',
        ),
        pattern@ == r"^[0-9A-Za-zéèê]{1,12}$"@ ==> r == Some(
            1 <= text@.len() <= 12 && forall|i: int|
                0 <= i < text@.len() ==> is_alphanumeric(#[trigger] text@[i]) || text@[i] == 'é'
                    || text@[i] == 'è' || text@[i] == 'ê',
        ),
{
    match regex::Regex::new(pattern) {
        Ok(re) => Some(re.is_match(text)),
        Err(_) => None,
    }
}

/// Whether `c` is an ASCII letter or digit.
pub open spec fn is_alphanumeric(c: char) -> bool {
    ('0' <= c <= '9') || ('A' <= c <= 'Z') || ('a' <= c <= 'z')
}

/// Whether `c` is an ASCII decimal digit.
pub open spec fn is_digit(c: char) -> bool {
    '0' <= c <= '9'
}

/// The value of the decimal digits `s`, most significant first.
pub open spec fn digits_value(s: Seq<char>) -> int
    decreases s.len(),
{
    if s.len() == 0 {
        0
    } else {
        digits_value(s.drop_last()) * 10 + (s.last() as int - '0' as int)
    }
}

/// The digits of a decimal number: the text without its leading `+`, if any
/// (a lone `+` is kept, and then is no digit).
pub open spec fn decimal_digits(s: Seq<char>) -> Seq<char> {
    if s.len() > 1 && s[0] == '+' {
        s.drop_first()
    } else {
        s
    }
}

/// The `u32` that the decimal text `s` denotes, as `u32::from_str` reads it:
/// an optional `+`, then one or more digits, of a value that fits.
pub open spec fn decimal_u32(s: Seq<char>) -> Option<u32> {
    let d = decimal_digits(s);
    if d.len() > 0 && (forall|i: int| 0 <= i < d.len() ==> is_digit(#[trigger] d[i]))
        && digits_value(d) <= u32::MAX {
        Some(digits_value(d) as u32)
    } else {
        None
    }
}

proof fn lemma_digits_value_grows(s: Seq<char>, k: int)
    requires
        0 <= k <= s.len(),
        forall|i: int| 0 <= i < s.len() ==> is_digit(#[trigger] s[i]),
    ensures
        digits_value(s.take(k)) <= digits_value(s),
        digits_value(s.take(k)) >= 0,
    decreases s.len(),
{
    if s.len() > 0 {
        if k == s.len() {
            assert(s.take(k) =~= s);
            lemma_digits_value_grows(s.drop_last(), s.len() - 1);
            assert(s.drop_last().take(s.len() - 1) =~= s.drop_last());
        } else {
            lemma_digits_value_grows(s.drop_last(), k);
            assert(s.drop_last().take(k) =~= s.take(k));
            lemma_digits_value_grows(s.drop_last(), s.len() - 1);
            assert(s.drop_last().take(s.len() - 1) =~= s.drop_last());
        }
    }
}

/// Reads a `u32` written in decimal, as `u32::from_str` does.
pub fn parse_decimal_u32(s: &str) -> (r: Option<u32>)
    ensures
        r == decimal_u32(s@),
{
    let n = s.unicode_len();
    if n == 0 {
        return None;
    }
    let start: usize = if n > 1 && s.get_char(0) == '+' {
        1
    } else {
        0
    };
    let ghost d = decimal_digits(s@);
    assert(d =~= s@.subrange(start as int, n as int));
    if start == n {
        return None;
    }
    let mut i: usize = start;
    let mut acc: u64 = 0;
    while i < n
        invariant
            start <= i <= n,
            n == s@.len(),
            start < n,
            d == s@.subrange(start as int, n as int),
            d == decimal_digits(s@),
            forall|j: int| 0 <= j < i - start ==> is_digit(#[trigger] d[j]),
            acc == digits_value(d.take(i - start)),
            acc <= u32::MAX,
        decreases n - i,
    {
        let c = s.get_char(i);
        assert(d[i - start] == c);
        if !('0' <= c && c <= '9') {
            assert(!is_digit(d[i - start]));
            return None;
        }
        let digit = (c as u32 - '0' as u32) as u64;
        let ghost k = i + 1 - start;
        assert(d.take(k).drop_last() =~= d.take(i - start));
        assert(d.take(k).last() == c);
        acc = acc * 10 + digit;
        assert(acc == digits_value(d.take(k)));
        if acc > u32::MAX as u64 {
            proof {
                if forall|j: int| 0 <= j < d.len() ==> is_digit(#[trigger] d[j]) {
                    lemma_digits_value_grows(d, k);
                }
            }
            return None;
        }
        i = i + 1;
    }
    assert(d.take(n - start) =~= d);
    Some(acc as u32)
}

/// The pieces of `s` between the occurrences of `sep`, as `str::split` gives
/// them: there is one more piece than there are separators.
pub open spec fn pieces(s: Seq<char>, sep: char) -> Seq<Seq<char>>
    decreases s.len(),
{
    if s.len() == 0 {
        seq![Seq::<char>::empty()]
    } else {
        let p = pieces(s.drop_last(), sep);
        if s.last() == sep {
            p.push(Seq::<char>::empty())
        } else {
            p.update(p.len() - 1, p.last().push(s.last()))
        }
    }
}

/// Splits `s` at each occurrence of `sep`.
pub fn split_pieces(s: &str, sep: char) -> (r: Vec<String>)
    ensures
        r@.map_values(|x: String| x@) == pieces(s@, sep),
{
    let n = s.unicode_len();
    let mut done: Vec<String> = Vec::new();
    let mut start: usize = 0;
    let mut i: usize = 0;
    assert(s@.take(0) =~= Seq::<char>::empty());
    assert(done@.map_values(|x: String| x@).push(s@.subrange(0, 0)) =~= seq![Seq::<char>::empty()]);
    while i < n
        invariant
            start <= i <= n,
            n == s@.len(),
            pieces(s@.take(i as int), sep) == done@.map_values(|x: String| x@).push(
                s@.subrange(start as int, i as int),
            ),
        decreases n - i,
    {
        let c = s.get_char(i);
        let ghost before = done@.map_values(|x: String| x@);
        assert(s@.take(i + 1).drop_last() =~= s@.take(i as int));
        assert(s@.take(i + 1).last() == c);
        if c == sep {
            let piece = s.substring_char(start, i).to_owned();
            done.push(piece);
            assert(done@.map_values(|x: String| x@) =~= before.push(s@.subrange(start as int, i as int)));
            start = i + 1;
            assert(s@.subrange(start as int, i + 1) =~= Seq::<char>::empty());
        } else {
            assert(s@.subrange(start as int, i + 1) =~= s@.subrange(start as int, i as int).push(c));
        }
        i = i + 1;
    }
    let last = s.substring_char(start, n).to_owned();
    let ghost before = done@.map_values(|x: String| x@);
    done.push(last);
    assert(s@.take(n as int) =~= s@);
    assert(done@.map_values(|x: String| x@) =~= before.push(s@.subrange(start as int, n as int)));
    done
}

/// The `n`-th piece of `s` split at `sep`, if there are that many.
pub open spec fn nth_piece(s: Seq<char>, sep: char, n: int) -> Option<Seq<char>> {
    if 0 <= n < pieces(s, sep).len() {
        Some(pieces(s, sep)[n])
    } else {
        None
    }
}

/// The `n`-th piece of `s` split at `sep`, as `s.split(sep).nth(n)` gives it.
pub fn split_nth(s: &str, sep: char, n: usize) -> (r: Option<String>)
    ensures
        match r {
            Some(p) => nth_piece(s@, sep, n as int) == Some(p@),
            None => nth_piece(s@, sep, n as int) is None,
        },
{
    let mut all = split_pieces(s, sep);
    if n < all.len() {
        let ghost v = all@.map_values(|x: String| x@);
        assert(v[n as int] == all@[n as int]@);
        Some(all.swap_remove(n))
    } else {
        None
    }
}


/// The number of occurrences of `c` in `s`.
pub open spec fn count_char(s: Seq<char>, c: char) -> nat
    decreases s.len(),
{
    if s.len() == 0 {
        0
    } else {
        count_char(s.drop_last(), c) + if s.last() == c {
            1nat
        } else {
            0nat
        }
    }
}

/// The pieces `ps` put back together, with `sep` between two pieces.
pub open spec fn join_pieces(ps: Seq<Seq<char>>, sep: char) -> Seq<char>
    decreases ps.len(),
{
    if ps.len() <= 1 {
        if ps.len() == 1 {
            ps[0]
        } else {
            Seq::empty()
        }
    } else {
        join_pieces(ps.drop_last(), sep).push(sep) + ps.last()
    }
}

/// Splitting at a separator loses nothing and keeps no separator: there is
/// one more piece than there are separators, no piece holds the separator,
/// and putting the pieces back together with the separator between them gives
/// the text again.
pub proof fn law_split_pieces(s: Seq<char>, sep: char)
    ensures
        pieces(s, sep).len() == count_char(s, sep) + 1,
        forall|k: int| 0 <= k < pieces(s, sep).len() ==> !(#[trigger] pieces(s, sep)[k]).contains(sep),
        join_pieces(pieces(s, sep), sep) == s,
    decreases s.len(),
{
    if s.len() > 0 {
        let p0 = s.drop_last();
        law_split_pieces(p0, sep);
        let p = pieces(p0, sep);
        let c = s.last();
        assert(p0.push(c) =~= s);
        if c == sep {
            let q = p.push(Seq::<char>::empty());
            assert(q.drop_last() =~= p);
            assert(join_pieces(q, sep) =~= join_pieces(p, sep).push(sep) + Seq::<char>::empty());
            assert forall|k: int| 0 <= k < q.len() implies !(#[trigger] q[k]).contains(sep) by {
                if k < p.len() {
                    assert(q[k] == p[k]);
                }
            }
        } else {
            let last = p.last().push(c);
            let q = p.update(p.len() - 1, last);
            assert forall|k: int| 0 <= k < q.len() implies !(#[trigger] q[k]).contains(sep) by {
                if k < p.len() - 1 {
                    assert(q[k] == p[k]);
                } else {
                    assert(!p[p.len() - 1].contains(sep));
                    if last.contains(sep) {
                        let j = choose|j: int| 0 <= j < last.len() && last[j] == sep;
                        if j < last.len() - 1 {
                            assert(p.last()[j] == sep);
                        }
                    }
                }
            }
            if p.len() == 1 {
                assert(join_pieces(q, sep) == q[0]);
                assert(join_pieces(p, sep) == p[0]);
            } else {
                assert(q.drop_last() =~= p.drop_last());
                assert(join_pieces(q, sep) == join_pieces(p.drop_last(), sep).push(sep) + last);
                assert(join_pieces(p, sep) == join_pieces(p.drop_last(), sep).push(sep) + p.last());
                assert(join_pieces(p.drop_last(), sep).push(sep) + last =~= (join_pieces(
                    p.drop_last(),
                    sep,
                ).push(sep) + p.last()).push(c));
            }
        }
    }
}


/// Reading a decimal number digit by digit: a single digit is its own value,
/// a digit written after a number multiplies it by ten and adds the digit, as
/// long as the result fits, and a leading `+` changes nothing.
pub proof fn law_decimal_digits(d: Seq<char>, c: char, v: u32)
    ensures
        is_digit(c) ==> decimal_u32(seq![c]) == Some((c as int - '0' as int) as u32),
        d.len() > 0 && d[0] != '+' && decimal_u32(d) == Some(v) && is_digit(c) && v * 10 + (c as int
            - '0' as int) <= u32::MAX ==> decimal_u32(d.push(c)) == Some(
            (v * 10 + (c as int - '0' as int)) as u32,
        ),
        d.len() > 0 ==> decimal_u32(seq!['+'] + d) == decimal_u32(d) || d[0] == '+',
        !is_digit(c) && c != '+' ==> decimal_u32(d.push(c)) is None,
{
    if is_digit(c) {
        let one = seq![c];
        assert(one.drop_last() =~= Seq::<char>::empty());
        assert(decimal_digits(one) == one);
        assert(one.last() == c);
        assert(digits_value(Seq::<char>::empty()) == 0);
        assert(digits_value(one) == c as int - '0' as int);
        assert(forall|i: int| 0 <= i < one.len() ==> is_digit(#[trigger] one[i]));
    }
    if d.len() > 0 && d[0] != '+' && decimal_u32(d) == Some(v) && is_digit(c) {
        let e = d.push(c);
        assert(decimal_digits(d) == d);
        assert(decimal_digits(e) == e);
        assert(e.drop_last() =~= d);
        assert forall|i: int| 0 <= i < e.len() implies is_digit(#[trigger] e[i]) by {
            if i < d.len() {
                assert(e[i] == d[i]);
            }
        }
        lemma_digits_value_grows(d, d.len() as int);
        assert(d.take(d.len() as int) =~= d);
        assert(digits_value(d) == v);
        assert(e.last() == c);
        assert(digits_value(e) == digits_value(d) * 10 + (c as int - '0' as int));
    }
    if d.len() > 0 {
        let p = seq!['+'] + d;
        assert(p.drop_first() =~= d);
    }
    if !is_digit(c) && c != '+' {
        let e = d.push(c);
        let dd = decimal_digits(e);
        if e.len() > 1 && e[0] == '+' {
            assert(dd[dd.len() - 1] == c);
        } else {
            assert(dd[dd.len() - 1] == c);
        }
    }
}

} // verus!
