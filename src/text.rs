//! Character-level text helpers: splitting on a separator, trimming, and
//! reading and writing decimal integers.

use vstd::prelude::*;

verus! {

/// The pieces of `s` between the occurrences of `sep`, in order: `k`
/// separators give `k + 1` pieces, some of which may be empty.
pub open spec fn split_spec(s: Seq<char>, sep: char) -> Seq<Seq<char>>
    decreases s.len(),
{
    if s.len() == 0 {
        seq![Seq::empty()]
    } else {
        let pieces = split_spec(s.drop_last(), sep);
        if s.last() == sep {
            pieces.push(Seq::empty())
        } else {
            pieces.update(pieces.len() - 1, pieces.last().push(s.last()))
        }
    }
}

/// Splitting always yields at least one piece.
pub proof fn lemma_split_nonempty(s: Seq<char>, sep: char)
    ensures
        split_spec(s, sep).len() >= 1,
    decreases s.len(),
{
    if s.len() > 0 {
        lemma_split_nonempty(s.drop_last(), sep);
    }
}

/// The views of a sequence of string slices.
pub open spec fn views_of(v: Seq<&str>) -> Seq<Seq<char>> {
    v.map_values(|p: &str| p@)
}

/// Splits `s` at every `sep`, as `str::split` does with a `char` pattern.
pub fn split_on<'a>(s: &'a str, sep: char) -> (r: Vec<&'a str>)
    ensures
        views_of(r@) == split_spec(s@, sep),
{
    let n = s.unicode_len();
    let mut pieces: Vec<&'a str> = Vec::new();
    let mut start: usize = 0;
    let mut i: usize = 0;
    assert(s@.subrange(0, 0) =~= Seq::<char>::empty());
    assert(views_of(pieces@).push(s@.subrange(0, 0)) =~= split_spec(s@.subrange(0, 0), sep));
    while i < n
        invariant
            n == s@.len(),
            start <= i <= n,
            views_of(pieces@).push(s@.subrange(start as int, i as int)) == split_spec(
                s@.subrange(0, i as int),
                sep,
            ),
        decreases n - i,
    {
        let c = s.get_char(i);
        let ghost before = s@.subrange(0, i as int);
        let ghost after = s@.subrange(0, i + 1);
        let ghost done = views_of(pieces@);
        let ghost current = s@.subrange(start as int, i as int);
        assert(after.drop_last() =~= before);
        assert(after.last() == c);
        if c == sep {
            let piece = s.substring_char(start, i);
            pieces.push(piece);
            assert(views_of(pieces@) =~= done.push(current));
            start = i + 1;
            assert(s@.subrange(start as int, i + 1) =~= Seq::<char>::empty());
        } else {
            assert(s@.subrange(start as int, i + 1) =~= current.push(c));
            assert(done.push(current).update(done.len() as int, current.push(c)) =~= done.push(
                current.push(c),
            ));
        }
        i = i + 1;
    }
    let last = s.substring_char(start, n);
    pieces.push(last);
    assert(s@.subrange(0, n as int) =~= s@);
    pieces
}

/// `k` is the position of the first `c` in `s`.
pub open spec fn first_at(s: Seq<char>, c: char, k: int) -> bool {
    &&& 0 <= k < s.len()
    &&& s[k] == c
    &&& forall|j: int| 0 <= j < k ==> s[j] != c
}

/// The text before and after the first `sep` of `s`, or `None` where `s`
/// holds no `sep`.
pub open spec fn split_once_spec(s: Seq<char>, sep: char) -> Option<(Seq<char>, Seq<char>)> {
    if exists|k: int| first_at(s, sep, k) {
        let k = choose|k: int| first_at(s, sep, k);
        Some((s.take(k), s.skip(k + 1)))
    } else {
        None
    }
}

/// The views of a pair of string slices, if any.
pub open spec fn pair_views(r: Option<(&str, &str)>) -> Option<(Seq<char>, Seq<char>)> {
    match r {
        Some(p) => Some((p.0@, p.1@)),
        None => None,
    }
}

/// Splits `s` at its first `sep`, as `str::split_once` does with a `char`.
pub fn split_once_on<'a>(s: &'a str, sep: char) -> (r: Option<(&'a str, &'a str)>)
    ensures
        pair_views(r) == split_once_spec(s@, sep),
{
    let n = s.unicode_len();
    let mut i: usize = 0;
    while i < n
        invariant
            n == s@.len(),
            i <= n,
            forall|j: int| 0 <= j < i ==> s@[j] != sep,
        decreases n - i,
    {
        if s.get_char(i) == sep {
            let head = s.substring_char(0, i);
            let tail = s.substring_char(i + 1, n);
            proof {
                assert(first_at(s@, sep, i as int));
                let k = choose|k: int| first_at(s@, sep, k);
                assert(s@[k] == sep);
                assert(k == i);
                assert(head@ =~= s@.take(i as int));
                assert(tail@ =~= s@.skip(i + 1));
            }
            return Some((head, tail));
        }
        i = i + 1;
    }
    None
}

/// What `str::trim` leaves of `s`.
pub uninterp spec fn trimmed(s: Seq<char>) -> Seq<char>;

/// Relies on `str::trim`: removes leading and trailing whitespace, so the
/// result depends on the characters of its argument alone.
#[verifier::external_body]
pub(crate) fn trim_text(s: &str) -> (r: &str)
    ensures
        r@ == trimmed(s@),
{
    s.trim()
}

/// `c` is one of the ASCII digits `0` to `9`.
pub open spec fn is_digit(c: char) -> bool {
    '0' <= c <= '9'
}

/// `d` is a non-empty run of ASCII digits.
pub open spec fn all_digits(d: Seq<char>) -> bool {
    d.len() > 0 && forall|i: int| 0 <= i < d.len() ==> is_digit(#[trigger] d[i])
}

/// The number that the decimal digits `d` write, most significant first.
pub open spec fn digits_value(d: Seq<char>) -> nat
    decreases d.len(),
{
    if d.len() == 0 {
        0
    } else {
        10 * digits_value(d.drop_last()) + (d.last() as nat - '0' as nat) as nat
    }
}

/// The integer that `s` writes in base 10: an optional `+` or `-`, then one
/// or more ASCII digits and nothing else.
pub open spec fn integer_value(s: Seq<char>) -> Option<int> {
    if s.len() > 0 && (s[0] == '-' || s[0] == '+') {
        let d = s.drop_first();
        if !all_digits(d) {
            None
        } else if s[0] == '-' {
            Some(-digits_value(d))
        } else {
            Some(digits_value(d) as int)
        }
    } else if all_digits(s) {
        Some(digits_value(s) as int)
    } else {
        None
    }
}

/// What `s.parse::<i32>()` gives: the integer that `s` writes, where it
/// fits in an `i32`.
pub open spec fn parse_i32_spec(s: Seq<char>) -> Option<i32> {
    match integer_value(s) {
        Some(v) => if i32::MIN <= v <= i32::MAX {
            Some(v as i32)
        } else {
            None
        },
        None => None,
    }
}

/// Relies on `i32`'s `FromStr` (base 10): an optional sign followed by
/// ASCII digits only, and an error where the value does not fit.
#[verifier::external_body]
pub(crate) fn parse_i32(s: &str) -> (r: Option<i32>)
    ensures
        r == parse_i32_spec(s@),
{
    s.parse::<i32>().ok()
}

/// The decimal digits of `n`, most significant first, without leading zeros.
pub open spec fn digits_text(n: nat) -> Seq<char>
    decreases n,
{
    if n < 10 {
        seq![(n + '0' as nat) as char]
    } else {
        digits_text(n / 10).push(((n % 10) + '0' as nat) as char)
    }
}

/// The decimal text of `v`: a `-` where it is negative, then its digits.
pub open spec fn int_text(v: int) -> Seq<char> {
    if v < 0 {
        seq!['-'] + digits_text((-v) as nat)
    } else {
        digits_text(v as nat)
    }
}

/// Relies on `i32`'s `Display`, through `ToString`: the decimal digits of
/// the value, after a `-` where it is negative.
#[verifier::external_body]
pub(crate) fn i32_text(v: i32) -> (r: String)
    ensures
        r@ == int_text(v as int),
{
    v.to_string()
}

/// A text that holds no `sep` is a single piece.
pub proof fn lemma_split_without_sep(s: Seq<char>, sep: char)
    requires
        !s.contains(sep),
    ensures
        split_spec(s, sep) == seq![s],
    decreases s.len(),
{
    if s.len() == 0 {
        assert(s =~= Seq::<char>::empty());
        assert(split_spec(s, sep) =~= seq![s]);
    } else {
        let init = s.drop_last();
        assert(!init.contains(sep)) by {
            if init.contains(sep) {
                let j = choose|j: int| 0 <= j < init.len() && init[j] == sep;
                assert(s[j] == sep);
            }
        }
        lemma_split_without_sep(init, sep);
        assert(s.last() != sep) by {
            assert(s[s.len() - 1] == s.last());
        }
        assert(init.push(s.last()) =~= s);
        assert(split_spec(s, sep) =~= seq![s]);
    }
}

/// Splitting a text whose first `sep` follows `h` gives `h`, then the pieces
/// of what follows that separator.
pub proof fn lemma_split_at_first(h: Seq<char>, b: Seq<char>, sep: char)
    requires
        !h.contains(sep),
    ensures
        split_spec(h + seq![sep] + b, sep) == seq![h] + split_spec(b, sep),
    decreases b.len(),
{
    let s = h + seq![sep] + b;
    if b.len() == 0 {
        lemma_split_without_sep(h, sep);
        assert(s.drop_last() =~= h);
        assert(s.last() == sep);
        assert(b =~= Seq::<char>::empty());
        assert(split_spec(s, sep) =~= seq![h] + split_spec(b, sep));
    } else {
        let init = b.drop_last();
        lemma_split_at_first(h, init, sep);
        lemma_split_nonempty(init, sep);
        assert(s.drop_last() =~= h + seq![sep] + init);
        assert(s.last() == b.last());
        assert(split_spec(s, sep) =~= seq![h] + split_spec(b, sep));
    }
}

/// The digits of `n` are ASCII digits, and read back as `n`.
pub proof fn lemma_digits_text(n: nat)
    ensures
        all_digits(digits_text(n)),
        digits_value(digits_text(n)) == n,
    decreases n,
{
    let t = digits_text(n);
    let d = n % 10;
    assert(((d + '0' as nat) as char) as nat == d + '0' as nat);
    if n < 10 {
        assert(t.drop_last() =~= Seq::<char>::empty());
        assert(digits_value(t.drop_last()) == 0);
        assert(d == n);
        assert(t.last() as nat == n + '0' as nat);
    } else {
        assert(n == 10 * (n / 10) + d);
        lemma_digits_text(n / 10);
        assert(t.drop_last() =~= digits_text(n / 10));
        assert(t.last() as nat == d + '0' as nat);
        assert forall|i: int| 0 <= i < t.len() implies is_digit(#[trigger] t[i]) by {
            if i < t.len() - 1 {
                assert(t[i] == digits_text(n / 10)[i]);
            }
        }
    }
}

/// The decimal text of `v` is made of digits and a leading `-` only.
pub proof fn lemma_int_text_chars(v: int, c: char)
    requires
        c != '-',
        !is_digit(c),
    ensures
        !int_text(v).contains(c),
{
    let t = int_text(v);
    let d = if v < 0 {
        digits_text((-v) as nat)
    } else {
        digits_text(v as nat)
    };
    lemma_digits_text(if v < 0 {
        (-v) as nat
    } else {
        v as nat
    });
    if t.contains(c) {
        let j = choose|j: int| 0 <= j < t.len() && t[j] == c;
        if v < 0 {
            assert(t[j] == '-' || t[j] == d[j - 1]);
        } else {
            assert(t[j] == d[j]);
        }
    }
}

/// Parsing the decimal text of an `i32` gives the value back.
pub proof fn lemma_int_text_parses(v: i32)
    ensures
        parse_i32_spec(int_text(v as int)) == Some(v),
{
    let t = int_text(v as int);
    if v < 0 {
        let n = (-(v as int)) as nat;
        lemma_digits_text(n);
        assert(t.drop_first() =~= digits_text(n));
    } else {
        lemma_digits_text(v as nat);
        assert(is_digit(t[0]));
    }
}

} // verus!
