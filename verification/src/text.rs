//! Small helpers that move between strings and sequences of characters.

use vstd::prelude::*;
use vstd::string::*;

verus! {

/// Builds a `String` from characters with `String::from_iter`: the result
/// holds exactly the given characters, in order.
#[verifier::external_body]
pub(crate) fn string_from_chars(chars: &Vec<char>) -> (s: String)
    ensures
        s@ == chars@,
{
    String::from_iter(chars)
}

/// The characters of `s`, in order.
pub fn chars_of(s: &str) -> (out: Vec<char>)
    ensures
        out@ == s@,
{
    let mut out: Vec<char> = Vec::new();
    for c in it: s.chars()
        invariant
            it.seq() == s@,
            out@ == s@.take(it.index() as int),
    {
        out.push(c);
        assert(s@.take(it.index() + 1) =~= s@.take(it.index() as int).push(c));
    }
    assert(s@.take(s@.len() as int) =~= s@);
    out
}

/// Whether two strings hold the same characters.
pub fn same_text(a: &str, b: &str) -> (r: bool)
    ensures
        r == (a@ == b@),
{
    let x: String = a.to_owned();
    let y: String = b.to_owned();
    x == y
}

/// An independent copy of a list of strings.
pub fn clone_strings(items: &Vec<String>) -> (out: Vec<String>)
    ensures
        out@ == items@,
{
    let mut out: Vec<String> = Vec::new();
    let mut i: usize = 0;
    while i < items.len()
        invariant
            i <= items.len(),
            out@ == items@.take(i as int),
        decreases items.len() - i,
    {
        out.push(items[i].clone());
        i += 1;
        assert(items@.take(i as int) =~= items@.take(i - 1).push(items@[i - 1]));
    }
    assert(items@.take(items.len() as int) =~= items@);
    out
}

/// The character sequence of an optional string.
pub open spec fn opt_text(o: Option<String>) -> Option<Seq<char>> {
    match o {
        Some(s) => Some(s@),
        None => None,
    }
}

/// The character sequences that a list of strings holds.
pub open spec fn views_of(items: Seq<String>) -> Seq<Seq<char>> {
    Seq::new(items.len(), |i: int| items[i]@)
}

/// `parts` written one after another with `sep` between neighbours.
pub open spec fn joined(parts: Seq<Seq<char>>, sep: Seq<char>) -> Seq<char>
    decreases parts.len(),
{
    if parts.len() == 0 {
        Seq::<char>::empty()
    } else if parts.len() == 1 {
        parts[0]
    } else {
        joined(parts.drop_last(), sep) + sep + parts.last()
    }
}

/// Joins strings with a separator between neighbours.
pub fn join_with(parts: &Vec<String>, sep: &str) -> (out: String)
    ensures
        out@ == joined(views_of(parts@), sep@),
{
    let mut out: String = String::new();
    let mut i: usize = 0;
    assert(views_of(parts@).take(0) =~= Seq::<Seq<char>>::empty());
    while i < parts.len()
        invariant
            i <= parts.len(),
            out@ == joined(views_of(parts@).take(i as int), sep@),
        decreases parts.len() - i,
    {
        let ghost upto = views_of(parts@).take(i + 1);
        assert(upto.drop_last() =~= views_of(parts@).take(i as int));
        assert(upto.last() == parts@[i as int]@);
        if i > 0 {
            out.append(sep);
        } else {
            assert(out@ + parts@[i as int]@ =~= parts@[i as int]@);
        }
        out.append(parts[i].as_str());
        i += 1;
    }
    assert(views_of(parts@).take(parts.len() as int) =~= views_of(parts@));
    out
}

/// The character of a decimal digit.
pub open spec fn digit_char(d: int) -> char {
    "0123456789"@[d]
}

/// A natural number in decimal, without leading zeros.
pub open spec fn decimal_digits(n: nat) -> Seq<char>
    decreases n,
{
    if n < 10 {
        seq![digit_char(n as int)]
    } else {
        decimal_digits(n / 10).push(digit_char((n % 10) as int))
    }
}

/// An integer in decimal, with `-` in front where it is negative.
pub open spec fn decimal_text(n: int) -> Seq<char> {
    if n < 0 {
        seq!['-'] + decimal_digits((-n) as nat)
    } else {
        decimal_digits(n as nat)
    }
}

/// The character of a decimal digit.
fn digit_of(d: u64) -> (c: char)
    requires
        d < 10,
    ensures
        c == digit_char(d as int),
{
    let digits: &str = "0123456789";
    proof {
        reveal_strlit("0123456789");
    }
    digits.get_char(d as usize)
}

/// Writes an integer in decimal.
pub fn decimal_string(n: i64) -> (out: String)
    ensures
        out@ == decimal_text(n as int),
{
    let negative: bool = n < 0;
    let magnitude: u64 = if negative {
        (-(n + 1)) as u64 + 1
    } else {
        n as u64
    };
    let mut rest: u64 = magnitude;
    let mut low: Vec<char> = Vec::new();
    assert(decimal_digits(rest as nat) + low@.reverse() =~= decimal_digits(magnitude as nat));
    while rest >= 10
        invariant
            decimal_digits(magnitude as nat) == decimal_digits(rest as nat) + low@.reverse(),
        decreases rest,
    {
        let ghost before = low@;
        let c: char = digit_of(rest % 10);
        low.push(c);
        assert(low@.reverse() =~= seq![c] + before.reverse());
        assert(decimal_digits(rest as nat) == decimal_digits((rest / 10) as nat).push(c));
        assert(decimal_digits((rest / 10) as nat).push(c) + before.reverse() =~= decimal_digits(
            (rest / 10) as nat,
        ) + (seq![c] + before.reverse()));
        rest = rest / 10;
    }
    let ghost before = low@;
    let c: char = digit_of(rest);
    low.push(c);
    assert(low@.reverse() =~= seq![c] + before.reverse());
    assert(decimal_digits(magnitude as nat) =~= low@.reverse());
    let mut out: Vec<char> = Vec::new();
    if negative {
        out.push('-');
    }
    let ghost sign = out@;
    let n_low: usize = low.len();
    let mut j: usize = 0;
    while j < n_low
        invariant
            j <= n_low,
            n_low == low@.len(),
            out@ == sign + low@.reverse().take(j as int),
        decreases n_low - j,
    {
        out.push(low[n_low - 1 - j]);
        j += 1;
        assert(low@.reverse().take(j as int) =~= low@.reverse().take(j - 1).push(
            low@[n_low - j],
        ));
        assert(out@ =~= sign + low@.reverse().take(j as int));
    }
    assert(low@.reverse().take(n_low as int) =~= low@.reverse());
    string_from_chars(&out)
}

/// The pieces of `s` between occurrences of `sep`. There is always at least
/// one piece; an empty string has one empty piece.
pub open spec fn split_on(s: Seq<char>, sep: char) -> Seq<Seq<char>>
    decreases s.len(),
{
    if s.len() == 0 {
        seq![Seq::<char>::empty()]
    } else {
        let before = split_on(s.drop_last(), sep);
        if s.last() == sep {
            before.push(Seq::<char>::empty())
        } else {
            before.drop_last().push(before.last().push(s.last()))
        }
    }
}

/// The character sequences that a list of character vectors holds.
pub open spec fn char_views(items: Seq<Vec<char>>) -> Seq<Seq<char>> {
    Seq::new(items.len(), |i: int| items[i]@)
}

/// Cuts `text` at every occurrence of `sep`.
pub fn split_chars(text: &Vec<char>, sep: char) -> (pieces: Vec<Vec<char>>)
    ensures
        char_views(pieces@) == split_on(text@, sep),
        pieces@.len() > 0,
{
    let n: usize = text.len();
    let mut done: Vec<Vec<char>> = Vec::new();
    let mut piece: Vec<char> = Vec::new();
    let mut i: usize = 0;
    assert(text@.take(0) =~= Seq::<char>::empty());
    assert(split_on(text@.take(0), sep).drop_last() =~= char_views(done@));
    while i < n
        invariant
            i <= n,
            n == text@.len(),
            split_on(text@.take(i as int), sep).len() > 0,
            piece@ == split_on(text@.take(i as int), sep).last(),
            char_views(done@) == split_on(text@.take(i as int), sep).drop_last(),
        decreases n - i,
    {
        let c: char = text[i];
        let ghost before = split_on(text@.take(i as int), sep);
        let ghost now = text@.take(i + 1);
        assert(now.drop_last() =~= text@.take(i as int));
        assert(now.last() == c);
        assert(before.drop_last().push(before.last()) =~= before);
        if c == sep {
            let ghost had = done@;
            done.push(piece);
            piece = Vec::new();
            assert(char_views(done@) =~= char_views(had).push(before.last()));
            assert(split_on(now, sep).drop_last() =~= before);
        } else {
            piece.push(c);
            assert(split_on(now, sep).drop_last() =~= before.drop_last());
        }
        i += 1;
    }
    assert(text@.take(n as int) =~= text@);
    let ghost all = split_on(text@, sep);
    let ghost had = done@;
    done.push(piece);
    assert(char_views(done@) =~= char_views(had).push(all.last()));
    assert(all.drop_last().push(all.last()) =~= all);
    done
}

} // verus!
