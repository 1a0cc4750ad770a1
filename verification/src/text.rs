//! Helpers for building generated source text.
use vstd::prelude::*;

verus! {

/// The character sequences of a list of strings.
pub open spec fn views(v: Seq<String>) -> Seq<Seq<char>> {
    v.map_values(|s: String| s@)
}

/// The character sequence of an optional string.
pub open spec fn opt_view(o: Option<String>) -> Option<Seq<char>> {
    match o {
        Some(s) => Some(s@),
        None => None,
    }
}

/// An optional piece of text as a list of zero or one pieces.
pub open spec fn opt_seq(o: Option<Seq<char>>) -> Seq<Seq<char>> {
    match o {
        Some(s) => seq![s],
        None => Seq::empty(),
    }
}

/// The pieces concatenated in order, each one followed by a single space.
pub open spec fn spaced(pieces: Seq<Seq<char>>) -> Seq<char>
    decreases pieces.len(),
{
    if pieces.len() == 0 {
        Seq::empty()
    } else {
        spaced(pieces.drop_last()) + pieces.last() + seq![' ']
    }
}

/// Where the piece at index `i` starts in `spaced(pieces)`.
pub open spec fn spaced_start(pieces: Seq<Seq<char>>, i: int) -> int {
    spaced(pieces.take(i)).len() as int
}

/// `spaced` of two lists of pieces one after the other is the `spaced` of
/// each, one after the other.
pub proof fn lemma_spaced_concat(a: Seq<Seq<char>>, b: Seq<Seq<char>>)
    ensures
        spaced(a + b) == spaced(a) + spaced(b),
    decreases b.len(),
{
    if b.len() == 0 {
        assert(a + b =~= a);
        assert(spaced(a) + spaced(b) =~= spaced(a));
    } else {
        lemma_spaced_concat(a, b.drop_last());
        assert((a + b).drop_last() =~= a + b.drop_last());
        assert((a + b).last() == b.last());
        assert(spaced(a + b) =~= spaced(a) + spaced(b));
    }
}

/// In `spaced(pieces)`, each piece stands at its start, followed by a space,
/// and the next piece starts right after that space.
pub proof fn lemma_spaced_piece(pieces: Seq<Seq<char>>, i: int)
    requires
        0 <= i < pieces.len(),
    ensures
        0 <= spaced_start(pieces, i),
        spaced_start(pieces, i) + pieces[i].len() + 1 <= spaced(pieces).len(),
        spaced(pieces).subrange(
            spaced_start(pieces, i),
            spaced_start(pieces, i) + pieces[i].len() + 1,
        ) == pieces[i] + seq![' '],
        spaced_start(pieces, i + 1) == spaced_start(pieces, i) + pieces[i].len() + 1,
{
    let head = pieces.take(i);
    let upto = pieces.take(i + 1);
    assert(upto.drop_last() =~= head);
    assert(upto.last() == pieces[i]);
    assert(spaced(upto) == spaced(head) + pieces[i] + seq![' ']);
    assert(pieces =~= upto + pieces.skip(i + 1));
    lemma_spaced_concat(upto, pieces.skip(i + 1));
    let whole = spaced(pieces);
    let st = spaced(head).len() as int;
    assert(whole.subrange(st, st + pieces[i].len() + 1) =~= pieces[i] + seq![' ']) by {
        assert forall|k: int| 0 <= k < pieces[i].len() + 1 implies whole.subrange(
            st,
            st + pieces[i].len() + 1,
        )[k] == (pieces[i] + seq![' '])[k] by {
            assert(whole[st + k] == spaced(upto)[st + k]);
        }
    }
}

/// Appends every string of `pieces` to `out`, each followed by a single space.
pub fn push_spaced(out: &mut String, pieces: &Vec<String>)
    ensures
        final(out)@ == old(out)@ + spaced(views(pieces@)),
{
    let ghost start = out@;
    let mut i: usize = 0;
    while i < pieces.len()
        invariant
            i <= pieces.len(),
            out@ == start + spaced(views(pieces@).take(i as int)),
        decreases pieces.len() - i,
    {
        out.append(pieces[i].as_str());
        out.append(" ");
        proof {
            reveal_strlit(" ");
            assert(views(pieces@).take(i + 1).drop_last() =~= views(pieces@).take(i as int));
        }
        i += 1;
    }
    assert(views(pieces@).take(pieces.len() as int) =~= views(pieces@));
}

/// Appends each string of `pieces` to `out`, each followed by a single space.
pub fn push_spaced_strs(out: &mut String, pieces: &Vec<&str>)
    ensures
        final(out)@ == old(out)@ + spaced(pieces@.map_values(|s: &str| s@)),
{
    let ghost start = out@;
    let ghost vs = pieces@.map_values(|s: &str| s@);
    let mut i: usize = 0;
    while i < pieces.len()
        invariant
            i <= pieces.len(),
            vs == pieces@.map_values(|s: &str| s@),
            out@ == start + spaced(vs.take(i as int)),
        decreases pieces.len() - i,
    {
        out.append(pieces[i]);
        out.append(" ");
        proof {
            reveal_strlit(" ");
            assert(vs.take(i + 1).drop_last() =~= vs.take(i as int));
        }
        i += 1;
    }
    assert(vs.take(pieces.len() as int) =~= vs);
}

/// Whether `s` begins with `prefix`.
pub fn has_prefix(s: &str, prefix: &str) -> (res: bool)
    ensures
        res == prefix@.is_prefix_of(s@),
{
    let n = prefix.unicode_len();
    let m = s.unicode_len();
    if n > m {
        return false;
    }
    let mut i: usize = 0;
    while i < n
        invariant
            i <= n,
            n == prefix@.len(),
            n <= m,
            m == s@.len(),
            forall|j: int| 0 <= j < i ==> s@[j] == prefix@[j],
        decreases n - i,
    {
        if s.get_char(i) != prefix.get_char(i) {
            return false;
        }
        i += 1;
    }
    assert(prefix@ =~= s@.subrange(0, prefix@.len() as int));
    true
}

/// Whether `name` is one of the strings in `names`.
pub fn contains_name(names: &Vec<String>, name: &String) -> (res: bool)
    ensures
        res == views(names@).contains(name@),
{
    let mut i: usize = 0;
    while i < names.len()
        invariant
            i <= names.len(),
            forall|j: int| 0 <= j < i ==> names@[j]@ != name@,
        decreases names.len() - i,
    {
        if names[i] == *name {
            assert(views(names@)[i as int] == name@);
            return true;
        }
        i += 1;
    }
    assert(!views(names@).contains(name@)) by {
        if views(names@).contains(name@) {
            let k = choose|k: int| 0 <= k < views(names@).len() && views(names@)[k] == name@;
            assert(names@[k]@ == name@);
        }
    }
    false
}

/// The decimal digit `d` as text.
pub open spec fn digit_text(d: nat) -> Seq<char> {
    "0123456789"@.subrange(d as int, d + 1 as int)
}

/// The decimal notation of `n`, without leading zeros.
pub open spec fn decimal(n: nat) -> Seq<char>
    decreases n,
{
    if n < 10 {
        digit_text(n)
    } else {
        decimal(n / 10) + digit_text(n % 10)
    }
}

/// The number that the decimal digits `s` stand for.
pub open spec fn decimal_value(s: Seq<char>) -> int
    decreases s.len(),
{
    if s.len() == 0 {
        0
    } else {
        decimal_value(s.drop_last()) * 10 + (s.last() as int - '0' as int)
    }
}

/// The digit text of `d` is the one character that stands for `d`.
proof fn lemma_digit_text(d: nat)
    requires
        d < 10,
    ensures
        digit_text(d).len() == 1,
        digit_text(d)[0] as int == '0' as int + d,
{
    reveal_strlit("0123456789");
    assert(digit_text(d)[0] == "0123456789"@[d as int]);
    if d == 0 {
    } else if d == 1 {
    } else if d == 2 {
    } else if d == 3 {
    } else if d == 4 {
    } else if d == 5 {
    } else if d == 6 {
    } else if d == 7 {
    } else if d == 8 {
    } else {
    }
}

/// The decimal notation of `n` is made of decimal digits, starts with `0`
/// only when `n` is zero, and reads back as `n`.
pub proof fn decimal_reads_back(n: nat)
    ensures
        decimal(n).len() >= 1,
        forall|i: int| 0 <= i < decimal(n).len() ==> '0' <= #[trigger] decimal(n)[i] <= '9',
        decimal(n)[0] == '0' ==> n == 0,
        decimal_value(decimal(n)) == n,
    decreases n,
{
    if n < 10 {
        lemma_digit_text(n);
        assert(decimal(n).drop_last().len() == 0);
        assert(decimal_value(decimal(n).drop_last()) == 0);
    } else {
        let hi = decimal(n / 10);
        let lo = digit_text(n % 10);
        decimal_reads_back(n / 10);
        lemma_digit_text(n % 10);
        assert(decimal(n) == hi + lo);
        assert((hi + lo).drop_last() =~= hi);
        assert((hi + lo).last() == lo[0]);
        assert(n == (n / 10) * 10 + n % 10);
        assert forall|i: int| 0 <= i < decimal(n).len() implies '0' <= #[trigger] decimal(n)[i]
            <= '9' by {
            if i < hi.len() {
                assert(decimal(n)[i] == hi[i]);
            } else {
                assert(decimal(n)[i] == lo[0]);
            }
        }
        assert(decimal(n)[0] == hi[0]);
    }
}

/// Appends the decimal digit `d` to `out`.
fn push_digit(out: &mut String, d: u8)
    requires
        d < 10,
    ensures
        final(out)@ == old(out)@ + digit_text(d as nat),
{
    let digits = "0123456789";
    proof {
        reveal_strlit("0123456789");
    }
    out.append(digits.substring_char(d as usize, d as usize + 1));
}

/// Appends the decimal notation of `n` to `out`.
pub fn push_decimal(out: &mut String, n: u8)
    ensures
        final(out)@ == old(out)@ + decimal(n as nat),
{
    let ghost start = out@;
    proof {
        reveal_with_fuel(decimal, 3);
    }
    if n >= 100 {
        push_digit(out, n / 100);
        push_digit(out, (n / 10) % 10);
        push_digit(out, n % 10);
        assert(decimal(n as nat) == decimal((n / 100) as nat) + digit_text(((n / 10) % 10) as nat)
            + digit_text((n % 10) as nat));
    } else if n >= 10 {
        push_digit(out, n / 10);
        push_digit(out, n % 10);
    } else {
        push_digit(out, n);
    }
    assert(out@ =~= start + decimal(n as nat));
}

} // verus!
