//! The text of a per-status id store: proposal ids written as decimal numbers
//! joined by commas, read back by splitting on commas, trimming, dropping
//! empty pieces and parsing each piece as a `u64`.

use vstd::prelude::*;
use crate::decimal::{
    all_digits, decimal, digit_value, digits_value, is_digit, lemma_decimal_denotes,
    lemma_digits_value_prefix, lemma_digits_value_push,
};
use itertools::Itertools;


verus! {

broadcast use vstd::string::group_string_axioms;

/// The characters for which `char::is_whitespace` holds (Unicode `White_Space`).
pub open spec fn is_whitespace(c: char) -> bool {
    let x = c as int;
    ||| 9 <= x <= 13
    ||| x == 32
    ||| x == 0x85
    ||| x == 0xA0
    ||| x == 0x1680
    ||| 0x2000 <= x <= 0x200A
    ||| x == 0x2028
    ||| x == 0x2029
    ||| x == 0x202F
    ||| x == 0x205F
    ||| x == 0x3000
}

/// `s` without its leading whitespace.
pub open spec fn trim_start(s: Seq<char>) -> Seq<char>
    decreases s.len(),
{
    if s.len() > 0 && is_whitespace(s[0]) {
        trim_start(s.drop_first())
    } else {
        s
    }
}

/// `s` without its trailing whitespace.
pub open spec fn trim_end(s: Seq<char>) -> Seq<char>
    decreases s.len(),
{
    if s.len() > 0 && is_whitespace(s.last()) {
        trim_end(s.drop_last())
    } else {
        s
    }
}

/// `s` without leading and trailing whitespace, as `str::trim` gives it.
pub open spec fn trim(s: Seq<char>) -> Seq<char> {
    trim_end(trim_start(s))
}

/// The pieces of `s` between commas, as `str::split(",")` gives them: one more
/// piece than `s` has commas, empty pieces included.
pub open spec fn split_commas(s: Seq<char>) -> Seq<Seq<char>>
    decreases s.len(),
{
    if s.len() == 0 {
        seq![Seq::<char>::empty()]
    } else {
        let prev = split_commas(s.drop_last());
        if s.last() == ',' {
            prev.push(Seq::<char>::empty())
        } else {
            prev.update(prev.len() - 1, prev.last().push(s.last()))
        }
    }
}

/// The digits of a `u64` literal: the text without a leading `+`, if it has one.
pub open spec fn literal_digits(t: Seq<char>) -> Seq<char> {
    if t.len() > 0 && t[0] == '+' {
        t.drop_first()
    } else {
        t
    }
}

/// Whether `u64::from_str` accepts `t`: an optional `+`, then one or more ASCII
/// digits whose value fits in a `u64`.
pub open spec fn is_u64_literal(t: Seq<char>) -> bool {
    let d = literal_digits(t);
    &&& d.len() > 0
    &&& all_digits(d)
    &&& digits_value(d) <= u64::MAX
}

/// What one piece of a store's text contributes: `Some(None)` when it is empty
/// after trimming, `Some(Some(id))` when it trims to a `u64` literal, and `None`
/// when it trims to anything else, on which reading the store fails.
pub open spec fn piece_id(piece: Seq<char>) -> Option<Option<u64>> {
    let t = trim(piece);
    if t.len() == 0 {
        Some(None)
    } else if is_u64_literal(t) {
        Some(Some(digits_value(literal_digits(t)) as u64))
    } else {
        None
    }
}

/// The ids that a sequence of pieces holds, in order, or `None` if some piece
/// is neither blank nor a `u64` literal.
pub open spec fn ids_of_pieces(pieces: Seq<Seq<char>>) -> Option<Seq<u64>>
    decreases pieces.len(),
{
    if pieces.len() == 0 {
        Some(Seq::<u64>::empty())
    } else {
        match ids_of_pieces(pieces.drop_last()) {
            None => None,
            Some(prev) => match piece_id(pieces.last()) {
                None => None,
                Some(None) => Some(prev),
                Some(Some(id)) => Some(prev.push(id)),
            },
        }
    }
}

/// The ids that a store's text holds, or `None` when some comma-separated piece
/// is neither blank nor a `u64` literal.
pub open spec fn stored_ids(text: Seq<char>) -> Option<Seq<u64>> {
    ids_of_pieces(split_commas(text))
}

/// The text that stores `ids`: their decimal texts joined by `,`.
pub open spec fn join_ids(ids: Seq<u64>) -> Seq<char>
    decreases ids.len(),
{
    if ids.len() == 0 {
        Seq::<char>::empty()
    } else if ids.len() == 1 {
        decimal(ids[0] as nat)
    } else {
        join_ids(ids.drop_last()).push(',') + decimal(ids.last() as nat)
    }
}

/// The characters of `text`, in order.
pub fn chars_of(text: &str) -> (v: Vec<char>)
    ensures
        v@ == text@,
{
    let mut v: Vec<char> = Vec::new();
    for c in it: text.chars()
        invariant
            v@ == it.seq().take(it.index()),
            it.seq() == text@,
    {
        v.push(c);
    }
    v
}

/// Whether `c` is whitespace, as `char::is_whitespace` decides.
pub fn char_is_whitespace(c: char) -> (b: bool)
    ensures
        b == is_whitespace(c),
{
    let x = c as u32;
    (9 <= x && x <= 13) || x == 32 || x == 0x85 || x == 0xA0 || x == 0x1680 || (0x2000 <= x
        && x <= 0x200A) || x == 0x2028 || x == 0x2029 || x == 0x202F || x == 0x205F || x
        == 0x3000
}

/// Skipping leading whitespace one character at a time leaves `trim_start` unchanged.
proof fn lemma_trim_start_skip(s: Seq<char>, i: int)
    requires
        0 <= i <= s.len(),
        forall|j: int| 0 <= j < i ==> is_whitespace(#[trigger] s[j]),
    ensures
        trim_start(s) == trim_start(s.skip(i)),
    decreases i,
{
    if i > 0 {
        lemma_trim_start_skip(s.drop_first(), i - 1);
        assert(s.drop_first().skip(i - 1) =~= s.skip(i));
    } else {
        assert(s.skip(0) =~= s);
    }
}

/// Dropping trailing whitespace one character at a time leaves `trim_end` unchanged.
proof fn lemma_trim_end_take(s: Seq<char>, j: int)
    requires
        0 <= j <= s.len(),
        forall|k: int| j <= k < s.len() ==> is_whitespace(#[trigger] s[k]),
    ensures
        trim_end(s) == trim_end(s.take(j)),
    decreases s.len() - j,
{
    if j < s.len() {
        lemma_trim_end_take(s.drop_last(), j);
        assert(s.drop_last().take(j) =~= s.take(j));
    } else {
        assert(s.take(j) =~= s);
    }
}

/// The value of the ASCII digit `c`.
fn digit_of(c: char) -> (v: u64)
    requires
        is_digit(c),
    ensures
        v == digit_value(c),
        v <= 9,
{
    if c == '0' {
        0
    } else if c == '1' {
        1
    } else if c == '2' {
        2
    } else if c == '3' {
        3
    } else if c == '4' {
        4
    } else if c == '5' {
        5
    } else if c == '6' {
        6
    } else if c == '7' {
        7
    } else if c == '8' {
        8
    } else {
        9
    }
}

/// Parses the digits `chars[k..e]` into a `u64`, or `None` when one of them is
/// not a digit or their value does not fit.
fn parse_digits(chars: &Vec<char>, k: usize, e: usize) -> (r: Option<u64>)
    requires
        k <= e <= chars.len(),
    ensures
        ({
            let d = chars@.subrange(k as int, e as int);
            match r {
                Some(v) => all_digits(d) && digits_value(d) <= u64::MAX && v == digits_value(d),
                None => !(all_digits(d) && digits_value(d) <= u64::MAX),
            }
        }),
{
    let ghost d = chars@.subrange(k as int, e as int);
    let mut acc: u64 = 0;
    let mut i = k;
    while i < e
        invariant
            k <= i <= e <= chars.len(),
            d == chars@.subrange(k as int, e as int),
            all_digits(d.take(i - k)),
            acc == digits_value(d.take(i - k)),
        decreases e - i,
    {
        let c = chars[i];
        assert(c == d[i - k]);
        assert(d.take(i + 1 - k) =~= d.take(i - k).push(c));
        if c < '0' || c > '9' {
            assert(!is_digit(d[i - k]));
            return None;
        }
        let dv = digit_of(c);
        proof {
            lemma_digits_value_push(d.take(i - k), c);
        }
        if acc > (u64::MAX - dv) / 10 {
            proof {
                assert(acc * 10 + dv > u64::MAX) by (nonlinear_arith)
                    requires
                        acc > (u64::MAX - dv) / 10,
                        dv <= 9,
                ;
                lemma_digits_value_prefix(d, i + 1 - k);
            }
            return None;
        }
        assert(acc * 10 + dv <= u64::MAX) by (nonlinear_arith)
            requires
                acc <= (u64::MAX - dv) / 10,
                dv <= 9,
        ;
        acc = acc * 10 + dv;
        proof {
            assert(is_digit(c));
            assert forall|j: int| 0 <= j < i + 1 - k implies is_digit(#[trigger] d.take(i + 1 - k)[j]) by {
                if j < i - k {
                    assert(d.take(i + 1 - k)[j] == d.take(i - k)[j]);
                }
            }
        }
        i = i + 1;
    }
    assert(d.take(e - k) =~= d);
    Some(acc)
}

/// What the piece `chars[p..q]` contributes to the stored ids (see `piece_id`).
fn parse_piece(chars: &Vec<char>, p: usize, q: usize) -> (r: Option<Option<u64>>)
    requires
        p <= q <= chars.len(),
    ensures
        r == piece_id(chars@.subrange(p as int, q as int)),
{
    let ghost piece = chars@.subrange(p as int, q as int);
    let mut s = p;
    while s < q && char_is_whitespace(chars[s])
        invariant
            p <= s <= q <= chars.len(),
            forall|j: int| p <= j < s ==> is_whitespace(#[trigger] chars@[j]),
        decreases q - s,
    {
        s = s + 1;
    }
    proof {
        assert forall|j: int| 0 <= j < s - p implies is_whitespace(#[trigger] piece[j]) by {
            assert(piece[j] == chars@[p + j]);
        }
        lemma_trim_start_skip(piece, s - p);
        assert(piece.skip(s - p) =~= chars@.subrange(s as int, q as int));
    }
    let mut e = q;
    while e > s && char_is_whitespace(chars[e - 1])
        invariant
            p <= s <= e <= q <= chars.len(),
            forall|j: int| e <= j < q ==> is_whitespace(#[trigger] chars@[j]),
        decreases e - s,
    {
        e = e - 1;
    }
    let ghost rest = chars@.subrange(s as int, q as int);
    let ghost t = chars@.subrange(s as int, e as int);
    proof {
        assert(trim_start(rest) == rest);
        assert forall|j: int| e - s <= j < rest.len() implies is_whitespace(#[trigger] rest[j]) by {
            assert(rest[j] == chars@[s + j]);
        }
        lemma_trim_end_take(rest, e - s);
        assert(rest.take(e - s) =~= t);
        assert(trim_end(t) == t);
        assert(trim(piece) == t);
    }
    if s == e {
        return Some(None);
    }
    let mut k = s;
    if chars[s] == '+' {
        k = s + 1;
    }
    proof {
        assert(literal_digits(t) =~= chars@.subrange(k as int, e as int));
    }
    if k == e {
        return None;
    }
    match parse_digits(chars, k, e) {
        Some(v) => Some(Some(v)),
        None => None,
    }
}

/// Splitting one more character: a comma opens a new piece, any other
/// character extends the last one.
proof fn lemma_split_step(s: Seq<char>, i: int)
    requires
        0 <= i < s.len(),
    ensures
        split_commas(s.take(i + 1)) == (if s[i] == ',' {
            split_commas(s.take(i)).push(Seq::<char>::empty())
        } else {
            let prev = split_commas(s.take(i));
            prev.update(prev.len() - 1, prev.last().push(s[i]))
        }),
{
    assert(s.take(i + 1).drop_last() =~= s.take(i));
}

/// Splitting yields at least one piece.
proof fn lemma_split_nonempty(s: Seq<char>)
    ensures
        split_commas(s).len() >= 1,
    decreases s.len(),
{
    if s.len() > 0 {
        lemma_split_nonempty(s.drop_last());
    }
}

/// Pieces already closed by a comma stay pieces of every longer text.
proof fn lemma_split_prefix(s: Seq<char>, j: int)
    requires
        0 <= j <= s.len(),
    ensures
        split_commas(s.take(j)).len() <= split_commas(s).len(),
        forall|k: int|
            0 <= k < split_commas(s.take(j)).len() - 1 ==> #[trigger] split_commas(s)[k]
                == split_commas(s.take(j))[k],
    decreases s.len() - j,
{
    if j < s.len() {
        lemma_split_prefix(s, j + 1);
        lemma_split_step(s, j);
        lemma_split_nonempty(s.take(j));
    } else {
        assert(s.take(j) =~= s);
    }
}

/// Once some piece fails to read, no longer list of pieces reads.
proof fn lemma_ids_none_extends(ps: Seq<Seq<char>>, qs: Seq<Seq<char>>)
    requires
        ids_of_pieces(ps) is None,
        ps.len() <= qs.len(),
        forall|k: int| 0 <= k < ps.len() ==> #[trigger] qs[k] == ps[k],
    ensures
        ids_of_pieces(qs) is None,
    decreases qs.len(),
{
    if qs.len() == ps.len() {
        assert(qs =~= ps);
    } else {
        lemma_ids_none_extends(ps, qs.drop_last());
    }
}

/// The ids that `text` stores, or `None` when a comma-separated piece of it,
/// once trimmed, is neither empty nor a `u64` literal.
pub fn parse_stored_ids(text: &str) -> (r: Option<Vec<u64>>)
    ensures
        match stored_ids(text@) {
            Some(ids) => r is Some && r.unwrap()@ == ids,
            None => r is None,
        },
{
    let chars = chars_of(text);
    let n = chars.len();
    let mut acc: Vec<u64> = Vec::new();
    let mut p: usize = 0;
    let mut i: usize = 0;
    proof {
        assert(chars@.take(0) =~= Seq::<char>::empty());
        assert(chars@.subrange(0, 0) =~= Seq::<char>::empty());
    }
    while i < n
        invariant
            n == chars.len(),
            chars@ == text@,
            p <= i <= n,
            split_commas(chars@.take(i as int)).len() >= 1,
            split_commas(chars@.take(i as int)).last() == chars@.subrange(p as int, i as int),
            ids_of_pieces(split_commas(chars@.take(i as int)).drop_last()) == Some(acc@),
        decreases n - i,
    {
        let ghost prev = split_commas(chars@.take(i as int));
        proof {
            lemma_split_step(chars@, i as int);
        }
        if chars[i] == ',' {
            let r = parse_piece(&chars, p, i);
            proof {
                let next = split_commas(chars@.take(i + 1));
                assert(next.drop_last() =~= prev);
            }
            match r {
                None => {
                    proof {
                        assert(ids_of_pieces(prev) is None);
                        lemma_split_prefix(chars@, i + 1);
                        assert(chars@ =~= text@);
                        lemma_ids_none_extends(prev, split_commas(chars@));
                    }
                    return None;
                },
                Some(None) => {},
                Some(Some(v)) => {
                    acc.push(v);
                },
            }
            p = i + 1;
            i = i + 1;
            proof {
                assert(chars@.subrange(p as int, i as int) =~= Seq::<char>::empty());
            }
        } else {
            proof {
                let next = split_commas(chars@.take(i + 1));
                assert(next.drop_last() =~= prev.drop_last());
                assert(chars@.subrange(p as int, i + 1) =~= chars@.subrange(p as int, i as int).push(chars@[i as int]));
            }
            i = i + 1;
        }
    }
    assert(chars@.take(n as int) =~= chars@);
    let r = parse_piece(&chars, p, n);
    match r {
        None => None,
        Some(None) => Some(acc),
        Some(Some(v)) => {
            acc.push(v);
            Some(acc)
        },
    }
}

/// The text of a store holding `ids`; wraps `itertools::Itertools::join` with
/// separator `","` over the ids' `Display` texts. Claimed of it: the result is
/// the decimal text of each id, in order, with one comma between neighbours,
/// which is what `join` writes (first element, then separator and element for
/// each further one) given that `Display` for `u64` writes `decimal`.
#[verifier::external_body]
fn join_with_commas(ids: &Vec<u64>) -> (s: String)
    ensures
        s@ == join_ids(ids@),
{
    ids.iter().join(",")
}

/// The text that stores `ids`: their decimal texts joined by commas.
pub fn store_text(ids: &Vec<u64>) -> (s: String)
    ensures
        s@ == join_ids(ids@),
{
    join_with_commas(ids)
}

/// Splitting `x + y`, where `y` holds no comma, extends the last piece of `x` by `y`.
proof fn lemma_split_append_plain(x: Seq<char>, y: Seq<char>)
    requires
        forall|i: int| 0 <= i < y.len() ==> #[trigger] y[i] != ',',
    ensures
        split_commas(x + y) == split_commas(x).update(
            split_commas(x).len() - 1,
            split_commas(x).last() + y,
        ),
    decreases y.len(),
{
    lemma_split_nonempty(x);
    if y.len() == 0 {
        assert(x + y =~= x);
        assert(split_commas(x).last() + y =~= split_commas(x).last());
        assert(split_commas(x).update(split_commas(x).len() - 1, split_commas(x).last())
            =~= split_commas(x));
    } else {
        let yd = y.drop_last();
        lemma_split_append_plain(x, yd);
        assert((x + y).drop_last() =~= x + yd);
        assert((x + y).last() == y.last());
        assert(split_commas(x).last() + yd + seq![y.last()] =~= split_commas(x).last() + y);
        let p = split_commas(x + yd);
        assert(p.last() =~= split_commas(x).last() + yd);
        assert(p.last().push(y.last()) =~= split_commas(x).last() + y);
        assert(split_commas(x + y) =~= split_commas(x).update(
            split_commas(x).len() - 1,
            split_commas(x).last() + y,
        ));
    }
}

/// The decimal text of a number holds no comma and no whitespace, and reads back as it.
proof fn lemma_decimal_piece(n: u64)
    ensures
        forall|i: int| 0 <= i < decimal(n as nat).len() ==> #[trigger] decimal(n as nat)[i] != ',',
        piece_id(decimal(n as nat)) == Some(Some(n)),
{
    let d = decimal(n as nat);
    lemma_decimal_denotes(n as nat);
    assert(is_digit(d[0]));
    assert(is_digit(d.last()));
    assert(trim_start(d) == d);
    assert(trim_end(d) == d);
    assert(literal_digits(d) == d);
    assert forall|i: int| 0 <= i < d.len() implies #[trigger] d[i] != ',' by {
        assert(is_digit(d[i]));
    }
}

/// The pieces of a store's text are the decimal texts of its ids.
proof fn lemma_split_join(ids: Seq<u64>)
    requires
        ids.len() >= 1,
    ensures
        split_commas(join_ids(ids)) == ids.map_values(|n: u64| decimal(n as nat)),
    decreases ids.len(),
{
    if ids.len() == 1 {
        lemma_decimal_piece(ids[0]);
        lemma_split_append_plain(Seq::<char>::empty(), decimal(ids[0] as nat));
        assert(Seq::<char>::empty() + decimal(ids[0] as nat) =~= decimal(ids[0] as nat));
        assert(split_commas(Seq::<char>::empty()) =~= seq![Seq::<char>::empty()]);
        assert(split_commas(join_ids(ids)) =~= ids.map_values(|n: u64| decimal(n as nat)));
    } else {
        let dl = ids.drop_last();
        lemma_split_join(dl);
        lemma_decimal_piece(ids.last());
        let x = join_ids(dl).push(',');
        lemma_split_append_plain(x, decimal(ids.last() as nat));
        assert(x.drop_last() =~= join_ids(dl));
        assert(split_commas(x) =~= split_commas(join_ids(dl)).push(Seq::<char>::empty()));
        assert(Seq::<char>::empty() + decimal(ids.last() as nat) =~= decimal(ids.last() as nat));
        assert(split_commas(join_ids(ids)) =~= ids.map_values(|n: u64| decimal(n as nat)));
    }
}

/// Pieces that are decimal texts read back as the numbers they denote.
proof fn lemma_ids_of_decimals(ids: Seq<u64>)
    ensures
        ids_of_pieces(ids.map_values(|n: u64| decimal(n as nat))) == Some(ids),
    decreases ids.len(),
{
    let ps = ids.map_values(|n: u64| decimal(n as nat));
    if ids.len() > 0 {
        lemma_ids_of_decimals(ids.drop_last());
        assert(ps.drop_last() =~= ids.drop_last().map_values(|n: u64| decimal(n as nat)));
        lemma_decimal_piece(ids.last());
        assert(ids.drop_last().push(ids.last()) =~= ids);
    } else {
        assert(ids =~= Seq::<u64>::empty());
    }
}

/// Reading a store gives back exactly the ids that were written to it, in
/// order: `stored_ids(join_ids(ids)) == Some(ids)` for every list of ids.
pub proof fn lemma_store_round_trip(ids: Seq<u64>)
    ensures
        stored_ids(join_ids(ids)) == Some(ids),
{
    if ids.len() == 0 {
        assert(split_commas(join_ids(ids)) =~= seq![Seq::<char>::empty()]);
        assert(trim_start(Seq::<char>::empty()) == Seq::<char>::empty());
        assert(trim_end(Seq::<char>::empty()) == Seq::<char>::empty());
        assert(seq![Seq::<char>::empty()].drop_last() =~= Seq::<Seq<char>>::empty());
        assert(ids_of_pieces(Seq::<Seq<char>>::empty()) == Some(Seq::<u64>::empty()));
        assert(piece_id(Seq::<char>::empty()) == Some(None::<u64>));
        assert(ids =~= Seq::<u64>::empty());
    } else {
        lemma_split_join(ids);
        lemma_ids_of_decimals(ids);
    }
}

} // verus!
