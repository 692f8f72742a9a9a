//! Natural ordering of file names.
//!
//! Runs of ASCII digits compare as integers, everything else compares
//! byte by byte without regard to ASCII case. `page2.jpg` comes before
//! `page10.jpg`, and `page02.jpg` ties with `page2.jpg`. Non-ASCII
//! characters compare by their UTF-8 bytes, which is consistent (if not
//! linguistically "correct") for Japanese.

use std::cmp::Ordering;
use vstd::prelude::*;
use vstd::slice::slice_subrange;

verus! {

/// One step of a name as natural order sees it: a single byte with its
/// ASCII case folded away, or a whole run of digits by its value.
pub enum Piece {
    Text(u8),
    Number(nat),
}

/// Is `b` one of the ASCII digits `0` to `9`?
pub open spec fn is_digit(b: u8) -> bool {
    0x30 <= b <= 0x39
}

/// `b` with an ASCII capital letter turned into its small form.
pub open spec fn lower_byte(b: u8) -> u8 {
    if 0x41 <= b <= 0x5a {
        (b + 0x20) as u8
    } else {
        b
    }
}

/// Number of digits that `s` starts with.
pub open spec fn digit_run(s: Seq<u8>) -> nat
    decreases s.len(),
{
    if s.len() == 0 || !is_digit(s[0]) {
        0
    } else {
        1 + digit_run(s.skip(1))
    }
}

/// Value of a run of digits, most significant digit first.
pub open spec fn decimal(s: Seq<u8>) -> nat
    decreases s.len(),
{
    if s.len() == 0 {
        0
    } else {
        decimal(s.drop_last()) * 10 + (s.last() - 0x30) as nat
    }
}

/// A name cut into its pieces.
pub open spec fn pieces(s: Seq<u8>) -> Seq<Piece>
    decreases s.len(),
    via pieces_decreases
{
    if s.len() == 0 {
        seq![]
    } else if is_digit(s[0]) {
        let n = digit_run(s) as int;
        seq![Piece::Number(decimal(s.take(n)))] + pieces(s.skip(n))
    } else {
        seq![Piece::Text(lower_byte(s[0]))] + pieces(s.skip(1))
    }
}

#[via_fn]
proof fn pieces_decreases(s: Seq<u8>) {
    lemma_digit_run(s);
}

/// Does piece `a` sort strictly before piece `b`? Numbers stand where
/// the digits stand among the bytes: behind every byte below `0` and
/// before every byte above `9`.
pub open spec fn piece_before(a: Piece, b: Piece) -> bool {
    match (a, b) {
        (Piece::Text(x), Piece::Text(y)) => x < y,
        (Piece::Number(m), Piece::Number(n)) => m < n,
        (Piece::Text(x), Piece::Number(_)) => x < 0x30,
        (Piece::Number(_), Piece::Text(y)) => y >= 0x30,
    }
}

/// Does the piece sequence `a` sort strictly before `b`? The first
/// differing piece decides; a proper prefix comes first.
pub open spec fn precedes(a: Seq<Piece>, b: Seq<Piece>) -> bool
    decreases a.len(),
{
    if b.len() == 0 {
        false
    } else if a.len() == 0 {
        true
    } else if a[0] == b[0] {
        precedes(a.skip(1), b.skip(1))
    } else {
        piece_before(a[0], b[0])
    }
}

/// Natural order on raw names: `a` strictly before `b`.
pub open spec fn natural_before(a: Seq<u8>, b: Seq<u8>) -> bool {
    precedes(pieces(a), pieces(b))
}

/// Natural order on raw names: neither comes before the other.
pub open spec fn natural_tie(a: Seq<u8>, b: Seq<u8>) -> bool {
    pieces(a) == pieces(b)
}

/// Number of `0` digits that `s` starts with.
pub open spec fn zero_run(s: Seq<u8>) -> nat
    decreases s.len(),
{
    if s.len() == 0 || s[0] != 0x30 {
        0
    } else {
        1 + zero_run(s.skip(1))
    }
}

spec fn pow10(n: nat) -> nat
    decreases n,
{
    if n == 0 {
        1
    } else {
        10 * pow10((n - 1) as nat)
    }
}

/// Does `s` hold digits only?
pub open spec fn all_digits(s: Seq<u8>) -> bool {
    forall|k: int| 0 <= k < s.len() ==> is_digit(#[trigger] s[k])
}

proof fn lemma_digit_run(s: Seq<u8>)
    ensures
        digit_run(s) <= s.len(),
        all_digits(s.take(digit_run(s) as int)),
        digit_run(s) < s.len() ==> !is_digit(s[digit_run(s) as int]),
        s.len() > 0 && is_digit(s[0]) ==> digit_run(s) >= 1,
    decreases s.len(),
{
    if s.len() > 0 && is_digit(s[0]) {
        let t = s.skip(1);
        lemma_digit_run(t);
        assert forall|k: int| 0 <= k < digit_run(s) implies is_digit(
            #[trigger] s.take(digit_run(s) as int)[k],
        ) by {
            if k > 0 {
                assert(t.take(digit_run(t) as int)[k - 1] == s[k]);
            }
        }
    }
}

/// A run is as long as the digits that can be seen and the byte that
/// ends it say.
proof fn lemma_digit_run_is(s: Seq<u8>, n: int)
    requires
        0 <= n <= s.len(),
        forall|k: int| 0 <= k < n ==> is_digit(#[trigger] s[k]),
        n < s.len() ==> !is_digit(s[n]),
    ensures
        digit_run(s) == n,
    decreases n,
{
    if n > 0 {
        let t = s.skip(1);
        assert forall|k: int| 0 <= k < n - 1 implies is_digit(#[trigger] t[k]) by {
            assert(t[k] == s[k + 1]);
        }
        lemma_digit_run_is(t, n - 1);
    }
}

proof fn lemma_zero_run(s: Seq<u8>)
    ensures
        zero_run(s) <= s.len(),
        forall|k: int| 0 <= k < zero_run(s) ==> #[trigger] s[k] == 0x30,
        zero_run(s) < s.len() ==> s[zero_run(s) as int] != 0x30,
    decreases s.len(),
{
    if s.len() > 0 && s[0] == 0x30 {
        let t = s.skip(1);
        lemma_zero_run(t);
        assert forall|k: int| 0 <= k < zero_run(s) implies #[trigger] s[k] == 0x30 by {
            if k > 0 {
                assert(t[k - 1] == s[k]);
            }
        }
    }
}

proof fn lemma_zero_run_is(s: Seq<u8>, n: int)
    requires
        0 <= n <= s.len(),
        forall|k: int| 0 <= k < n ==> #[trigger] s[k] == 0x30,
        n < s.len() ==> s[n] != 0x30,
    ensures
        zero_run(s) == n,
    decreases n,
{
    if n > 0 {
        let t = s.skip(1);
        assert forall|k: int| 0 <= k < n - 1 implies #[trigger] t[k] == 0x30 by {
            assert(t[k] == s[k + 1]);
        }
        lemma_zero_run_is(t, n - 1);
    }
}

proof fn lemma_decimal_concat(x: Seq<u8>, y: Seq<u8>)
    ensures
        decimal(x + y) == decimal(x) * pow10(y.len()) + decimal(y),
    decreases y.len(),
{
    if y.len() == 0 {
        assert(x + y =~= x);
        assert(pow10(y.len()) == 1);
        assert(decimal(x) * 1 == decimal(x)) by (nonlinear_arith);
    } else {
        let z = y.drop_last();
        lemma_decimal_concat(x, z);
        assert((x + y).drop_last() =~= x + z);
        assert((x + y).last() == y.last());
        let p = pow10(z.len());
        assert(pow10(y.len()) == 10 * p);
        let d = decimal(x);
        assert((d * p) * 10 == d * (10 * p)) by (nonlinear_arith);
    }
}

proof fn lemma_decimal_bound(s: Seq<u8>)
    requires
        all_digits(s),
    ensures
        decimal(s) < pow10(s.len()),
    decreases s.len(),
{
    if s.len() > 0 {
        let t = s.drop_last();
        assert forall|k: int| 0 <= k < t.len() implies is_digit(#[trigger] t[k]) by {
            assert(t[k] == s[k]);
        }
        lemma_decimal_bound(t);
        assert(is_digit(s[s.len() - 1]));
    }
}

proof fn lemma_decimal_zeros(s: Seq<u8>)
    requires
        forall|k: int| 0 <= k < s.len() ==> #[trigger] s[k] == 0x30,
    ensures
        decimal(s) == 0,
    decreases s.len(),
{
    if s.len() > 0 {
        let t = s.drop_last();
        assert forall|k: int| 0 <= k < t.len() implies #[trigger] t[k] == 0x30 by {
            assert(t[k] == s[k]);
        }
        lemma_decimal_zeros(t);
        assert(s[s.len() - 1] == 0x30);
    }
}

proof fn lemma_pow10_monotone(a: nat, b: nat)
    requires
        a <= b,
    ensures
        1 <= pow10(a) <= pow10(b),
    decreases b,
{
    if a < b {
        lemma_pow10_monotone(a, (b - 1) as nat);
    } else if a > 0 {
        lemma_pow10_monotone((a - 1) as nat, (a - 1) as nat);
    }
}

/// Without leading zeros, more digits make the greater number.
proof fn lemma_shorter_is_smaller(a: Seq<u8>, b: Seq<u8>)
    requires
        all_digits(a),
        all_digits(b),
        a.len() < b.len(),
        b[0] != 0x30,
    ensures
        decimal(a) < decimal(b),
{
    let head = b.take(1);
    let rest = b.skip(1);
    assert(b =~= head + rest);
    lemma_decimal_concat(head, rest);
    lemma_decimal_bound(a);
    lemma_pow10_monotone(a.len(), rest.len());
    assert(is_digit(b[0]));
    assert(head.drop_last() =~= Seq::<u8>::empty());
    assert(decimal(head.drop_last()) == 0);
    assert(head.last() == b[0]);
    let p = pow10(rest.len());
    let d = decimal(head);
    assert(d * p >= p) by (nonlinear_arith)
        requires
            d >= 1,
    ;
}

/// In numbers of one length, the first differing digit decides.
proof fn lemma_first_difference(a: Seq<u8>, b: Seq<u8>, k: int)
    requires
        all_digits(a),
        all_digits(b),
        a.len() == b.len(),
        0 <= k < a.len(),
        a.take(k) == b.take(k),
        a[k] < b[k],
    ensures
        decimal(a) < decimal(b),
{
    let ha = a.take(k + 1);
    let hb = b.take(k + 1);
    let ra = a.skip(k + 1);
    let rb = b.skip(k + 1);
    assert(a =~= ha + ra);
    assert(b =~= hb + rb);
    lemma_decimal_concat(ha, ra);
    lemma_decimal_concat(hb, rb);
    assert forall|i: int| 0 <= i < ra.len() implies is_digit(#[trigger] ra[i]) by {
        assert(ra[i] == a[k + 1 + i]);
    }
    lemma_decimal_bound(ra);
    assert(ha.drop_last() =~= a.take(k));
    assert(hb.drop_last() =~= b.take(k));
    assert(is_digit(a[k]) && is_digit(b[k]));
    let p = pow10(ra.len());
    let da = decimal(ha);
    let db = decimal(hb);
    assert(da + 1 <= db);
    assert(da * p + p <= db * p) by (nonlinear_arith)
        requires
            da + 1 <= db,
    ;
}

/// Which of two values comes first.
#[derive(Clone, Copy, PartialEq, Eq, Structural)]
enum Rank {
    First,
    Tie,
    Second,
}

/// `s` without the zeros that it starts with.
pub fn strip_leading_zeros(s: &[u8]) -> (r: &[u8])
    ensures
        r@ == s@.skip(zero_run(s@) as int),
{
    let mut start: usize = 0;
    while start < s.len() && s[start] == 0x30
        invariant
            start <= s.len(),
            forall|k: int| 0 <= k < start ==> #[trigger] s@[k] == 0x30,
        decreases s.len() - start,
    {
        start += 1;
    }
    proof {
        lemma_zero_run_is(s@, start as int);
    }
    slice_subrange(s, start, s.len())
}

/// Compares two runs of digits by value.
fn rank_numbers(a: &[u8], b: &[u8]) -> (r: Rank)
    requires
        all_digits(a@),
        all_digits(b@),
    ensures
        r == Rank::First <==> decimal(a@) < decimal(b@),
        r == Rank::Tie <==> decimal(a@) == decimal(b@),
{
    let x = strip_leading_zeros(a);
    let y = strip_leading_zeros(b);
    proof {
        lemma_stripped(a@);
        lemma_stripped(b@);
    }
    // After stripping zeros, the longer number has the bigger magnitude.
    if x.len() < y.len() {
        proof {
            lemma_shorter_is_smaller(x@, y@);
        }
        return Rank::First;
    }
    if x.len() > y.len() {
        proof {
            lemma_shorter_is_smaller(y@, x@);
        }
        return Rank::Second;
    }
    let mut k: usize = 0;
    while k < x.len()
        invariant
            k <= x.len(),
            x.len() == y.len(),
            all_digits(x@),
            all_digits(y@),
            decimal(a@) == decimal(x@),
            decimal(b@) == decimal(y@),
            x@.take(k as int) == y@.take(k as int),
        decreases x.len() - k,
    {
        if x[k] < y[k] {
            proof {
                lemma_first_difference(x@, y@, k as int);
            }
            return Rank::First;
        }
        if x[k] > y[k] {
            proof {
                lemma_first_difference(y@, x@, k as int);
            }
            return Rank::Second;
        }
        proof {
            assert(x@.take(k + 1) =~= x@.take(k as int).push(x@[k as int]));
            assert(y@.take(k + 1) =~= y@.take(k as int).push(y@[k as int]));
        }
        k += 1;
    }
    proof {
        assert(x@.take(k as int) =~= x@);
        assert(y@.take(k as int) =~= y@);
    }
    Rank::Tie
}

proof fn lemma_stripped(s: Seq<u8>)
    requires
        all_digits(s),
    ensures
        ({
            let t = s.skip(zero_run(s) as int);
            &&& all_digits(t)
            &&& decimal(t) == decimal(s)
            &&& t.len() > 0 ==> t[0] != 0x30
        }),
{
    lemma_zero_run(s);
    let n = zero_run(s) as int;
    let z = s.take(n);
    let t = s.skip(n);
    assert(s =~= z + t);
    lemma_decimal_concat(z, t);
    assert forall|k: int| 0 <= k < z.len() implies #[trigger] z[k] == 0x30 by {
        assert(z[k] == s[k]);
    }
    lemma_decimal_zeros(z);
    assert forall|k: int| 0 <= k < t.len() implies is_digit(#[trigger] t[k]) by {
        assert(t[k] == s[n + k]);
    }
}


proof fn lemma_precedes_same_head(p: Seq<Piece>, x: Seq<Piece>, y: Seq<Piece>)
    ensures
        precedes(p + x, p + y) == precedes(x, y),
    decreases p.len(),
{
    if p.len() == 0 {
        assert(p + x =~= x);
        assert(p + y =~= y);
    } else {
        let q = p.skip(1);
        lemma_precedes_same_head(q, x, y);
        assert((p + x).skip(1) =~= q + x);
        assert((p + y).skip(1) =~= q + y);
    }
}

proof fn lemma_precedes_trichotomy(x: Seq<Piece>, y: Seq<Piece>)
    ensures
        precedes(x, y) ==> x != y && !precedes(y, x),
        !precedes(x, y) && !precedes(y, x) ==> x == y,
    decreases x.len(),
{
    if x.len() == 0 && y.len() == 0 {
        assert(x =~= y);
    } else if x.len() > 0 && y.len() > 0 && x[0] == y[0] {
        lemma_precedes_trichotomy(x.skip(1), y.skip(1));
        assert(x =~= seq![x[0]] + x.skip(1));
        assert(y =~= seq![y[0]] + y.skip(1));
    }
}

proof fn lemma_precedes_transitive(x: Seq<Piece>, y: Seq<Piece>, z: Seq<Piece>)
    requires
        precedes(x, y),
        precedes(y, z),
    ensures
        precedes(x, z),
    decreases x.len(),
{
    if x.len() > 0 && x[0] == y[0] && y[0] == z[0] {
        lemma_precedes_transitive(x.skip(1), y.skip(1), z.skip(1));
    }
}

/// Cutting a name between two pieces cuts its piece sequence there too.
proof fn lemma_pieces_concat(p: Seq<u8>, t: Seq<u8>)
    requires
        p.len() == 0 || t.len() == 0 || !is_digit(p.last()) || !is_digit(t[0]),
    ensures
        pieces(p + t) == pieces(p) + pieces(t),
    decreases p.len(),
{
    let s = p + t;
    if p.len() == 0 {
        assert(s =~= t);
        assert(pieces(p) + pieces(t) =~= pieces(t));
    } else if is_digit(p[0]) {
        lemma_digit_run(p);
        let n = digit_run(p) as int;
        assert forall|k: int| 0 <= k < n implies is_digit(#[trigger] s[k]) by {
            assert(s[k] == p.take(n)[k]);
        }
        if n == p.len() {
            assert(p.take(n)[n - 1] == p.last());
        }
        lemma_digit_run_is(s, n);
        assert(s.take(n) =~= p.take(n));
        assert(s.skip(n) =~= p.skip(n) + t);
        if p.skip(n).len() > 0 {
            assert(p.skip(n).last() == p.last());
        }
        lemma_pieces_concat(p.skip(n), t);
        assert(pieces(s) =~= pieces(p) + pieces(t));
    } else {
        assert(s.skip(1) =~= p.skip(1) + t);
        if p.skip(1).len() > 0 {
            assert(p.skip(1).last() == p.last());
        }
        lemma_pieces_concat(p.skip(1), t);
        assert(pieces(s) =~= pieces(p) + pieces(t));
    }
}

/// A run of digits is a single number, whatever follows it.
proof fn lemma_pieces_of_run(d: Seq<u8>, t: Seq<u8>)
    requires
        d.len() > 0,
        all_digits(d),
        t.len() > 0 ==> !is_digit(t[0]),
    ensures
        pieces(d + t) == seq![Piece::Number(decimal(d))] + pieces(t),
{
    let s = d + t;
    let n = d.len() as int;
    assert forall|k: int| 0 <= k < n implies is_digit(#[trigger] s[k]) by {
        assert(s[k] == d[k]);
    }
    lemma_digit_run_is(s, n);
    assert(s.take(n) =~= d);
    assert(s.skip(n) =~= t);
    assert(is_digit(s[0]));
}

fn is_digit_byte(b: u8) -> (r: bool)
    ensures
        r == is_digit(b),
{
    0x30 <= b && b <= 0x39
}

fn to_lower_byte(b: u8) -> (r: u8)
    ensures
        r == lower_byte(b),
{
    if 0x41 <= b && b <= 0x5a {
        b + 0x20
    } else {
        b
    }
}

/// Index just past the run of digits that starts at `from`.
fn run_end(s: &[u8], from: usize) -> (end: usize)
    requires
        from < s.len(),
        is_digit(s@[from as int]),
    ensures
        from < end <= s.len(),
        end - from == digit_run(s@.skip(from as int)),
        all_digits(s@.subrange(from as int, end as int)),
{
    let mut end: usize = from;
    while end < s.len() && is_digit_byte(s[end])
        invariant
            from <= end <= s.len(),
            forall|k: int| from <= k < end ==> is_digit(#[trigger] s@[k]),
        decreases s.len() - end,
    {
        end += 1;
    }
    proof {
        let t = s@.skip(from as int);
        assert forall|k: int| 0 <= k < end - from implies is_digit(#[trigger] t[k]) by {
            assert(t[k] == s@[from + k]);
        }
        assert(end < s.len() ==> t[end - from] == s@[end as int]);
        lemma_digit_run_is(t, end - from);
        assert(t[0] == s@[from as int]);
    }
    end
}

/// The pieces from `from` on are the number that starts there and the
/// pieces behind it.
proof fn lemma_number_at(s: Seq<u8>, from: int, end: int)
    requires
        0 <= from < end <= s.len(),
        is_digit(s[from]),
        end - from == digit_run(s.skip(from)),
    ensures
        pieces(s.skip(from)) == seq![Piece::Number(decimal(s.subrange(from, end)))] + pieces(
            s.skip(end),
        ),
{
    let t = s.skip(from);
    assert(t[0] == s[from]);
    assert(t.take(end - from) =~= s.subrange(from, end));
    assert(t.skip(end - from) =~= s.skip(end));
}

/// The pieces from a non-digit on are that byte and the pieces behind it.
proof fn lemma_text_at(s: Seq<u8>, from: int)
    requires
        0 <= from < s.len(),
        !is_digit(s[from]),
    ensures
        pieces(s.skip(from)) == seq![Piece::Text(lower_byte(s[from]))] + pieces(s.skip(from + 1)),
{
    let t = s.skip(from);
    assert(t[0] == s[from]);
    assert(t.skip(1) =~= s.skip(from + 1));
}

proof fn lemma_first_piece_decides(p: Seq<Piece>, x: Piece, y: Piece, xs: Seq<Piece>, ys: Seq<Piece>)
    requires
        piece_before(x, y),
        x != y,
    ensures
        precedes(p + (seq![x] + xs), p + (seq![y] + ys)),
{
    lemma_precedes_same_head(p, seq![x] + xs, seq![y] + ys);
}

/// Compares two raw names in natural order.
fn rank_names(a: &[u8], b: &[u8]) -> (r: Rank)
    ensures
        r == Rank::First <==> natural_before(a@, b@),
        r == Rank::Tie <==> natural_tie(a@, b@),
        r == Rank::Second <==> natural_before(b@, a@),
{
    let mut i: usize = 0;
    let mut j: usize = 0;
    let ghost mut seen: Seq<Piece> = seq![];
    proof {
        lemma_precedes_trichotomy(pieces(a@), pieces(b@));
        lemma_precedes_trichotomy(pieces(b@), pieces(a@));
        assert(a@.skip(0) =~= a@);
        assert(b@.skip(0) =~= b@);
        assert(seen + pieces(a@) =~= pieces(a@));
        assert(seen + pieces(b@) =~= pieces(b@));
    }
    while i < a.len() && j < b.len()
        invariant
            i <= a.len(),
            j <= b.len(),
            pieces(a@) == seen + pieces(a@.skip(i as int)),
            pieces(b@) == seen + pieces(b@.skip(j as int)),
            natural_before(a@, b@) ==> !natural_tie(a@, b@) && !natural_before(b@, a@),
            natural_before(b@, a@) ==> !natural_tie(a@, b@),
        decreases a.len() - i,
    {
        let x: u8 = a[i];
        let y: u8 = b[j];
        if is_digit_byte(x) && is_digit_byte(y) {
            let i2: usize = run_end(a, i);
            let j2: usize = run_end(b, j);
            let m = slice_subrange(a, i, i2);
            let n = slice_subrange(b, j, j2);
            proof {
                lemma_number_at(a@, i as int, i2 as int);
                lemma_number_at(b@, j as int, j2 as int);
            }
            let ghost u = Piece::Number(decimal(m@));
            let ghost v = Piece::Number(decimal(n@));
            match rank_numbers(m, n) {
                Rank::First => {
                    proof {
                        lemma_first_piece_decides(
                            seen,
                            u,
                            v,
                            pieces(a@.skip(i2 as int)),
                            pieces(b@.skip(j2 as int)),
                        );
                    }
                    return Rank::First;
                },
                Rank::Second => {
                    proof {
                        lemma_first_piece_decides(
                            seen,
                            v,
                            u,
                            pieces(b@.skip(j2 as int)),
                            pieces(a@.skip(i2 as int)),
                        );
                    }
                    return Rank::Second;
                },
                Rank::Tie => {
                    proof {
                        let next = seen.push(u);
                        assert(seen + (seq![u] + pieces(a@.skip(i2 as int))) =~= next + pieces(
                            a@.skip(i2 as int),
                        ));
                        assert(seen + (seq![u] + pieces(b@.skip(j2 as int))) =~= next + pieces(
                            b@.skip(j2 as int),
                        ));
                        seen = next;
                    }
                    i = i2;
                    j = j2;
                },
            }
        } else {
            let xl: u8 = to_lower_byte(x);
            let yl: u8 = to_lower_byte(y);
            let ghost pa = pieces(a@.skip(i as int));
            let ghost pb = pieces(b@.skip(j as int));
            proof {
                lemma_head_of(a@, i as int);
                lemma_head_of(b@, j as int);
                if xl != yl {
                    if xl < yl {
                        lemma_first_piece_decides(seen, pa[0], pb[0], pa.skip(1), pb.skip(1));
                    } else {
                        lemma_first_piece_decides(seen, pb[0], pa[0], pb.skip(1), pa.skip(1));
                    }
                    assert(pa =~= seq![pa[0]] + pa.skip(1));
                    assert(pb =~= seq![pb[0]] + pb.skip(1));
                }
            }
            if xl < yl {
                return Rank::First;
            }
            if xl > yl {
                return Rank::Second;
            }
            proof {
                lemma_text_at(a@, i as int);
                lemma_text_at(b@, j as int);
                let u = Piece::Text(xl);
                let next = seen.push(u);
                assert(seen + (seq![u] + pieces(a@.skip(i + 1))) =~= next + pieces(a@.skip(i + 1)));
                assert(seen + (seq![u] + pieces(b@.skip(j + 1))) =~= next + pieces(b@.skip(j + 1)));
                seen = next;
            }
            i += 1;
            j += 1;
        }
    }
    proof {
        lemma_precedes_same_head(seen, pieces(a@.skip(i as int)), pieces(b@.skip(j as int)));
        lemma_precedes_same_head(seen, pieces(b@.skip(j as int)), pieces(a@.skip(i as int)));
        if i < a.len() {
            lemma_head_of(a@, i as int);
        }
        if j < b.len() {
            lemma_head_of(b@, j as int);
        }
    }
    // At most one of the names has anything left: the other is its prefix.
    if j < b.len() {
        Rank::First
    } else if i < a.len() {
        Rank::Second
    } else {
        Rank::Tie
    }
}

/// The first piece at `from` tells how the byte there compares.
proof fn lemma_head_of(s: Seq<u8>, from: int)
    requires
        0 <= from < s.len(),
    ensures
        pieces(s.skip(from)).len() > 0,
        is_digit(s[from]) ==> pieces(s.skip(from))[0] is Number,
        !is_digit(s[from]) ==> pieces(s.skip(from))[0] == Piece::Text(lower_byte(s[from])),
{
    assert(s.skip(from)[0] == s[from]);
}

/// Natural sort comparator. The first piece in which the two names
/// differ decides; a name that runs out of pieces first comes first.
pub fn natural_cmp(a: &str, b: &str) -> (order: Ordering)
    ensures
        order == Ordering::Less <==> natural_before(vstd::utf8::encode_utf8(a@), vstd::utf8::encode_utf8(b@)),
        order == Ordering::Equal <==> natural_tie(vstd::utf8::encode_utf8(a@), vstd::utf8::encode_utf8(b@)),
        order == Ordering::Greater <==> natural_before(vstd::utf8::encode_utf8(b@), vstd::utf8::encode_utf8(a@)),
{
    match rank_names(a.as_bytes(), b.as_bytes()) {
        Rank::First => Ordering::Less,
        Rank::Tie => Ordering::Equal,
        Rank::Second => Ordering::Greater,
    }
}


/// Of two names, exactly one comes first or they tie.
pub proof fn natural_order_is_total(a: Seq<u8>, b: Seq<u8>)
    ensures
        natural_before(a, b) || natural_tie(a, b) || natural_before(b, a),
        !(natural_before(a, b) && natural_tie(a, b)),
        !(natural_before(a, b) && natural_before(b, a)),
        !(natural_tie(a, b) && natural_before(b, a)),
{
    lemma_precedes_trichotomy(pieces(a), pieces(b));
    lemma_precedes_trichotomy(pieces(b), pieces(a));
}

/// Natural order is transitive, also through ties.
pub proof fn natural_order_is_transitive(a: Seq<u8>, b: Seq<u8>, c: Seq<u8>)
    ensures
        natural_before(a, b) && natural_before(b, c) ==> natural_before(a, c),
        natural_before(a, b) && natural_tie(b, c) ==> natural_before(a, c),
        natural_tie(a, b) && natural_before(b, c) ==> natural_before(a, c),
        natural_tie(a, b) && natural_tie(b, c) ==> natural_tie(a, c),
{
    if natural_before(a, b) && natural_before(b, c) {
        lemma_precedes_transitive(pieces(a), pieces(b), pieces(c));
    }
}

/// Names that differ in ASCII case only tie.
pub proof fn natural_order_ignores_case(s: Seq<u8>, t: Seq<u8>)
    requires
        s.len() == t.len(),
        forall|k: int| 0 <= k < s.len() ==> lower_byte(#[trigger] s[k]) == lower_byte(t[k]),
    ensures
        natural_tie(s, t),
    decreases s.len(),
{
    if s.len() > 0 {
        assert(lower_byte(s[0]) == lower_byte(t[0]));
        if is_digit(s[0]) {
            lemma_digit_run(s);
            let n = digit_run(s) as int;
            assert forall|k: int| 0 <= k < n implies is_digit(#[trigger] t[k]) && t[k] == s[k] by {
                assert(is_digit(s.take(n)[k]));
                assert(lower_byte(s[k]) == lower_byte(t[k]));
            }
            if n < s.len() {
                assert(lower_byte(s[n]) == lower_byte(t[n]));
            }
            lemma_digit_run_is(t, n);
            assert(s.take(n) =~= t.take(n));
            let u = s.skip(n);
            let v = t.skip(n);
            assert forall|k: int| 0 <= k < u.len() implies lower_byte(#[trigger] u[k]) == lower_byte(
                v[k],
            ) by {
                assert(lower_byte(s[n + k]) == lower_byte(t[n + k]));
            }
            natural_order_ignores_case(u, v);
        } else {
            let u = s.skip(1);
            let v = t.skip(1);
            assert forall|k: int| 0 <= k < u.len() implies lower_byte(#[trigger] u[k]) == lower_byte(
                v[k],
            ) by {
                assert(lower_byte(s[1 + k]) == lower_byte(t[1 + k]));
            }
            natural_order_ignores_case(u, v);
        }
    } else {
        assert(s =~= t);
    }
}

/// Zeros in front of a number do not matter.
pub proof fn natural_order_ignores_leading_zeros(
    before: Seq<u8>,
    zeros: Seq<u8>,
    number: Seq<u8>,
    after: Seq<u8>,
)
    requires
        before.len() > 0 ==> !is_digit(before.last()),
        forall|k: int| 0 <= k < zeros.len() ==> #[trigger] zeros[k] == 0x30,
        number.len() > 0,
        all_digits(number),
    ensures
        natural_tie(before + (zeros + (number + after)), before + (number + after)),
{
    let rest = number + after;
    assert(is_digit(number[0]));
    lemma_digit_run(rest);
    let n = digit_run(rest) as int;
    let d = rest.take(n);
    let t = rest.skip(n);
    assert(rest =~= d + t);
    assert(is_digit(rest[0]));
    lemma_pieces_of_run(d, t);
    let zd = zeros + d;
    assert forall|k: int| 0 <= k < zd.len() implies is_digit(#[trigger] zd[k]) by {
        if k >= zeros.len() {
            assert(zd[k] == d[k - zeros.len()]);
        }
    }
    lemma_pieces_of_run(zd, t);
    assert(zeros + rest =~= zd + t);
    lemma_decimal_concat(zeros, d);
    lemma_decimal_zeros(zeros);
    assert(0 * pow10(d.len()) == 0) by (nonlinear_arith);
    lemma_pieces_concat(before, zeros + rest);
    lemma_pieces_concat(before, rest);
}

/// Behind one and the same beginning, the smaller number comes
/// first, however many digits it is written with.
pub proof fn smaller_number_comes_first(
    before: Seq<u8>,
    m: Seq<u8>,
    after_m: Seq<u8>,
    n: Seq<u8>,
    after_n: Seq<u8>,
)
    requires
        before.len() > 0 ==> !is_digit(before.last()),
        m.len() > 0,
        n.len() > 0,
        all_digits(m),
        all_digits(n),
        after_m.len() > 0 ==> !is_digit(after_m[0]),
        after_n.len() > 0 ==> !is_digit(after_n[0]),
        decimal(m) < decimal(n),
    ensures
        natural_before(before + (m + after_m), before + (n + after_n)),
{
    lemma_pieces_of_run(m, after_m);
    lemma_pieces_of_run(n, after_n);
    lemma_pieces_concat(before, m + after_m);
    lemma_pieces_concat(before, n + after_n);
    lemma_first_piece_decides(
        pieces(before),
        Piece::Number(decimal(m)),
        Piece::Number(decimal(n)),
        pieces(after_m),
        pieces(after_n),
    );
}

/// Does `s` end in a number that is written with zeros alone?
pub open spec fn ends_in_zero(s: Seq<u8>) -> bool {
    exists|k: int|
        0 <= k < s.len() && #[trigger] zeros_from(s, k) && (k > 0 ==> !is_digit(s[k - 1]))
}

/// Does `s` hold nothing but the digit `0` from `k` on?
pub open spec fn zeros_from(s: Seq<u8>, k: int) -> bool {
    forall|i: int| k <= i < s.len() ==> #[trigger] s[i] == 0x30
}

/// A name comes before every longer name that starts with it,
/// save where all that the longer name adds is more zeros to a zero.
pub proof fn prefix_comes_first(s: Seq<u8>, added: Seq<u8>)
    requires
        added.len() > 0,
        !(ends_in_zero(s) && zeros_from(added, 0)),
    ensures
        natural_before(s, s + added),
{
    let k = lemma_last_run(s, s.len() as int);
    let head = s.take(k);
    let run = s.skip(k);
    assert(s =~= head + run);
    assert(s + added =~= head + (run + added));
    if k > 0 {
        assert(head.last() == s[k - 1]);
    }
    lemma_pieces_concat(head, run);
    lemma_pieces_concat(head, run + added);
    lemma_precedes_same_head(pieces(head), pieces(run), pieces(run + added));
    if run.len() == 0 {
        assert(run + added =~= added);
        lemma_head_of(added, 0);
        assert(added.skip(0) =~= added);
    } else {
        let none = Seq::<u8>::empty();
        lemma_pieces_of_run(run, none);
        assert(run + none =~= run);
        lemma_digit_run(added);
        let n = digit_run(added) as int;
        let more = added.take(n);
        let rest = added.skip(n);
        let longer = run + more;
        assert(run + added =~= longer + rest);
        assert forall|i: int| 0 <= i < longer.len() implies is_digit(#[trigger] longer[i]) by {
            if i >= run.len() {
                assert(longer[i] == more[i - run.len()]);
            }
        }
        lemma_pieces_of_run(longer, rest);
        lemma_decimal_concat(run, more);
        lemma_pow10_monotone(0, more.len());
        let r = decimal(run);
        let q = pow10(more.len());
        assert(r * q >= r) by (nonlinear_arith)
            requires
                q >= 1,
        ;
        assert(pieces(run) =~= seq![Piece::Number(r)]);
        assert(pieces(run + added)[0] == Piece::Number(decimal(longer)));
        if decimal(longer) == r {
            if rest.len() == 0 {
                assert(more.len() > 0);
                lemma_pow10_monotone(0, (more.len() - 1) as nat);
                assert(q >= 10);
                assert(r == 0) by (nonlinear_arith)
                    requires
                        r * q <= r,
                        q >= 10,
                        r >= 0,
                ;
                lemma_decimal_zero_means_zeros(run);
                lemma_decimal_zero_means_zeros(more);
                assert(more =~= added);
                assert forall|i: int| k <= i < s.len() implies #[trigger] s[i] == 0x30 by {
                    assert(run[i - k] == s[i]);
                }
                assert(zeros_from(s, k));
                assert(false);
            } else {
                lemma_head_of(rest, 0);
                assert(rest.skip(0) =~= rest);
                let whole = pieces(run + added);
                assert(whole.skip(1) =~= pieces(rest));
                assert(pieces(run).skip(1).len() == 0);
                assert(precedes(pieces(run).skip(1), whole.skip(1)));
            }
        } else {
            assert(piece_before(pieces(run)[0], pieces(run + added)[0]));
        }
        assert(precedes(pieces(run), pieces(run + added)));
    }
}

/// Index at which the digits begin that end right before `end`.
proof fn lemma_last_run(s: Seq<u8>, end: int) -> (k: int)
    requires
        0 <= end <= s.len(),
    ensures
        0 <= k <= end,
        all_digits(s.subrange(k, end)),
        k > 0 ==> !is_digit(s[k - 1]),
    decreases end,
{
    if end > 0 && is_digit(s[end - 1]) {
        let k = lemma_last_run(s, end - 1);
        assert forall|i: int| 0 <= i < end - k implies is_digit(#[trigger] s.subrange(k, end)[i]) by {
            if i < end - 1 - k {
                assert(s.subrange(k, end - 1)[i] == s[k + i]);
            }
        }
        k
    } else {
        end
    }
}

proof fn lemma_decimal_zero_means_zeros(s: Seq<u8>)
    requires
        all_digits(s),
        decimal(s) == 0,
    ensures
        zeros_from(s, 0),
    decreases s.len(),
{
    if s.len() > 0 {
        let t = s.drop_last();
        assert forall|k: int| 0 <= k < t.len() implies is_digit(#[trigger] t[k]) by {
            assert(t[k] == s[k]);
        }
        assert(is_digit(s[s.len() - 1]));
        lemma_decimal_zero_means_zeros(t);
        assert forall|i: int| 0 <= i < s.len() implies #[trigger] s[i] == 0x30 by {
            if i < t.len() {
                assert(t[i] == s[i]);
            }
        }
    }
}

/// A byte with the number of a capital letter raised to that of the small
/// one.
pub open spec fn folded(b: u8) -> int {
    if 65 <= b <= 90 {
        b + 32
    } else {
        b as int
    }
}

/// Where two names first differ in bytes that are no digits, the smaller
/// byte comes first, capitals counting as small letters, whatever stands
/// before and behind. Bytes that differ in case only make no difference.
pub proof fn first_different_byte_decides(
    before: Seq<u8>,
    x: u8,
    after_x: Seq<u8>,
    y: u8,
    after_y: Seq<u8>,
)
    requires
        !(48 <= x <= 57),
        !(48 <= y <= 57),
    ensures
        folded(x) < folded(y) ==> natural_before(
            before + (seq![x] + after_x),
            before + (seq![y] + after_y),
        ),
        folded(x) == folded(y) ==> natural_before(
            before + (seq![x] + after_x),
            before + (seq![y] + after_y),
        ) == natural_before(after_x, after_y),
        folded(x) == folded(y) && after_x == after_y ==> natural_tie(
            before + (seq![x] + after_x),
            before + (seq![y] + after_y),
        ),
{
    let a = seq![x] + after_x;
    let b = seq![y] + after_y;
    lemma_pieces_concat(before, a);
    lemma_pieces_concat(before, b);
    assert(a.skip(0) =~= a);
    assert(b.skip(0) =~= b);
    assert(a.skip(1) =~= after_x);
    assert(b.skip(1) =~= after_y);
    lemma_text_at(a, 0);
    lemma_text_at(b, 0);
    let u = Piece::Text(lower_byte(x));
    let v = Piece::Text(lower_byte(y));
    if folded(x) < folded(y) {
        lemma_first_piece_decides(pieces(before), u, v, pieces(after_x), pieces(after_y));
    } else if folded(x) == folded(y) {
        lemma_precedes_same_head(pieces(before), pieces(a), pieces(b));
        lemma_precedes_same_head(seq![u], pieces(after_x), pieces(after_y));
    }
}

/// Where one name has a number and the other one a byte that is no digit,
/// the number stands where digits stand among the bytes.
pub proof fn numbers_stand_among_the_bytes(
    before: Seq<u8>,
    digit: u8,
    after_digit: Seq<u8>,
    x: u8,
    after_x: Seq<u8>,
)
    requires
        before.len() > 0 ==> !(48 <= before.last() <= 57),
        48 <= digit <= 57,
        !(48 <= x <= 57),
    ensures
        x < 48 ==> natural_before(
            before + (seq![x] + after_x),
            before + (seq![digit] + after_digit),
        ),
        x > 57 ==> natural_before(
            before + (seq![digit] + after_digit),
            before + (seq![x] + after_x),
        ),
{
    let a = seq![digit] + after_digit;
    let b = seq![x] + after_x;
    lemma_pieces_concat(before, a);
    lemma_pieces_concat(before, b);
    assert(a.skip(0) =~= a);
    assert(b.skip(0) =~= b);
    lemma_head_of(a, 0);
    lemma_head_of(b, 0);
    let pa = pieces(a);
    let pb = pieces(b);
    assert(pa =~= seq![pa[0]] + pa.skip(1));
    assert(pb =~= seq![pb[0]] + pb.skip(1));
    if x < 48 {
        lemma_first_piece_decides(pieces(before), pb[0], pa[0], pb.skip(1), pa.skip(1));
    } else {
        lemma_first_piece_decides(pieces(before), pa[0], pb[0], pa.skip(1), pb.skip(1));
    }
}

/// Do these bytes hold digits only, and at least one?
pub open spec fn is_number(s: Seq<u8>) -> bool {
    s.len() > 0 && forall|k: int| 0 <= k < s.len() ==> 48 <= #[trigger] s[k] <= 57
}

/// Of two numbers, the one with fewer digits comes first unless the other
/// one starts with a zero; with equally many digits, the first different
/// digit decides. What follows on the numbers does not matter.
pub proof fn digits_decide_between_numbers(
    before: Seq<u8>,
    m: Seq<u8>,
    after_m: Seq<u8>,
    n: Seq<u8>,
    after_n: Seq<u8>,
    k: int,
)
    requires
        before.len() > 0 ==> !(48 <= before.last() <= 57),
        is_number(m),
        is_number(n),
        after_m.len() > 0 ==> !(48 <= after_m[0] <= 57),
        after_n.len() > 0 ==> !(48 <= after_n[0] <= 57),
        (m.len() < n.len() && n[0] != 48) || (m.len() == n.len() && 0 <= k < m.len() && m.take(k)
            == n.take(k) && m[k] < n[k]),
    ensures
        natural_before(before + (m + after_m), before + (n + after_n)),
{
    if m.len() < n.len() {
        lemma_shorter_is_smaller(m, n);
    } else {
        lemma_first_difference(m, n, k);
    }
    smaller_number_comes_first(before, m, after_m, n, after_n);
}

/// A name comes before itself with something put behind it, if what is
/// put there does not lengthen a number.
pub proof fn extended_name_comes_later(name: Seq<u8>, added: Seq<u8>)
    requires
        added.len() > 0,
        name.len() > 0 ==> !(48 <= name.last() <= 57) || !(48 <= added[0] <= 57),
    ensures
        natural_before(name, name + added),
        !natural_before(name + added, name),
        !natural_tie(name, name + added),
{
    lemma_pieces_concat(name, added);
    assert(added.skip(0) =~= added);
    lemma_head_of(added, 0);
    assert(pieces(name) + Seq::<Piece>::empty() =~= pieces(name));
    lemma_precedes_same_head(pieces(name), Seq::<Piece>::empty(), pieces(added));
    natural_order_is_total(name, name + added);
}

/// Stripping takes off all zeros in front and nothing else.
pub proof fn zeros_in_front_are_counted(zeros: Seq<u8>, rest: Seq<u8>)
    requires
        forall|k: int| 0 <= k < zeros.len() ==> #[trigger] zeros[k] == 48,
        rest.len() == 0 || rest[0] != 48,
    ensures
        (zeros + rest).skip(zero_run(zeros + rest) as int) == rest,
{
    let s = zeros + rest;
    assert forall|k: int| 0 <= k < zeros.len() implies #[trigger] s[k] == 0x30 by {
        assert(s[k] == zeros[k]);
    }
    lemma_zero_run_is(s, zeros.len() as int);
    assert(s.skip(zeros.len() as int) =~= rest);
}

/// A beginning that two names share makes no difference to their order,
/// unless it is cut in the middle of a number.
pub proof fn common_beginning_makes_no_difference(before: Seq<u8>, a: Seq<u8>, b: Seq<u8>)
    requires
        (before.len() > 0 ==> !(48 <= before.last() <= 57)) || ((a.len() > 0 ==> !(48 <= a[0]
            <= 57)) && (b.len() > 0 ==> !(48 <= b[0] <= 57))),
    ensures
        natural_before(before + a, before + b) == natural_before(a, b),
        natural_tie(a, b) ==> natural_tie(before + a, before + b),
{
    lemma_pieces_concat(before, a);
    lemma_pieces_concat(before, b);
    lemma_precedes_same_head(pieces(before), pieces(a), pieces(b));
}

/// Any number of zeros may be put in front of a number: the name ties with
/// the one without them.
pub proof fn zeros_in_front_make_no_difference(
    before: Seq<u8>,
    zeros: Seq<u8>,
    number: Seq<u8>,
    after: Seq<u8>,
)
    requires
        before.len() > 0 ==> !(48 <= before.last() <= 57),
        forall|k: int| 0 <= k < zeros.len() ==> #[trigger] zeros[k] == 48,
        is_number(number),
    ensures
        natural_tie(before + (zeros + (number + after)), before + (number + after)),
{
    natural_order_ignores_leading_zeros(before, zeros, number, after);
}

} // verus!
