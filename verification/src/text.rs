use vstd::prelude::*;
use vstd::std_specs::iter::IteratorSpec;

verus! {

/// The character of a decimal digit.
pub open spec fn digit_char(d: nat) -> char {
    ((d + 48) as u32) as char
}

/// Decimal rendering of a natural number, most significant digit first,
/// without leading zeros (zero itself is "0").
pub open spec fn decimal(n: nat) -> Seq<char>
    decreases n,
{
    if n < 10 {
        seq![digit_char(n)]
    } else {
        decimal(n / 10).push(digit_char(n % 10))
    }
}

fn digit(d: u64) -> (c: char)
    requires
        d < 10,
    ensures
        c == digit_char(d as nat),
{
    ((d as u8) + 48u8) as char
}

/// Appends the decimal rendering of `n` to `out`.
pub fn push_decimal(out: &mut String, n: u64)
    ensures
        final(out)@ == old(out)@ + decimal(n as nat),
    decreases n,
{
    if n >= 10 {
        push_decimal(out, n / 10);
    }
    out.push(digit(n % 10));
}

/// Ten to the power `d`.
pub open spec fn pow10(d: nat) -> nat
    decreases d,
{
    if d == 0 {
        1
    } else {
        10 * pow10((d - 1) as nat)
    }
}

/// Two to the power `k`.
pub open spec fn pow2(k: nat) -> nat
    decreases k,
{
    if k == 0 {
        1
    } else {
        2 * pow2((k - 1) as nat)
    }
}

/// The last `d` decimal digits of `f`, zero-padded on the left to width `d`.
pub open spec fn fraction_digits(f: nat, d: nat) -> Seq<char>
    decreases d,
{
    if d == 0 {
        seq![]
    } else {
        fraction_digits(f / 10, (d - 1) as nat).push(digit_char(f % 10))
    }
}

/// The number `v / 10^d` written with exactly `d` digits after the point
/// (no point at all when `d` is zero).
pub open spec fn fixed_point(v: nat, d: nat) -> Seq<char> {
    if d == 0 {
        decimal(v)
    } else {
        decimal(v / pow10(d)) + seq!['.'] + fraction_digits(v % pow10(d), d)
    }
}

/// `n / m` rounded to the nearest integer, ties to the even neighbour.
pub open spec fn round_half_even(n: nat, m: nat) -> nat
    recommends
        m > 0,
{
    let q = n / m;
    let r = n % m;
    if 2 * r > m || (2 * r == m && q % 2 == 1) {
        q + 1
    } else {
        q
    }
}

/// How many low bits a double-precision float drops when it holds `n`:
/// zero below 2^53, one more for each further doubling.
pub open spec fn dropped_bits(n: nat) -> nat
    decreases n,
{
    if n < 0x20_0000_0000_0000 {
        0
    } else {
        1 + dropped_bits(n / 2)
    }
}

/// The value of the double-precision float nearest to the integer `n`
/// (round to nearest, ties to even), which is again an integer.
pub open spec fn nearest_double(n: nat) -> nat {
    let k = dropped_bits(n);
    round_half_even(n, pow2(k)) * pow2(k)
}

fn digit_u128(d: u128) -> (c: char)
    requires
        d < 10,
    ensures
        c == digit_char(d as nat),
{
    ((d as u8) + 48u8) as char
}

/// Appends the decimal rendering of `n` to `out`.
pub fn push_decimal_wide(out: &mut String, n: u128)
    ensures
        final(out)@ == old(out)@ + decimal(n as nat),
    decreases n,
{
    if n >= 10 {
        push_decimal_wide(out, n / 10);
    }
    out.push(digit_u128(n % 10));
}

fn push_fraction_digits(out: &mut String, f: u128, d: u32)
    ensures
        final(out)@ == old(out)@ + fraction_digits(f as nat, d as nat),
    decreases d,
{
    if d > 0 {
        push_fraction_digits(out, f / 10, d - 1);
        out.push(digit_u128(f % 10));
    }
}

fn pow10_exec(d: u32) -> (r: u128)
    requires
        d <= 9,
    ensures
        r == pow10(d as nat),
    decreases d,
{
    if d == 0 {
        1
    } else {
        let p = pow10_exec(d - 1);
        proof {
            lemma_pow10_bound((d - 1) as nat);
        }
        10 * p
    }
}

proof fn lemma_pow10_bound(d: nat)
    requires
        d <= 9,
    ensures
        1 <= pow10(d) <= 1_000_000_000,
    decreases 9 - d,
{
    if d < 9 {
        lemma_pow10_bound(d + 1);
    } else {
        reveal_with_fuel(pow10, 10);
    }
}

/// Appends `v / 10^d` written with exactly `d` digits after the point.
pub fn push_fixed_point(out: &mut String, v: u128, d: u32)
    requires
        d <= 9,
    ensures
        final(out)@ == old(out)@ + fixed_point(v as nat, d as nat),
{
    if d == 0 {
        push_decimal_wide(out, v);
    } else {
        let p = pow10_exec(d);
        proof {
            lemma_pow10_bound(d as nat);
        }
        push_decimal_wide(out, v / p);
        out.push('.');
        push_fraction_digits(out, v % p, d);
        assert(final(out)@ =~= old(out)@ + fixed_point(v as nat, d as nat));
    }
}

/// `n / m` rounded to the nearest integer, ties to the even neighbour.
pub fn round_half_even_exec(n: u128, m: u128) -> (r: u128)
    requires
        m > 0,
        m < 0x8000_0000_0000_0000_0000_0000_0000_0000,
        n < 0x8000_0000_0000_0000_0000_0000_0000_0000,
    ensures
        r == round_half_even(n as nat, m as nat),
{
    let q = n / m;
    let r = n % m;
    assert(q <= n) by (nonlinear_arith)
        requires
            m > 0,
            q == n / m,
    ;
    if 2 * r > m || (2 * r == m && q % 2 == 1) {
        q + 1
    } else {
        q
    }
}

/// The value of the double-precision float nearest to `n`, that is, of `n as f64`.
pub fn nearest_double_exec(n: u64) -> (r: u128)
    ensures
        r == nearest_double(n as nat),
        r <= n + 2048,
{
    let mut m: u64 = n;
    let mut k: u32 = 0;
    let mut p: u128 = 1;
    assert(pow2(0) == 1);
    while m >= 0x20_0000_0000_0000
        invariant
            m as nat == n as nat / pow2(k as nat),
            p == pow2(k as nat),
            dropped_bits(n as nat) == k + dropped_bits(m as nat),
            k <= 11,
            m as nat * pow2(k as nat) <= n,
            0x20_0000_0000_0000 * pow2(k as nat) <= 2 * (n as nat) || k == 0,
        decreases m,
    {
        proof {
            lemma_pow2_pos(k as nat);
            vstd::arithmetic::div_mod::lemma_div_denominator(n as int, pow2(k as nat) as int, 2);
            assert(pow2(k as nat) * 2 == pow2((k + 1) as nat));
            assert((m / 2) as nat * pow2((k + 1) as nat) <= n) by (nonlinear_arith)
                requires
                    m as nat * pow2(k as nat) <= n,
                    pow2((k + 1) as nat) == pow2(k as nat) * 2,
            ;
            assert(0x20_0000_0000_0000 * pow2((k + 1) as nat) <= 2 * (n as nat)) by (nonlinear_arith)
                requires
                    m >= 0x20_0000_0000_0000,
                    m as nat * pow2(k as nat) <= n,
                    pow2((k + 1) as nat) == pow2(k as nat) * 2,
            ;
            if k >= 11 {
                assert(pow2(11) == 2048) by {
                    reveal_with_fuel(pow2, 12);
                }
                lemma_pow2_mono(11, k as nat);
                assert(0x20_0000_0000_0000 * pow2(k as nat) >= 0x20_0000_0000_0000 * 2048) by (nonlinear_arith)
                    requires
                        pow2(k as nat) >= 2048,
                ;
                assert(false);
            }
        }
        m = m / 2;
        k = k + 1;
        p = p * 2;
    }
    proof {
        assert(pow2(11) == 2048) by {
            reveal_with_fuel(pow2, 12);
        }
        lemma_pow2_mono(k as nat, 11);
        lemma_pow2_pos(k as nat);
    }
    let q = round_half_even_exec(n as u128, p);
    proof {
        assert(q <= n as nat / p as nat + 1);
        assert(q * p <= n as nat + p) by (nonlinear_arith)
            requires
                q <= n as nat / p as nat + 1,
                p > 0,
        ;
    }
    q * p
}

proof fn lemma_pow2_pos(k: nat)
    ensures
        pow2(k) >= 1,
    decreases k,
{
    if k > 0 {
        lemma_pow2_pos((k - 1) as nat);
    }
}

proof fn lemma_pow2_mono(a: nat, b: nat)
    requires
        a <= b,
    ensures
        pow2(a) <= pow2(b),
    decreases b - a,
{
    if a < b {
        lemma_pow2_mono(a, (b - 1) as nat);
        lemma_pow2_pos((b - 1) as nat);
    }
}

/// The characters of `s`, in order.
pub fn chars_of(s: &str) -> (v: Vec<char>)
    ensures
        v@ == s@,
{
    broadcast use vstd::string::group_string_axioms;

    let mut it = s.chars();
    let mut v: Vec<char> = Vec::new();
    loop
        invariant
            v@ + it.remaining() == s@,
            it.obeys_prophetic_iter_laws(),
            it.decrease() is Some,
        decreases it.decrease()->0,
    {
        match it.next() {
            Some(c) => {
                v.push(c);
                assert(v@ + it.remaining() =~= s@);
            },
            None => {
                assert(v@ =~= s@);
                return v;
            },
        }
    }
}

/// `needle` occurs in `hay` as a run of consecutive characters.
pub open spec fn contains(hay: Seq<char>, needle: Seq<char>) -> bool {
    exists|i: int|
        0 <= i && i + needle.len() <= hay.len() && #[trigger] hay.subrange(i, i + needle.len())
            == needle
}

/// Whether `needle` occurs in `hay` as a run of consecutive characters.
pub fn contains_exec(hay: &Vec<char>, needle: &Vec<char>) -> (b: bool)
    ensures
        b == contains(hay@, needle@),
{
    let n = hay.len();
    let m = needle.len();
    if m > n {
        return false;
    }
    let mut i: usize = 0;
    while i <= n - m
        invariant
            n == hay@.len(),
            m == needle@.len(),
            m <= n,
            i <= n - m + 1,
            forall|k: int| 0 <= k < i ==> #[trigger] hay@.subrange(k, k + m) != needle@,
        decreases n - m + 1 - i,
    {
        let mut j: usize = 0;
        let mut same = true;
        while j < m
            invariant
                n == hay@.len(),
                m == needle@.len(),
                i + m <= n,
                j <= m,
                same == (forall|t: int| 0 <= t < j ==> hay@[i + t] == needle@[t]),
            decreases m - j,
        {
            if hay[i + j] != needle[j] {
                same = false;
            }
            j = j + 1;
        }
        if same {
            assert(hay@.subrange(i as int, i + m) =~= needle@);
            return true;
        }
        assert(hay@.subrange(i as int, i + m) != needle@) by {
            let t = choose|t: int| 0 <= t < m && hay@[i + t] != needle@[t];
            assert(hay@.subrange(i as int, i + m)[t] == hay@[i + t]);
        }
        i = i + 1;
    }
    assert forall|k: int|
        0 <= k && k + needle@.len() <= hay@.len() implies #[trigger] hay@.subrange(
        k,
        k + needle@.len(),
    ) != needle@ by {
        assert(k < i);
    }
    false
}

/// Three-way comparison of two character sequences in dictionary order by code
/// point, a proper prefix coming first: -1, 0 or 1.
pub open spec fn lex_order(a: Seq<char>, b: Seq<char>) -> int
    decreases a.len(),
{
    if a.len() == 0 {
        if b.len() == 0 {
            0
        } else {
            -1
        }
    } else if b.len() == 0 {
        1
    } else if a[0] < b[0] {
        -1
    } else if a[0] > b[0] {
        1
    } else {
        lex_order(a.drop_first(), b.drop_first())
    }
}

/// Swapping the arguments negates the comparison.
pub proof fn lemma_lex_order_antisymmetric(a: Seq<char>, b: Seq<char>)
    ensures
        lex_order(a, b) == -lex_order(b, a),
        -1 <= lex_order(a, b) <= 1,
    decreases a.len(),
{
    if a.len() > 0 && b.len() > 0 && a[0] == b[0] {
        lemma_lex_order_antisymmetric(a.drop_first(), b.drop_first());
    }
}

/// The comparison says "equal" exactly for equal sequences.
pub proof fn lemma_lex_order_equal(a: Seq<char>, b: Seq<char>)
    ensures
        lex_order(a, b) == 0 <==> a == b,
    decreases a.len(),
{
    if a.len() > 0 && b.len() > 0 {
        if a[0] == b[0] {
            lemma_lex_order_equal(a.drop_first(), b.drop_first());
            assert(a[0] == b[0]);
            if a.drop_first() == b.drop_first() {
                assert(a =~= seq![a[0]] + a.drop_first());
                assert(b =~= seq![b[0]] + b.drop_first());
            }
            if a == b {
                assert(a.drop_first() =~= b.drop_first());
            }
        } else {
            assert(a[0] != b[0]);
        }
    } else if a.len() == 0 && b.len() > 0 {
        assert(a != b);
    } else if b.len() == 0 && a.len() > 0 {
        assert(a != b);
    } else {
        assert(a =~= b);
    }
}

/// "Not after" is transitive.
pub proof fn lemma_lex_order_transitive(a: Seq<char>, b: Seq<char>, c: Seq<char>)
    requires
        lex_order(a, b) <= 0,
        lex_order(b, c) <= 0,
    ensures
        lex_order(a, c) <= 0,
    decreases a.len(),
{
    if a.len() > 0 && b.len() > 0 && c.len() > 0 {
        if a[0] == b[0] && b[0] == c[0] {
            lemma_lex_order_transitive(a.drop_first(), b.drop_first(), c.drop_first());
        }
    }
}

/// Three-way comparison of two character sequences in dictionary order by code point.
pub fn lex_order_exec(a: &Vec<char>, b: &Vec<char>) -> (c: i8)
    ensures
        c == lex_order(a@, b@),
{
    let mut i: usize = 0;
    assert(a@.skip(0) =~= a@);
    assert(b@.skip(0) =~= b@);
    while i < a.len() && i < b.len()
        invariant
            i <= a@.len(),
            i <= b@.len(),
            lex_order(a@, b@) == lex_order(a@.skip(i as int), b@.skip(i as int)),
        decreases a@.len() - i,
    {
        let x = a[i];
        let y = b[i];
        if x < y {
            return -1;
        } else if x > y {
            return 1;
        }
        assert(a@.skip(i as int).drop_first() =~= a@.skip(i + 1));
        assert(b@.skip(i as int).drop_first() =~= b@.skip(i + 1));
        i = i + 1;
    }
    if i < a.len() {
        1
    } else if i < b.len() {
        -1
    } else {
        0
    }
}

/// The elements of `s` that satisfy `p`, in their order.
pub open spec fn keep<A>(s: Seq<A>, p: spec_fn(A) -> bool) -> Seq<A>
    decreases s.len(),
{
    if s.len() == 0 {
        s
    } else if p(s.last()) {
        keep(s.drop_last(), p).push(s.last())
    } else {
        keep(s.drop_last(), p)
    }
}

/// Keeping distributes over concatenation.
pub proof fn lemma_keep_append<A>(a: Seq<A>, b: Seq<A>, p: spec_fn(A) -> bool)
    ensures
        keep(a + b, p) == keep(a, p) + keep(b, p),
    decreases b.len(),
{
    if b.len() == 0 {
        assert(a + b =~= a);
        assert(keep(a, p) + keep(b, p) =~= keep(a, p));
    } else {
        lemma_keep_append(a, b.drop_last(), p);
        assert((a + b).drop_last() =~= a + b.drop_last());
        assert((a + b).last() == b.last());
        if p(b.last()) {
            assert(keep(a, p) + keep(b, p) =~= (keep(a, p) + keep(b.drop_last(), p)).push(b.last()));
        } else {
            assert(keep(a, p) + keep(b, p) =~= keep(a, p) + keep(b.drop_last(), p));
        }
    }
}

/// `String::push` appends one character.
pub assume_specification[ String::push ](s: &mut String, ch: char)
    ensures
        final(s)@ == old(s)@.push(ch),
;

/// `String::pop` removes and returns the last character, or returns `None`
/// and leaves the string alone when it is empty.
pub assume_specification[ String::pop ](s: &mut String) -> (r: Option<char>)
    ensures
        old(s)@.len() == 0 ==> r is None && final(s)@ == old(s)@,
        old(s)@.len() > 0 ==> r == Some(old(s)@.last()) && final(s)@ == old(s)@.drop_last(),
;

/// `String::clear` truncates the string to length zero.
pub assume_specification[ String::clear ](s: &mut String)
    ensures
        final(s)@ == Seq::<char>::empty(),
;

} // verus!
