//! Exact decimal numbers, for the sampling parameters of requests.
use vstd::prelude::*;

verus! {

/// The largest number of fractional digits a `Decimal` carries.
pub const MAX_SCALE: u32 = 18;

pub open spec fn pow10(n: nat) -> int
    decreases n,
{
    if n == 0 {
        1
    } else {
        10 * pow10((n - 1) as nat)
    }
}

/// The number `mantissa / 10^scale`, with at most `MAX_SCALE` digits after
/// the point.
#[derive(Debug, Clone, Copy, PartialEq, Eq, Structural)]
pub struct Decimal {
    mantissa: i64,
    scale: u32,
}

impl Decimal {
    #[verifier::type_invariant]
    spec fn scale_in_bounds(self) -> bool {
        self.scale <= MAX_SCALE
    }

    pub closed spec fn spec_mantissa(self) -> int {
        self.mantissa as int
    }

    pub closed spec fn spec_scale(self) -> nat {
        self.scale as nat
    }

    /// `lo <= self <= hi`, for whole numbers `lo` and `hi`.
    pub open spec fn spec_within(self, lo: int, hi: int) -> bool {
        lo * pow10(self.spec_scale()) <= self.spec_mantissa() && self.spec_mantissa() <= hi * pow10(
            self.spec_scale(),
        )
    }

    /// `mantissa / 10^scale`; `None` where `scale` exceeds `MAX_SCALE`.
    pub fn new(mantissa: i64, scale: u32) -> (r: Option<Decimal>)
        ensures
            r is Some <==> scale <= MAX_SCALE,
            r matches Some(d) ==> d.spec_mantissa() == mantissa && d.spec_scale() == scale,
    {
        if scale <= MAX_SCALE {
            Some(Decimal { mantissa, scale })
        } else {
            None
        }
    }

    /// A whole number.
    pub fn from_int(n: i64) -> (r: Decimal)
        ensures
            r.spec_mantissa() == n,
            r.spec_scale() == 0,
    {
        Decimal { mantissa: n, scale: 0 }
    }

    pub fn mantissa(&self) -> (r: i64)
        ensures
            r == self.spec_mantissa(),
    {
        self.mantissa
    }

    pub fn scale(&self) -> (r: u32)
        ensures
            r == self.spec_scale(),
    {
        self.scale
    }
}

pub proof fn lemma_pow10_mono(n: nat, m: nat)
    requires
        n <= m,
    ensures
        1 <= pow10(n) <= pow10(m),
    decreases m,
{
    if m > n {
        lemma_pow10_mono(n, (m - 1) as nat);
    } else if n > 0 {
        lemma_pow10_mono((n - 1) as nat, (n - 1) as nat);
    }
}

pub proof fn lemma_pow10_bounds(n: nat)
    requires
        n <= MAX_SCALE,
    ensures
        1 <= pow10(n) <= 1_000_000_000_000_000_000,
{
    lemma_pow10_mono(n, MAX_SCALE as nat);
    reveal_with_fuel(pow10, 19);
}

/// `10^n`.
pub fn pow10_u64(n: u32) -> (r: u64)
    requires
        n <= MAX_SCALE,
    ensures
        r == pow10(n as nat),
{
    let mut p: u64 = 1;
    let mut i: u32 = 0;
    while i < n
        invariant
            i <= n <= MAX_SCALE,
            p == pow10(i as nat),
        decreases n - i,
    {
        proof {
            lemma_pow10_bounds(i as nat);
            lemma_pow10_bounds((i + 1) as nat);
        }
        p = p * 10;
        i = i + 1;
    }
    p
}

impl Decimal {
    /// Whether `lo <= self <= hi`.
    pub fn within(&self, lo: i64, hi: i64) -> (r: bool)
        ensures
            r == self.spec_within(lo as int, hi as int),
    {
        proof {
            use_type_invariant(self);
        }
        let p = pow10_u64(self.scale);
        proof {
            lemma_pow10_bounds(self.scale as nat);
        }
        let pw = p as i128;
        let m = self.mantissa as i128;
        assert(-0x8000_0000_0000_0000 * 1_000_000_000_000_000_000 <= (lo as int) * (pw as int)
            <= 0x8000_0000_0000_0000 * 1_000_000_000_000_000_000) by (nonlinear_arith)
            requires
                1 <= pw <= 1_000_000_000_000_000_000,
                -0x8000_0000_0000_0000 <= lo < 0x8000_0000_0000_0000,
        ;
        assert(-0x8000_0000_0000_0000 * 1_000_000_000_000_000_000 <= (hi as int) * (pw as int)
            <= 0x8000_0000_0000_0000 * 1_000_000_000_000_000_000) by (nonlinear_arith)
            requires
                1 <= pw <= 1_000_000_000_000_000_000,
                -0x8000_0000_0000_0000 <= hi < 0x8000_0000_0000_0000,
        ;
        let low = (lo as i128) * pw;
        let high = (hi as i128) * pw;
        low <= m && m <= high
    }
}

pub open spec fn digit_char(d: nat) -> char {
    (d + 48) as char
}

/// The decimal digits of `n`, most significant first, without leading zeros.
pub open spec fn digits(n: nat) -> Seq<char>
    decreases n,
{
    if n < 10 {
        seq![digit_char(n)]
    } else {
        digits(n / 10).push(digit_char(n % 10))
    }
}

/// The fraction `f / 10^s` with its trailing zero digits taken off.
pub open spec fn strip_zeros(f: nat, s: nat) -> (nat, nat)
    decreases s,
{
    if s > 0 && f > 0 && f % 10 == 0 {
        strip_zeros(f / 10, (s - 1) as nat)
    } else {
        (f, s)
    }
}

/// The digits after the point of the fraction `f / 10^s`, with no trailing
/// zeros.
pub open spec fn fraction_digits(f: nat, s: nat) -> Seq<char> {
    let (g, t) = strip_zeros(f, s);
    Seq::new((t - digits(g).len()) as nat, |_i: int| '0') + digits(g)
}

pub open spec fn magnitude(d: Decimal) -> nat {
    if d.spec_mantissa() < 0 {
        (-d.spec_mantissa()) as nat
    } else {
        d.spec_mantissa() as nat
    }
}

/// The shortest positional notation of the number: a `-` where it is
/// negative, the whole part, and a point with the fraction's digits where the
/// fraction is not zero (`2`, `2.0001`, `-0.5`).
pub open spec fn decimal_text(d: Decimal) -> Seq<char> {
    let p = pow10(d.spec_scale());
    let whole = magnitude(d) / (p as nat);
    let frac = magnitude(d) % (p as nat);
    (if d.spec_mantissa() < 0 {
        seq!['-']
    } else {
        Seq::empty()
    }) + digits(whole) + (if frac == 0 {
        Seq::empty()
    } else {
        seq!['.'] + fraction_digits(frac, d.spec_scale())
    })
}

/// Relies on the `Display` of `u64`: the decimal digits of the number.
#[verifier::external_body]
pub(crate) fn u64_text(n: u64) -> (r: String)
    ensures
        r@ == digits(n as nat),
{
    format!("{}", n)
}

pub proof fn lemma_digits_len(n: nat, s: nat)
    requires
        0 < n < pow10(s),
    ensures
        1 <= digits(n).len() <= s,
    decreases n,
{
    if s == 0 {
        assert(pow10(0) == 1);
    }
    if n >= 10 {
        let q = pow10((s - 1) as nat);
        assert(n / 10 < q) by (nonlinear_arith)
            requires
                n < 10 * q,
        ;
        lemma_digits_len(n / 10, (s - 1) as nat);
    }
}

/// The number of decimal digits of `n`.
fn digit_count(n: u64) -> (r: usize)
    ensures
        r == digits(n as nat).len(),
{
    let mut q = n;
    let mut c: usize = 1;
    while q >= 10
        invariant
            1 <= c <= 20,
            digits(n as nat).len() == c - 1 + digits(q as nat).len(),
            q as int * pow10((c - 1) as nat) <= n,
        decreases q,
    {
        proof {
            lemma_pow10_mono((c - 1) as nat, (c - 1) as nat);
            if c == 20 {
                reveal_with_fuel(pow10, 20);
                assert(q as int * pow10(19) >= 10 * pow10(19)) by (nonlinear_arith)
                    requires
                        q >= 10,
                        pow10(19) >= 1,
                ;
            }
            assert((q / 10) as int * pow10(c as nat) <= q as int * pow10((c - 1) as nat))
                by (nonlinear_arith)
                requires
                    pow10(c as nat) == 10 * pow10((c - 1) as nat),
                    pow10((c - 1) as nat) >= 1,
            ;
        }
        q = q / 10;
        c = c + 1;
    }
    c
}

impl Decimal {
    /// The number in positional notation, as `f64`'s `Display` writes the
    /// same value.
    pub fn to_text(&self) -> (r: String)
        ensures
            r@ == decimal_text(*self),
    {
        proof {
            use_type_invariant(self);
        }
        let p = pow10_u64(self.scale);
        proof {
            lemma_pow10_bounds(self.scale as nat);
        }
        let a: u64 = if self.mantissa < 0 {
            (-(self.mantissa as i128)) as u64
        } else {
            self.mantissa as u64
        };
        assert(a == magnitude(*self));
        let whole = a / p;
        let f0 = a % p;
        let mut out = String::new();
        let ghost sign: Seq<char> = if self.mantissa < 0 {
            seq!['-']
        } else {
            Seq::empty()
        };
        if self.mantissa < 0 {
            proof {
                reveal_strlit("-");
            }
            out.append("-");
        }
        assert(out@ =~= sign);
        let wt = u64_text(whole);
        out.append(wt.as_str());
        if f0 > 0 {
            let mut f = f0;
            let mut s = self.scale;
            while s > 0 && f % 10 == 0
                invariant
                    0 < f < pow10(s as nat),
                    s <= MAX_SCALE,
                    strip_zeros(f0 as nat, self.scale as nat) == strip_zeros(f as nat, s as nat),
                decreases s,
            {
                let ghost q = pow10((s - 1) as nat);
                assert(0 < f / 10 < q) by (nonlinear_arith)
                    requires
                        0 < f < 10 * q,
                        f % 10 == 0,
                ;
                f = f / 10;
                s = s - 1;
            }
            proof {
                reveal_strlit(".");
                lemma_digits_len(f as nat, s as nat);
            }
            out.append(".");
            let ghost head = out@;
            let nd = digit_count(f);
            let mut k: usize = nd;
            while k < s as usize
                invariant
                    nd <= k <= s,
                    out@ == head + Seq::new((k - nd) as nat, |_i: int| '0'),
                decreases s - k,
            {
                proof {
                    reveal_strlit("0");
                }
                out.append("0");
                k = k + 1;
                assert(out@ =~= head + Seq::new((k - nd) as nat, |_i: int| '0'));
            }
            let ft = u64_text(f);
            out.append(ft.as_str());
            assert(out@ =~= decimal_text(*self));
        } else {
            assert(out@ =~= decimal_text(*self));
        }
        out
    }
}

} // verus!
