//! Reading a host as an IP address literal: dotted-quad IPv4 and
//! colon-separated IPv6 in the textual forms that `IpAddr`'s `FromStr`
//! accepts (decimal octets without leading zeros; one to four hex digits
//! per group; at most one `::`, standing for at least one zero group; a
//! dotted quad only as the last two groups).
use vstd::prelude::*;
use crate::text::{chars_of, decimal, digit};
use crate::tools::IpAddress;

verus! {

/// Whether `c` is a decimal digit, or, when `hex`, a hexadecimal digit of
/// either case.
pub open spec fn is_digit_in(c: char, hex: bool) -> bool {
    ('0' <= c && c <= '9') || (hex && (('a' <= c && c <= 'f') || ('A' <= c && c <= 'F')))
}

/// The value of the digit `c`.
pub open spec fn digit_val(c: char) -> nat {
    if '0' <= c && c <= '9' {
        (c as u32 - 48) as nat
    } else if 'a' <= c && c <= 'f' {
        (c as u32 - 87) as nat
    } else {
        (c as u32 - 55) as nat
    }
}

/// The number of consecutive digits of `s` from position `p` on.
pub open spec fn digit_run(s: Seq<char>, p: int, hex: bool) -> nat
    decreases s.len() - p,
{
    if 0 <= p < s.len() && is_digit_in(s[p], hex) {
        1 + digit_run(s, p + 1, hex)
    } else {
        0
    }
}

/// The value of the `n` digits of `s` from position `p` on.
pub open spec fn digits_value(s: Seq<char>, p: int, n: nat, hex: bool) -> nat
    decreases n,
{
    if n == 0 {
        0
    } else {
        digits_value(s, p, (n - 1) as nat, hex) * (if hex {
            16nat
        } else {
            10nat
        }) + digit_val(s[p + n - 1])
    }
}

/// A decimal octet at `p`: all the digits there, one to three of them,
/// no leading zero, at most 255; its value and the position after it.
pub open spec fn octet_at(s: Seq<char>, p: int) -> Option<(u8, int)> {
    let n = digit_run(s, p, false);
    let v = digits_value(s, p, n, false);
    if 1 <= n <= 3 && v <= 255 && !(n > 1 && s[p] == '0') {
        Some((v as u8, p + n))
    } else {
        None
    }
}

/// A dot at `p`, then an octet.
pub open spec fn dotted_octet_at(s: Seq<char>, p: int) -> Option<(u8, int)> {
    if 0 <= p < s.len() && s[p] == '.' {
        octet_at(s, p + 1)
    } else {
        None
    }
}

/// A dotted quad at `p`: its four octets and the position after it.
pub open spec fn quad_at(s: Seq<char>, p: int) -> Option<(Seq<u8>, int)> {
    match octet_at(s, p) {
        None => None,
        Some((a, p1)) => match dotted_octet_at(s, p1) {
            None => None,
            Some((b, p2)) => match dotted_octet_at(s, p2) {
                None => None,
                Some((c, p3)) => match dotted_octet_at(s, p3) {
                    None => None,
                    Some((d, p4)) => Some((seq![a, b, c, d], p4)),
                },
            },
        },
    }
}

/// A group of one to four hex digits at `p` (all the hex digits there):
/// its value and the position after it.
pub open spec fn hex_group_at(s: Seq<char>, p: int) -> Option<(u16, int)> {
    let n = digit_run(s, p, true);
    if 1 <= n <= 4 {
        Some((digits_value(s, p, n, true) as u16, p + n))
    } else {
        None
    }
}

/// Where group number `i` starts when the previous text ends at `p`:
/// every group but the first follows a colon.
pub open spec fn group_start(s: Seq<char>, p: int, i: int) -> Option<int> {
    if i == 0 {
        Some(p)
    } else if 0 <= p < s.len() && s[p] == ':' {
        Some(p + 1)
    } else {
        None
    }
}

/// The two groups that a dotted quad stands for.
pub open spec fn quad_groups(o: Seq<u8>) -> Seq<u16> {
    seq![(o[0] * 256 + o[1]) as u16, (o[2] * 256 + o[3]) as u16]
}

/// Reads groups number `i` to `limit - 1` from `p`: the groups read, the
/// position after them, and whether the last two were a dotted quad
/// (which ends the run; it needs room for two groups). Reading stops
/// before the first separator or group that is not there.
pub open spec fn groups_at(s: Seq<char>, p: int, i: int, limit: int) -> (Seq<u16>, int, bool)
    decreases limit - i,
{
    if i >= limit {
        (Seq::empty(), p, false)
    } else {
        match group_start(s, p, i) {
            None => (Seq::empty(), p, false),
            Some(q) => {
                let quad = if i < limit - 1 {
                    quad_at(s, q)
                } else {
                    None
                };
                match quad {
                    Some((o, e)) => (quad_groups(o), e, true),
                    None => match hex_group_at(s, q) {
                        None => (Seq::empty(), p, false),
                        Some((g, e)) => {
                            let rest = groups_at(s, e, i + 1, limit);
                            (seq![g] + rest.0, rest.1, rest.2)
                        },
                    },
                }
            },
        }
    }
}

/// An IPv6 address from the start of `s`: eight groups, or the groups
/// before a `::`, zeros, and the groups after it (at most seven groups
/// in all); its segments and the position after it.
pub open spec fn v6_prefix(s: Seq<char>) -> Option<(Seq<u16>, int)> {
    let head = groups_at(s, 0, 0, 8);
    if head.0.len() == 8 {
        Some((head.0, head.1))
    } else if head.2 {
        None
    } else if 0 <= head.1 && head.1 + 1 < s.len() && s[head.1] == ':' && s[head.1 + 1] == ':' {
        let tail = groups_at(s, head.1 + 2, 0, 7 - head.0.len());
        Some(
            (
                head.0 + Seq::new((8 - head.0.len() - tail.0.len()) as nat, |k: int| 0u16) + tail.0,
                tail.1,
            ),
        )
    } else {
        None
    }
}

/// `s` read as an IP address: a dotted quad or an IPv6 address that
/// takes up the whole of `s`.
pub open spec fn ip_literal(s: Seq<char>) -> Option<IpAddress> {
    match quad_at(s, 0) {
        Some((o, e)) => if e == s.len() {
            Some(IpAddress::V4([o[0], o[1], o[2], o[3]]))
        } else {
            None
        },
        None => match v6_prefix(s) {
            Some((g, e)) => if e == s.len() {
                Some(IpAddress::V6([g[0], g[1], g[2], g[3], g[4], g[5], g[6], g[7]]))
            } else {
                None
            },
            None => None,
        },
    }
}

// ─── Lemmas ───────────────────────────────────────────────────────────────

/// A run of `n` digits from `p` makes up the first `n` of the digits
/// counted from `p`.
pub proof fn lemma_run_split(s: Seq<char>, p: int, n: int, hex: bool)
    requires
        0 <= p,
        0 <= n,
        p + n <= s.len(),
        forall|j: int| 0 <= j < n ==> is_digit_in(#[trigger] s[p + j], hex),
    ensures
        digit_run(s, p, hex) == n + digit_run(s, p + n, hex),
    decreases n,
{
    if n > 0 {
        assert(is_digit_in(s[p + 0], hex));
        assert forall|j: int| 0 <= j < n - 1 implies is_digit_in(#[trigger] s[(p + 1) + j], hex) by {
            assert(s[(p + 1) + j] == s[p + (j + 1)]);
        }
        lemma_run_split(s, p + 1, n - 1, hex);
    }
}

/// The digits counted from `p` lie within `s`.
pub proof fn lemma_run_bound(s: Seq<char>, p: int, hex: bool)
    requires
        0 <= p <= s.len(),
    ensures
        p + digit_run(s, p, hex) <= s.len(),
    decreases s.len() - p,
{
    if p < s.len() && is_digit_in(s[p], hex) {
        lemma_run_bound(s, p + 1, hex);
    }
}

/// An octet ends within `s`, after where it starts.
pub proof fn lemma_octet_end(s: Seq<char>, p: int)
    requires
        0 <= p <= s.len(),
    ensures
        octet_at(s, p) matches Some((_, e)) ==> p < e <= s.len(),
        dotted_octet_at(s, p) matches Some((_, e)) ==> p < e <= s.len(),
{
    lemma_run_bound(s, p, false);
    if p < s.len() {
        lemma_run_bound(s, p + 1, false);
    }
}

/// A dotted quad and a hex group end within `s`, after where they start.
pub proof fn lemma_token_ends(s: Seq<char>, p: int)
    requires
        0 <= p <= s.len(),
    ensures
        quad_at(s, p) matches Some((_, e)) ==> p < e <= s.len(),
        hex_group_at(s, p) matches Some((_, e)) ==> p < e <= s.len(),
{
    lemma_run_bound(s, p, true);
    lemma_octet_end(s, p);
    if let Some((_, p1)) = octet_at(s, p) {
        lemma_octet_end(s, p1);
        if let Some((_, p2)) = dotted_octet_at(s, p1) {
            lemma_octet_end(s, p2);
            if let Some((_, p3)) = dotted_octet_at(s, p2) {
                lemma_octet_end(s, p3);
            }
        }
    }
}

/// Reading groups yields at most `limit - i` of them and ends within `s`,
/// no earlier than it started.
pub proof fn lemma_groups_bounds(s: Seq<char>, p: int, i: int, limit: int)
    requires
        0 <= p <= s.len(),
        0 <= i <= limit,
    ensures
        groups_at(s, p, i, limit).0.len() <= limit - i,
        p <= groups_at(s, p, i, limit).1 <= s.len(),
    decreases limit - i,
{
    if i < limit {
        if let Some(q) = group_start(s, p, i) {
            lemma_token_ends(s, q);
            let quad = if i < limit - 1 {
                quad_at(s, q)
            } else {
                None
            };
            if quad is None {
                if let Some((g, e)) = hex_group_at(s, q) {
                    lemma_groups_bounds(s, e, i + 1, limit);
                }
            }
        }
    }
}

// ─── Reading ──────────────────────────────────────────────────────────────

/// A position-carrying result with its position as an integer.
pub open spec fn at_view<T>(r: Option<(T, usize)>) -> Option<(T, int)> {
    match r {
        Some((x, e)) => Some((x, e as int)),
        None => None,
    }
}

/// Whether `c` is a digit (hexadecimal when `hex`).
fn is_digit_exec(c: char, hex: bool) -> (b: bool)
    ensures
        b == is_digit_in(c, hex),
{
    ('0' <= c && c <= '9') || (hex && (('a' <= c && c <= 'f') || ('A' <= c && c <= 'F')))
}

/// The value of a hex (or decimal) digit.
fn digit_val_exec(c: char) -> (d: u32)
    requires
        is_digit_in(c, true),
    ensures
        d == digit_val(c),
        d < 16,
{
    let u = c as u32;
    if '0' <= c && c <= '9' {
        u - 48
    } else if 'a' <= c && c <= 'f' {
        u - 87
    } else {
        u - 55
    }
}

/// Reads the digits from `p`, stopping after `max + 1` of them: how many
/// were read and, when no more than `max`, their value.
fn read_run(v: &Vec<char>, p: usize, hex: bool, max: usize) -> (r: (usize, u32))
    requires
        p <= v.len(),
        1 <= max <= 4,
    ensures
        r.0 <= max + 1,
        p + r.0 <= v.len(),
        r.0 <= max ==> r.0 == digit_run(v@, p as int, hex),
        r.0 > max ==> digit_run(v@, p as int, hex) > max,
        r.0 <= max ==> r.1 == digits_value(v@, p as int, r.0 as nat, hex),
{
    let mut n: usize = 0;
    let mut val: u32 = 0;
    while n <= max && p + n < v.len() && is_digit_exec(v[p + n], hex)
        invariant
            p <= v.len(),
            1 <= max <= 4,
            n <= max + 1,
            p + n <= v.len(),
            forall|j: int| 0 <= j < n ==> is_digit_in(#[trigger] v@[p + j], hex),
            val == digits_value(v@, p as int, n as nat, hex),
            n == 0 ==> val < 1,
            n == 1 ==> val < 16,
            n == 2 ==> val < 256,
            n == 3 ==> val < 4096,
            n == 4 ==> val < 65536,
            n == 5 ==> val < 1048576,
        decreases v.len() - (p + n),
    {
        let c = v[p + n];
        assert(is_digit_in(c, true));
        let d = digit_val_exec(c);
        val = if hex {
            val * 16 + d
        } else {
            val * 10 + d
        };
        n = n + 1;
        assert(v@[p + (n - 1)] == c);
    }
    proof {
        lemma_run_split(v@, p as int, n as int, hex);
    }
    (n, val)
}

/// Reads a decimal octet at `p`.
fn octet_exec(v: &Vec<char>, p: usize) -> (r: Option<(u8, usize)>)
    requires
        p <= v.len(),
    ensures
        at_view(r) == octet_at(v@, p as int),
        r matches Some((_, e)) ==> e <= v.len(),
{
    let (n, val) = read_run(v, p, false, 3);
    if n >= 1 && n <= 3 && val <= 255 && !(n > 1 && v[p] == '0') {
        Some((val as u8, p + n))
    } else {
        None
    }
}

/// Reads a dot and a decimal octet at `p`.
fn dotted_octet_exec(v: &Vec<char>, p: usize) -> (r: Option<(u8, usize)>)
    requires
        p <= v.len(),
    ensures
        at_view(r) == dotted_octet_at(v@, p as int),
        r matches Some((_, e)) ==> e <= v.len(),
{
    if p < v.len() && v[p] == '.' {
        octet_exec(v, p + 1)
    } else {
        None
    }
}

/// Reads a dotted quad at `p`.
fn quad_exec(v: &Vec<char>, p: usize) -> (r: Option<([u8; 4], usize)>)
    requires
        p <= v.len(),
    ensures
        match r {
            Some((o, e)) => quad_at(v@, p as int) == Some((o@, e as int)) && e <= v.len(),
            None => quad_at(v@, p as int) is None,
        },
{
    let (a, p1) = match octet_exec(v, p) {
        Some(x) => x,
        None => return None,
    };
    let (b, p2) = match dotted_octet_exec(v, p1) {
        Some(x) => x,
        None => return None,
    };
    let (c, p3) = match dotted_octet_exec(v, p2) {
        Some(x) => x,
        None => return None,
    };
    let (d, p4) = match dotted_octet_exec(v, p3) {
        Some(x) => x,
        None => return None,
    };
    let o = [a, b, c, d];
    assert(o@ =~= seq![a, b, c, d]);
    Some((o, p4))
}

/// Reads a group of hex digits at `p`.
fn hex_group_exec(v: &Vec<char>, p: usize) -> (r: Option<(u16, usize)>)
    requires
        p <= v.len(),
    ensures
        at_view(r) == hex_group_at(v@, p as int),
        r matches Some((_, e)) ==> e <= v.len(),
{
    let (n, val) = read_run(v, p, true, 4);
    if n >= 1 && n <= 4 {
        Some((val as u16, p + n))
    } else {
        None
    }
}

/// Reads groups number 0 to `limit - 1` from `p0` (see `groups_at`).
fn groups_exec(v: &Vec<char>, p0: usize, limit: usize) -> (r: (Vec<u16>, usize, bool))
    requires
        p0 <= v.len(),
        limit <= 8,
    ensures
        (r.0@, r.1 as int, r.2) == groups_at(v@, p0 as int, 0, limit as int),
        r.1 <= v.len(),
{
    let mut acc: Vec<u16> = Vec::new();
    let mut q: usize = p0;
    let mut i: usize = 0;
    assert(acc@ + groups_at(v@, q as int, 0, limit as int).0 =~= groups_at(v@, q as int, 0, limit as int).0);
    loop
        invariant
            i <= limit <= 8,
            q <= v.len(),
            acc@.len() == i,
            groups_at(v@, p0 as int, 0, limit as int) == ({
                let rest = groups_at(v@, q as int, i as int, limit as int);
                (acc@ + rest.0, rest.1, rest.2)
            }),
        decreases limit - i,
    {
        if i >= limit {
            assert(acc@ + Seq::<u16>::empty() =~= acc@);
            return (acc, q, false);
        }
        let start = if i == 0 {
            q
        } else if q < v.len() && v[q] == ':' {
            q + 1
        } else {
            assert(acc@ + Seq::<u16>::empty() =~= acc@);
            return (acc, q, false);
        };
        let quad = if i + 1 < limit {
            quad_exec(v, start)
        } else {
            None
        };
        match quad {
            Some((o, e)) => {
                let g1 = (o[0] as u16) * 256 + (o[1] as u16);
                let g2 = (o[2] as u16) * 256 + (o[3] as u16);
                let ghost before = acc@;
                acc.push(g1);
                acc.push(g2);
                assert(acc@ =~= before + quad_groups(o@));
                return (acc, e, true);
            },
            None => {
                match hex_group_exec(v, start) {
                    None => {
                        assert(acc@ + Seq::<u16>::empty() =~= acc@);
                        return (acc, q, false);
                    },
                    Some((g, e)) => {
                        let ghost before = acc@;
                        acc.push(g);
                        proof {
                            let rest = groups_at(v@, e as int, i + 1, limit as int);
                            assert(before + (seq![g] + rest.0) =~= acc@ + rest.0);
                        }
                        q = e;
                        i = i + 1;
                    },
                }
            },
        }
    }
}

/// Reads `host` as an IP address literal: `Some` exactly when all of it
/// is a dotted quad or an IPv6 address.
pub fn parse_ip_literal(host: &str) -> (r: Option<IpAddress>)
    ensures
        r == ip_literal(host@),
{
    let v = chars_of(host);
    match quad_exec(&v, 0) {
        Some((o, e)) => {
            if e == v.len() {
                Some(IpAddress::V4([o[0], o[1], o[2], o[3]]))
            } else {
                None
            }
        },
        None => {
            let (head, hp, hq) = groups_exec(&v, 0, 8);
            proof {
                lemma_groups_bounds(v@, 0, 0, 8);
            }
            if head.len() == 8 {
                if hp == v.len() {
                    Some(
                        IpAddress::V6(
                            [head[0], head[1], head[2], head[3], head[4], head[5], head[6], head[7]],
                        ),
                    )
                } else {
                    None
                }
            } else if hq {
                None
            } else if hp < v.len() && hp + 1 < v.len() && v[hp] == ':' && v[hp + 1] == ':' {
                let limit = 7 - head.len();
                let (tail, tp, _) = groups_exec(&v, hp + 2, limit);
                proof {
                    lemma_groups_bounds(v@, hp + 2, 0, limit as int);
                }
                if tp != v.len() {
                    return None;
                }
                let zeros = 8 - head.len() - tail.len();
                let mut m: Vec<u16> = Vec::new();
                let mut k: usize = 0;
                while k < head.len()
                    invariant
                        k <= head.len(),
                        m@ =~= head@.take(k as int),
                    decreases head.len() - k,
                {
                    m.push(head[k]);
                    k = k + 1;
                }
                let mut z: usize = 0;
                while z < zeros
                    invariant
                        z <= zeros,
                        m@ =~= head@ + Seq::new(z as nat, |j: int| 0u16),
                    decreases zeros - z,
                {
                    m.push(0);
                    z = z + 1;
                }
                let mut t: usize = 0;
                while t < tail.len()
                    invariant
                        t <= tail.len(),
                        m@ =~= head@ + Seq::new(zeros as nat, |j: int| 0u16) + tail@.take(t as int),
                    decreases tail.len() - t,
                {
                    m.push(tail[t]);
                    t = t + 1;
                }
                assert(tail@.take(tail.len() as int) =~= tail@);
                Some(IpAddress::V6([m[0], m[1], m[2], m[3], m[4], m[5], m[6], m[7]]))
            } else {
                None
            }
        },
    }
}

// ─── Dotted quads are always recognised ──────────────────────────────────

/// The dotted-decimal form of the IPv4 address `a.b.c.d`.
pub open spec fn dotted_quad(a: u8, b: u8, c: u8, d: u8) -> Seq<char> {
    decimal(a as nat) + seq!['.'] + decimal(b as nat) + seq!['.'] + decimal(c as nat) + seq!['.']
        + decimal(d as nat)
}

/// The decimal digits of `n`, found in `s` at `p`, are digits worth `n`.
proof fn lemma_decimal_value(s: Seq<char>, p: int, n: nat)
    requires
        0 <= p,
        p + decimal(n).len() <= s.len(),
        s.subrange(p, p + decimal(n).len()) == decimal(n),
    ensures
        forall|j: int| 0 <= j < decimal(n).len() ==> is_digit_in(#[trigger] s[p + j], false),
        digits_value(s, p, decimal(n).len(), false) == n,
    decreases n,
{
    let len = decimal(n).len() as int;
    if n < 10 {
        assert(s[p + 0] == s.subrange(p, p + len)[0]);
        assert(digit(n) as u32 == 48 + n);
        assert(digit_val(s[p + 0]) == n);
        assert(digits_value(s, p, 1, false) == digits_value(s, p, 0, false) * 10 + digit_val(s[p + 0]));
    } else {
        let m = n / 10;
        let lm = decimal(m).len() as int;
        assert(decimal(n) == decimal(m) + seq![digit(n % 10)]);
        assert(len == lm + 1);
        assert(decimal(n).subrange(0, lm) =~= decimal(m));
        assert(s.subrange(p, p + lm) =~= s.subrange(p, p + len).subrange(0, lm));
        lemma_decimal_value(s, p, m);
        assert(s[p + lm] == s.subrange(p, p + len)[lm]);
        assert(decimal(n)[lm] == digit(n % 10));
        assert(digit(n % 10) as u32 == 48 + n % 10);
        assert(digit_val(s[p + lm]) == n % 10);
        assert(digits_value(s, p, len as nat, false) == digits_value(s, p, lm as nat, false) * 10 + digit_val(
            s[p + lm],
        ));
        assert(m * 10 + n % 10 == n);
        assert forall|j: int| 0 <= j < len implies is_digit_in(#[trigger] s[p + j], false) by {
            if j < lm {
            } else {
                assert(j == lm);
            }
        }
    }
}

/// The length of `decimal(n)` for `n` below 1000, and its first digit is
/// not a zero unless `n` is.
proof fn lemma_decimal_shape(n: nat)
    requires
        n < 1000,
    ensures
        n < 10 ==> decimal(n).len() == 1,
        10 <= n < 100 ==> decimal(n).len() == 2,
        100 <= n ==> decimal(n).len() == 3,
        n > 0 ==> decimal(n)[0] != '0',
    decreases n,
{
    if n < 10 {
        assert(digit(n) as u32 == 48 + n);
    } else {
        lemma_decimal_shape(n / 10);
        assert(decimal(n) == decimal(n / 10) + seq![digit(n % 10)]);
    }
}

/// The octet `n` written in decimal at `p`, followed by the end of `s` or
/// by something other than a digit, is read as `n`.
proof fn lemma_octet_of_decimal(s: Seq<char>, p: int, n: u8)
    requires
        0 <= p,
        p + decimal(n as nat).len() <= s.len(),
        s.subrange(p, p + decimal(n as nat).len()) == decimal(n as nat),
        p + decimal(n as nat).len() < s.len() ==> !is_digit_in(s[p + decimal(n as nat).len()], false),
    ensures
        octet_at(s, p) == Some((n, p + decimal(n as nat).len())),
{
    let len = decimal(n as nat).len() as int;
    lemma_decimal_value(s, p, n as nat);
    lemma_decimal_shape(n as nat);
    lemma_run_split(s, p, len as int, false);
    assert(s[p + 0] == decimal(n as nat)[0]);
}

/// The dotted-decimal form is made of digits and dots, and starts and
/// ends with a digit.
pub proof fn lemma_dotted_quad_text(a: u8, b: u8, c: u8, d: u8)
    ensures
        dotted_quad(a, b, c, d).len() > 0,
        is_digit_in(dotted_quad(a, b, c, d)[0], false),
        is_digit_in(dotted_quad(a, b, c, d).last(), false),
        forall|i: int|
            0 <= i < dotted_quad(a, b, c, d).len() ==> #[trigger] dotted_quad(a, b, c, d)[i] == '.'
                || is_digit_in(dotted_quad(a, b, c, d)[i], false),
{
    let s = dotted_quad(a, b, c, d);
    let la = decimal(a as nat).len() as int;
    let lb = decimal(b as nat).len() as int;
    let lc = decimal(c as nat).len() as int;
    let ld = decimal(d as nat).len() as int;
    let p1 = la;
    let p2 = p1 + 1 + lb;
    let p3 = p2 + 1 + lc;
    let p4 = p3 + 1 + ld;
    lemma_decimal_shape(a as nat);
    lemma_decimal_shape(d as nat);
    assert(s.len() == p4);
    assert(s.subrange(0, la) =~= decimal(a as nat));
    assert(s.subrange(p1 + 1, p1 + 1 + lb) =~= decimal(b as nat));
    assert(s.subrange(p2 + 1, p2 + 1 + lc) =~= decimal(c as nat));
    assert(s.subrange(p3 + 1, p3 + 1 + ld) =~= decimal(d as nat));
    lemma_decimal_value(s, 0, a as nat);
    lemma_decimal_value(s, p1 + 1, b as nat);
    lemma_decimal_value(s, p2 + 1, c as nat);
    lemma_decimal_value(s, p3 + 1, d as nat);
    assert(is_digit_in(s[0int + 0int], false));
    assert(is_digit_in(s[(p3 + 1) + (ld - 1)], false));
    assert forall|i: int| 0 <= i < s.len() implies #[trigger] s[i] == '.' || is_digit_in(s[i], false) by {
        if i < p1 {
            assert(is_digit_in(s[0 + i], false));
        } else if i == p1 || i == p2 || i == p3 {
        } else if i < p2 {
            assert(is_digit_in(s[(p1 + 1) + (i - p1 - 1)], false));
        } else if i < p3 {
            assert(is_digit_in(s[(p2 + 1) + (i - p2 - 1)], false));
        } else {
            assert(is_digit_in(s[(p3 + 1) + (i - p3 - 1)], false));
        }
    }
}

/// A dotted quad that ends `s`, starting at `p`, is read there.
proof fn lemma_quad_at_end(s: Seq<char>, p: int, a: u8, b: u8, c: u8, d: u8)
    requires
        0 <= p <= s.len(),
        s.subrange(p, s.len() as int) == dotted_quad(a, b, c, d),
    ensures
        quad_at(s, p) == Some((seq![a, b, c, d], s.len() as int)),
{
    let q = dotted_quad(a, b, c, d);
    let la = decimal(a as nat).len() as int;
    let lb = decimal(b as nat).len() as int;
    let lc = decimal(c as nat).len() as int;
    let ld = decimal(d as nat).len() as int;
    let p1 = p + la;
    let p2 = p1 + 1 + lb;
    let p3 = p2 + 1 + lc;
    let p4 = p3 + 1 + ld;
    assert(q.len() == la + 1 + lb + 1 + lc + 1 + ld);
    assert(s.len() == p4);
    assert forall|k: int| 0 <= k < q.len() implies s[p + k] == #[trigger] q[k] by {
        assert(s.subrange(p, s.len() as int)[k] == s[p + k]);
    }
    assert(s.subrange(p, p1) =~= decimal(a as nat)) by {
        assert forall|k: int| 0 <= k < la implies s.subrange(p, p1)[k] == decimal(a as nat)[k] by {
            assert(s[p + k] == q[k]);
        }
    }
    assert(s.subrange(p1 + 1, p2) =~= decimal(b as nat)) by {
        assert forall|k: int| 0 <= k < lb implies s.subrange(p1 + 1, p2)[k] == decimal(b as nat)[k] by {
            assert(s[p + (la + 1 + k)] == q[la + 1 + k]);
        }
    }
    assert(s.subrange(p2 + 1, p3) =~= decimal(c as nat)) by {
        assert forall|k: int| 0 <= k < lc implies s.subrange(p2 + 1, p3)[k] == decimal(c as nat)[k] by {
            assert(s[p + (la + 1 + lb + 1 + k)] == q[la + 1 + lb + 1 + k]);
        }
    }
    assert(s.subrange(p3 + 1, p4) =~= decimal(d as nat)) by {
        assert forall|k: int| 0 <= k < ld implies s.subrange(p3 + 1, p4)[k] == decimal(d as nat)[k] by {
            assert(s[p + (la + 1 + lb + 1 + lc + 1 + k)] == q[la + 1 + lb + 1 + lc + 1 + k]);
        }
    }
    assert(s[p + la] == q[la]);
    assert(s[p + (la + 1 + lb)] == q[la + 1 + lb]);
    assert(s[p + (la + 1 + lb + 1 + lc)] == q[la + 1 + lb + 1 + lc]);
    assert(s[p1] == '.');
    assert(s[p2] == '.');
    assert(s[p3] == '.');
    lemma_octet_of_decimal(s, p, a);
    lemma_octet_of_decimal(s, p1 + 1, b);
    lemma_octet_of_decimal(s, p2 + 1, c);
    lemma_octet_of_decimal(s, p3 + 1, d);
}

/// Every IPv4 address written in dotted decimal is read as that address,
/// so the fetch policy never takes one for a host name.
pub proof fn law_dotted_quad_is_read(a: u8, b: u8, c: u8, d: u8)
    ensures
        ip_literal(dotted_quad(a, b, c, d)) == Some(IpAddress::V4([a, b, c, d])),
{
    let s = dotted_quad(a, b, c, d);
    assert(s.subrange(0, s.len() as int) =~= s);
    lemma_quad_at_end(s, 0, a, b, c, d);
}

/// The IPv4-mapped IPv6 form `::ffff:a.b.c.d`.
pub open spec fn mapped_quad(a: u8, b: u8, c: u8, d: u8) -> Seq<char> {
    "::ffff:"@ + dotted_quad(a, b, c, d)
}

/// An IPv4 address written in the IPv4-mapped IPv6 form is read as the
/// IPv6 address `::ffff:` followed by its two groups.
pub proof fn law_mapped_quad_is_read(a: u8, b: u8, c: u8, d: u8)
    ensures
        ip_literal(mapped_quad(a, b, c, d)) == Some(
            IpAddress::V6([0, 0, 0, 0, 0, 0xffff, (a * 256 + b) as u16, (c * 256 + d) as u16]),
        ),
{
    reveal_strlit("::ffff:");
    let s = mapped_quad(a, b, c, d);
    let q = dotted_quad(a, b, c, d);
    let n = s.len() as int;
    assert(s[0] == ':' && s[1] == ':' && s[2] == 'f' && s[3] == 'f' && s[4] == 'f' && s[5] == 'f' && s[6] == ':');
    // No dotted quad and no hex group at the start: the head is empty.
    assert(digit_run(s, 0, false) == 0);
    assert(digit_run(s, 0, true) == 0);
    assert(quad_at(s, 0) is None);
    assert(groups_at(s, 0, 0, 8) == (Seq::<u16>::empty(), 0int, false));
    // `ffff` is one hex group and no octet.
    assert(digit_run(s, 2, false) == 0);
    assert(quad_at(s, 2) is None);
    assert(digit_run(s, 6, true) == 0);
    assert forall|j: int| 0 <= j < 4 implies is_digit_in(#[trigger] s[2 + j], true) by {
    }
    lemma_run_split(s, 2, 4, true);
    assert(digit_val('f') == 15);
    assert(digits_value(s, 2, 0, true) == 0);
    assert(s[2 + 1 - 1] == 'f');
    assert(s[2 + 2 - 1] == 'f');
    assert(s[2 + 3 - 1] == 'f');
    assert(s[2 + 4 - 1] == 'f');
    assert(digits_value(s, 2, 1, true) == 15);
    assert(digits_value(s, 2, 2, true) == 255);
    assert(digits_value(s, 2, 3, true) == 4095);
    assert(digits_value(s, 2, 4, true) == 65535);
    assert(hex_group_at(s, 2) == Some((0xffffu16, 6int)));
    // Then the dotted quad, which ends the address.
    assert(s.subrange(7, n) =~= q);
    lemma_quad_at_end(s, 7, a, b, c, d);
    assert(groups_at(s, 6, 1, 7) == (quad_groups(seq![a, b, c, d]), n, true));
    let tail = groups_at(s, 2, 0, 7);
    assert(tail.0 == seq![0xffffu16] + quad_groups(seq![a, b, c, d]));
    assert(tail.1 == n);
    let g = Seq::<u16>::empty() + Seq::new(5, |k: int| 0u16) + tail.0;
    assert(v6_prefix(s) == Some((g, n)));
    assert(g[5] == 0xffff);
}

} // verus!
