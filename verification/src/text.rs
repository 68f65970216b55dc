//! Character-sequence model of strings and the verified string operations
//! the rest of the library is built from. Every string is modelled by its
//! view, a `Seq<char>`; the exec helpers work on `Vec<char>` and are proved
//! against the spec functions defined here.
use vstd::prelude::*;

verus! {

broadcast use vstd::string::group_string_axioms;

// ─── Spec vocabulary ───────────────────────────────────────────────────────

/// `p` is a prefix of `s`.
pub open spec fn starts_with(s: Seq<char>, p: Seq<char>) -> bool {
    p.len() <= s.len() && s.take(p.len() as int) == p
}

/// `p` is a suffix of `s`.
pub open spec fn ends_with(s: Seq<char>, p: Seq<char>) -> bool {
    p.len() <= s.len() && s.skip(s.len() - p.len()) == p
}

/// The length in bytes of the UTF-8 encoding of `s`, as `str::len`
/// reports it.
pub open spec fn byte_len(s: Seq<char>) -> usize {
    vstd::utf8::encode_utf8(s).len() as usize
}

/// The first `n` characters of `s`, or all of `s` when it is shorter
/// (`chars().take(n)`).
pub open spec fn take_upto(s: Seq<char>, n: int) -> Seq<char> {
    if s.len() > n { s.take(n) } else { s }
}

/// `p` occurs in `s` at position `i`.
pub open spec fn occurs_at(s: Seq<char>, p: Seq<char>, i: int) -> bool {
    0 <= i && i + p.len() <= s.len() && s.subrange(i, i + p.len()) == p
}

/// `p` occurs somewhere in `s`.
pub open spec fn contains(s: Seq<char>, p: Seq<char>) -> bool {
    exists|i: int| #[trigger] occurs_at(s, p, i)
}

/// Position of the first occurrence of `p` in `s`, if any.
pub open spec fn find(s: Seq<char>, p: Seq<char>) -> Option<int>
    decreases s.len(),
{
    if s.len() < p.len() {
        None
    } else if s.take(p.len() as int) == p {
        Some(0)
    } else if s.len() == 0 {
        None
    } else {
        match find(s.skip(1), p) {
            Some(i) => Some(i + 1),
            None => None,
        }
    }
}

/// ASCII lowercase of one character; every other character is unchanged.
pub open spec fn lower_char(c: char) -> char {
    if 'A' <= c && c <= 'Z' {
        ((c as u32) + 32) as char
    } else {
        c
    }
}

/// ASCII lowercase of a string (`str::to_ascii_lowercase`).
pub open spec fn lower(s: Seq<char>) -> Seq<char> {
    Seq::new(s.len(), |i: int| lower_char(s[i]))
}

/// The Unicode `White_Space` property, which `char::is_whitespace` and
/// therefore `str::trim` use.
pub open spec fn is_ws(c: char) -> bool {
    let u = c as u32;
    (0x09 <= u && u <= 0x0D) || u == 0x20 || u == 0x85 || u == 0xA0 || u == 0x1680
        || (0x2000 <= u && u <= 0x200A) || u == 0x2028 || u == 0x2029 || u == 0x202F
        || u == 0x205F || u == 0x3000
}

/// `s` without its leading whitespace (`str::trim_start`).
pub open spec fn trim_start(s: Seq<char>) -> Seq<char>
    decreases s.len(),
{
    if s.len() > 0 && is_ws(s[0]) {
        trim_start(s.skip(1))
    } else {
        s
    }
}

/// `s` without its trailing whitespace (`str::trim_end`).
pub open spec fn trim_end(s: Seq<char>) -> Seq<char>
    decreases s.len(),
{
    if s.len() > 0 && is_ws(s.last()) {
        trim_end(s.drop_last())
    } else {
        s
    }
}

/// `s` without leading and trailing whitespace (`str::trim`).
pub open spec fn trim(s: Seq<char>) -> Seq<char> {
    trim_end(trim_start(s))
}

/// `s` with every non-overlapping occurrence of `p`, scanned left to
/// right, removed (`str::replace(p, "")`).
pub open spec fn remove_all(s: Seq<char>, p: Seq<char>) -> Seq<char>
    decreases s.len(),
{
    if p.len() == 0 || s.len() < p.len() {
        s
    } else if s.take(p.len() as int) == p {
        remove_all(s.skip(p.len() as int), p)
    } else {
        seq![s[0]] + remove_all(s.skip(1), p)
    }
}

/// `s` with every occurrence of the character `c` replaced by `r`.
pub open spec fn replace_char(s: Seq<char>, c: char, r: Seq<char>) -> Seq<char>
    decreases s.len(),
{
    if s.len() == 0 {
        s
    } else {
        (if s[0] == c { r } else { seq![s[0]] }) + replace_char(s.skip(1), c, r)
    }
}

/// The decimal digit character for `d < 10`.
pub open spec fn digit(d: nat) -> char {
    ((48 + d) as u32) as char
}

/// Decimal representation of a natural number, no leading zeros.
pub open spec fn decimal(n: nat) -> Seq<char>
    decreases n,
{
    if n < 10 {
        seq![digit(n)]
    } else {
        decimal(n / 10) + seq![digit(n % 10)]
    }
}

/// Decimal representation of an integer, with a leading `-` when negative.
pub open spec fn signed_decimal(i: int) -> Seq<char> {
    if i < 0 {
        seq!['-'] + decimal((-i) as nat)
    } else {
        decimal(i as nat)
    }
}

/// `f` places the characters of `a`, in order, at positions of `b` that
/// hold the same characters.
pub open spec fn embeds(a: Seq<char>, b: Seq<char>, f: spec_fn(int) -> int) -> bool {
    &&& forall|i: int| 0 <= i < a.len() ==> 0 <= #[trigger] f(i) < b.len() && a[i] == b[f(i)]
    &&& forall|i: int, j: int| 0 <= i < j < a.len() ==> #[trigger] f(i) < #[trigger] f(j)
}

/// `a` is `b` with some characters deleted.
pub open spec fn is_subseq(a: Seq<char>, b: Seq<char>) -> bool {
    exists|f: spec_fn(int) -> int| embeds(a, b, f)
}

/// Deleting characters twice is deleting characters.
pub proof fn lemma_subseq_trans(a: Seq<char>, b: Seq<char>, c: Seq<char>)
    requires
        is_subseq(a, b),
        is_subseq(b, c),
    ensures
        is_subseq(a, c),
{
    let f = choose|f: spec_fn(int) -> int| embeds(a, b, f);
    let g = choose|g: spec_fn(int) -> int| embeds(b, c, g);
    let h = |i: int| g(f(i));
    assert forall|i: int| 0 <= i < a.len() implies 0 <= #[trigger] h(i) < c.len() && a[i] == c[h(i)] by {
        assert(0 <= f(i) < b.len());
        assert(b[f(i)] == c[g(f(i))]);
    }
    assert forall|i: int, j: int| 0 <= i < j < a.len() implies #[trigger] h(i) < #[trigger] h(j) by {
        assert(f(i) < f(j));
        assert(0 <= f(i) && f(j) < b.len());
    }
    assert(embeds(a, c, h));
}

/// Every text is a subsequence of itself.
pub proof fn lemma_subseq_refl(a: Seq<char>)
    ensures
        is_subseq(a, a),
{
    let f = |i: int| i;
    assert(embeds(a, a, f));
}

/// Dropping a prefix leaves a subsequence.
pub proof fn lemma_skip_subseq(s: Seq<char>, k: int)
    requires
        0 <= k <= s.len(),
    ensures
        is_subseq(s.skip(k), s),
{
    let f = |i: int| i + k;
    assert(embeds(s.skip(k), s, f));
}

/// Removing a pattern only deletes characters.
pub proof fn lemma_remove_all_subseq(s: Seq<char>, p: Seq<char>)
    ensures
        is_subseq(remove_all(s, p), s),
    decreases s.len(),
{
    if p.len() == 0 || s.len() < p.len() {
        lemma_subseq_refl(s);
    } else if s.take(p.len() as int) == p {
        let t = s.skip(p.len() as int);
        lemma_remove_all_subseq(t, p);
        lemma_skip_subseq(s, p.len() as int);
        lemma_subseq_trans(remove_all(t, p), t, s);
    } else {
        let t = s.skip(1);
        lemma_remove_all_subseq(t, p);
        let r = remove_all(t, p);
        let f = choose|f: spec_fn(int) -> int| embeds(r, t, f);
        let g = |i: int| if i == 0 { 0 } else { f(i - 1) + 1 };
        let a = seq![s[0]] + r;
        assert(remove_all(s, p) == a);
        assert forall|i: int| 0 <= i < a.len() implies 0 <= #[trigger] g(i) < s.len() && a[i] == s[g(i)] by {
            if i > 0 {
                assert(0 <= f(i - 1) < t.len());
                assert(r[i - 1] == t[f(i - 1)]);
            }
        }
        assert forall|i: int, j: int| 0 <= i < j < a.len() implies #[trigger] g(i) < #[trigger] g(j) by {
            if i > 0 {
                assert(f(i - 1) < f(j - 1));
            } else {
                assert(0 <= f(j - 1));
            }
        }
        assert(embeds(a, s, g));
    }
}

// ─── Lemmas ────────────────────────────────────────────────────────────────

/// An occurrence of `p` at `i` in `s` is an occurrence at `i - k` once the
/// first `k` characters are skipped.
pub proof fn lemma_occurs_skip(s: Seq<char>, p: Seq<char>, i: int, k: int)
    requires
        0 <= k <= i,
        k <= s.len(),
    ensures
        occurs_at(s, p, i) <==> occurs_at(s.skip(k), p, i - k),
{
    if 0 <= i && i + p.len() <= s.len() {
        assert(s.skip(k).subrange(i - k, i - k + p.len()) =~= s.subrange(i, i + p.len()));
    }
}

/// Removing a pattern that never occurs changes nothing.
pub proof fn lemma_remove_all_absent(s: Seq<char>, p: Seq<char>)
    requires
        !contains(s, p),
    ensures
        remove_all(s, p) == s,
    decreases s.len(),
{
    if p.len() == 0 || s.len() < p.len() {
    } else {
        if s.take(p.len() as int) == p {
            assert(s.subrange(0, p.len() as int) =~= s.take(p.len() as int));
            assert(occurs_at(s, p, 0));
        }
        assert forall|i: int| !#[trigger] occurs_at(s.skip(1), p, i) by {
            if occurs_at(s.skip(1), p, i) {
                lemma_occurs_skip(s, p, i + 1, 1);
                assert(occurs_at(s, p, i + 1));
            }
        }
        lemma_remove_all_absent(s.skip(1), p);
        assert(s =~= seq![s[0]] + s.skip(1));
    }
}

/// `decimal(n)` is never empty and consists of digits.
pub proof fn lemma_decimal_nonempty(n: nat)
    ensures
        decimal(n).len() >= 1,
    decreases n,
{
    if n >= 10 {
        lemma_decimal_nonempty(n / 10);
    }
}

// ─── Exec helpers ──────────────────────────────────────────────────────────

/// The characters of `s`, in order.
pub fn chars_of(s: &str) -> (v: Vec<char>)
    ensures
        v@ == s@,
{
    let mut v: Vec<char> = Vec::new();
    for c in iter: s.chars()
        invariant
            v@.len() == iter.index(),
            forall|j: int| 0 <= j < iter.index() ==> v@[j] == iter.seq()[j],
    {
        v.push(c);
    }
    assert(v@ =~= s@);
    v
}

/// Collects characters into a `String` (std's `FromIterator<char>` for
/// `String`, which appends the characters in order).
#[verifier::external_body]
pub(crate) fn string_of(v: &Vec<char>) -> (s: String)
    ensures
        s@ == v@,
{
    v.iter().collect()
}

/// A `String` holding the characters of `s` (`str::to_owned`).
pub fn owned(s: &str) -> (r: String)
    ensures
        r@ == s@,
{
    s.to_owned()
}

/// Appends `s` to `out`.
pub fn push_str(out: &mut Vec<char>, s: &str)
    ensures
        final(out)@ == old(out)@ + s@,
{
    let v = chars_of(s);
    push_chars(out, &v);
}

/// Appends the characters of `v` to `out`.
pub fn push_chars(out: &mut Vec<char>, v: &Vec<char>)
    ensures
        final(out)@ == old(out)@ + v@,
{
    let ghost start = out@;
    let mut i: usize = 0;
    while i < v.len()
        invariant
            i <= v.len(),
            out@ == start + v@.take(i as int),
        decreases v.len() - i,
    {
        out.push(v[i]);
        i = i + 1;
        assert(v@.take(i as int) =~= v@.take((i - 1) as int).push(v@[i - 1]));
    }
    assert(v@.take(v.len() as int) =~= v@);
}

/// The characters `v[from..to]`.
pub fn slice_chars(v: &Vec<char>, from: usize, to: usize) -> (r: Vec<char>)
    requires
        from <= to <= v.len(),
    ensures
        r@ == v@.subrange(from as int, to as int),
{
    let mut r: Vec<char> = Vec::new();
    let mut i = from;
    while i < to
        invariant
            from <= i <= to <= v.len(),
            r@ == v@.subrange(from as int, i as int),
        decreases to - i,
    {
        r.push(v[i]);
        i = i + 1;
        assert(r@ =~= v@.subrange(from as int, i as int));
    }
    r
}

/// Whether `p` occurs in `s` at position `i`.
pub fn occurs_at_exec(s: &Vec<char>, p: &Vec<char>, i: usize) -> (b: bool)
    ensures
        b == occurs_at(s@, p@, i as int),
{
    if i > s.len() || p.len() > s.len() - i {
        return false;
    }
    let mut j: usize = 0;
    while j < p.len()
        invariant
            i + p.len() <= s.len(),
            j <= p.len(),
            forall|k: int| 0 <= k < j ==> s@[i + k] == p@[k],
        decreases p.len() - j,
    {
        if s[i + j] != p[j] {
            assert(s@.subrange(i as int, i + p.len())[j as int] != p@[j as int]);
            return false;
        }
        j = j + 1;
    }
    assert(s@.subrange(i as int, i + p.len()) =~= p@);
    true
}

/// Whether `s` starts with `p`.
pub fn starts_with_exec(s: &Vec<char>, p: &Vec<char>) -> (b: bool)
    ensures
        b == starts_with(s@, p@),
{
    let b = occurs_at_exec(s, p, 0);
    assert(s@.subrange(0, p@.len() as int) =~= s@.take(p@.len() as int));
    b
}

/// Whether `s` ends with `p`.
pub fn ends_with_exec(s: &Vec<char>, p: &Vec<char>) -> (b: bool)
    ensures
        b == ends_with(s@, p@),
{
    if p.len() > s.len() {
        return false;
    }
    let b = occurs_at_exec(s, p, s.len() - p.len());
    assert(s@.subrange(s@.len() - p@.len(), s@.len() as int) =~= s@.skip(s@.len() - p@.len()));
    b
}

/// Position of the first occurrence of `p` in `s`.
pub fn find_exec(s: &Vec<char>, p: &Vec<char>) -> (r: Option<usize>)
    ensures
        r matches Some(i) ==> find(s@, p@) == Some(i as int),
        r is None ==> find(s@, p@) is None,
{
    let mut i: usize = 0;
    while p.len() <= s.len() - i
        invariant
            i <= s.len(),
            forall|k: int| 0 <= k < i ==> !occurs_at(s@, p@, k),
        decreases s.len() + 1 - i,
    {
        if occurs_at_exec(s, p, i) {
            proof { lemma_find_first(s@, p@, i as int); }
            return Some(i);
        }
        if p.len() == 0 {
            assert(s@.subrange(i as int, i as int) =~= p@);
        }
        i = i + 1;
    }
    proof { lemma_find_none(s@, p@, i as int); }
    None
}

/// `find` agrees with the first occurrence.
pub proof fn lemma_find_first(s: Seq<char>, p: Seq<char>, i: int)
    requires
        occurs_at(s, p, i),
        forall|k: int| 0 <= k < i ==> !occurs_at(s, p, k),
    ensures
        find(s, p) == Some(i),
    decreases i,
{
    assert(s.subrange(0, p.len() as int) =~= s.take(p.len() as int));
    if i == 0 {
    } else {
        assert(!occurs_at(s, p, 0));
        lemma_occurs_skip(s, p, i, 1);
        assert forall|k: int| 0 <= k < i - 1 implies !occurs_at(s.skip(1), p, k) by {
            lemma_occurs_skip(s, p, k + 1, 1);
        }
        lemma_find_first(s.skip(1), p, i - 1);
    }
}

/// `find` is `None` when no occurrence starts before the point where `p`
/// no longer fits.
pub proof fn lemma_find_none(s: Seq<char>, p: Seq<char>, i: int)
    requires
        0 <= i <= s.len(),
        s.len() - i < p.len(),
        forall|k: int| 0 <= k < i ==> !occurs_at(s, p, k),
    ensures
        find(s, p) is None,
        !contains(s, p),
    decreases s.len(),
{
    assert forall|k: int| !#[trigger] occurs_at(s, p, k) by {
        if occurs_at(s, p, k) && k >= i {
            assert(k + p.len() <= s.len());
        }
    }
    if s.len() < p.len() {
    } else {
        assert(s.subrange(0, p.len() as int) =~= s.take(p.len() as int));
        assert(!occurs_at(s, p, 0));
        if i == 0 {
        } else {
            assert forall|k: int| 0 <= k < i - 1 implies !occurs_at(s.skip(1), p, k) by {
                lemma_occurs_skip(s, p, k + 1, 1);
            }
            lemma_find_none(s.skip(1), p, i - 1);
        }
    }
}

/// `find` finds an occurrence, and none earlier.
pub proof fn lemma_find_sound(s: Seq<char>, p: Seq<char>)
    ensures
        find(s, p) matches Some(i) ==> occurs_at(s, p, i) && forall|k: int|
            0 <= k < i ==> !occurs_at(s, p, k),
        find(s, p) is None ==> !contains(s, p),
    decreases s.len(),
{
    if s.len() < p.len() {
        assert forall|k: int| !#[trigger] occurs_at(s, p, k) by {}
    } else if s.take(p.len() as int) == p {
        assert(s.subrange(0, p.len() as int) =~= s.take(p.len() as int));
    } else if s.len() == 0 {
        assert(s.take(p.len() as int) =~= p);
    } else {
        assert(s.subrange(0, p.len() as int) =~= s.take(p.len() as int));
        lemma_find_sound(s.skip(1), p);
        match find(s.skip(1), p) {
            Some(i) => {
                lemma_occurs_skip(s, p, i + 1, 1);
                assert forall|k: int| 0 <= k < i + 1 implies !occurs_at(s, p, k) by {
                    if k > 0 {
                        lemma_occurs_skip(s, p, k, 1);
                    }
                }
            },
            None => {
                assert forall|k: int| !#[trigger] occurs_at(s, p, k) by {
                    if k > 0 {
                        lemma_occurs_skip(s, p, k, 1);
                    }
                }
            },
        }
    }
}

/// Whether `p` occurs in `s`.
pub fn contains_exec(s: &Vec<char>, p: &Vec<char>) -> (b: bool)
    ensures
        b == contains(s@, p@),
{
    let r = find_exec(s, p);
    proof { lemma_find_sound(s@, p@); }
    r.is_some()
}

/// Whether the string `p` occurs in `s`.
pub fn contains_str(s: &Vec<char>, p: &str) -> (b: bool)
    ensures
        b == contains(s@, p@),
{
    let pv = chars_of(p);
    contains_exec(s, &pv)
}

/// Whether `s` starts with the string `p`.
pub fn starts_with_str(s: &Vec<char>, p: &str) -> (b: bool)
    ensures
        b == starts_with(s@, p@),
{
    let pv = chars_of(p);
    starts_with_exec(s, &pv)
}

/// Whether `s` ends with the string `p`.
pub fn ends_with_str(s: &Vec<char>, p: &str) -> (b: bool)
    ensures
        b == ends_with(s@, p@),
{
    let pv = chars_of(p);
    ends_with_exec(s, &pv)
}

/// Whether two character sequences are equal.
pub fn chars_eq(a: &Vec<char>, b: &Vec<char>) -> (r: bool)
    ensures
        r == (a@ == b@),
{
    if a.len() != b.len() {
        return false;
    }
    let r = starts_with_exec(a, b);
    assert(a@.take(b@.len() as int) =~= a@);
    r
}

/// Whether `s` equals the string `p`.
pub fn eq_str(s: &Vec<char>, p: &str) -> (r: bool)
    ensures
        r == (s@ == p@),
{
    let pv = chars_of(p);
    chars_eq(s, &pv)
}

/// ASCII-lowercased copy of `s`.
pub fn lower_exec(s: &Vec<char>) -> (r: Vec<char>)
    ensures
        r@ == lower(s@),
{
    let mut r: Vec<char> = Vec::new();
    let mut i: usize = 0;
    while i < s.len()
        invariant
            i <= s.len(),
            r@ =~= lower(s@).take(i as int),
        decreases s.len() - i,
    {
        let c = s[i];
        let l = if 'A' <= c && c <= 'Z' {
            char_add_32(c)
        } else {
            c
        };
        r.push(l);
        i = i + 1;
    }
    assert(lower(s@).take(s.len() as int) =~= lower(s@));
    r
}

/// The character 32 code points above an ASCII uppercase letter.
fn char_add_32(c: char) -> (r: char)
    requires
        'A' <= c <= 'Z',
    ensures
        r == ((c as u32) + 32) as char,
{
    let b = (c as u8) + 32;
    b as char
}

/// Whether `c` has the Unicode `White_Space` property.
pub fn is_ws_exec(c: char) -> (b: bool)
    ensures
        b == is_ws(c),
{
    let u = c as u32;
    (0x09 <= u && u <= 0x0D) || u == 0x20 || u == 0x85 || u == 0xA0 || u == 0x1680
        || (0x2000 <= u && u <= 0x200A) || u == 0x2028 || u == 0x2029 || u == 0x202F
        || u == 0x205F || u == 0x3000
}

/// `trim_start(s)` equals the suffix of `s` from the first non-whitespace.
pub proof fn lemma_trim_start_skip(s: Seq<char>, i: int)
    requires
        0 <= i <= s.len(),
        forall|k: int| 0 <= k < i ==> is_ws(s[k]),
    ensures
        trim_start(s) == trim_start(s.skip(i)),
    decreases i,
{
    if i > 0 {
        lemma_trim_start_skip(s.skip(1), i - 1);
        assert(s.skip(1).skip(i - 1) =~= s.skip(i));
    } else {
        assert(s.skip(0) =~= s);
    }
}

/// `trim_end(s)` equals the prefix of `s` up to the last non-whitespace.
pub proof fn lemma_trim_end_take(s: Seq<char>, j: int)
    requires
        0 <= j <= s.len(),
        forall|k: int| j <= k < s.len() ==> is_ws(s[k]),
    ensures
        trim_end(s) == trim_end(s.take(j)),
    decreases s.len() - j,
{
    if j < s.len() {
        assert(s.drop_last().take(j) =~= s.take(j));
        lemma_trim_end_take(s.drop_last(), j);
    } else {
        assert(s.take(j) =~= s);
    }
}

/// Index of the first non-whitespace character of `s[from..to]`, or `to`.
fn skip_ws_forward(s: &Vec<char>, from: usize, to: usize) -> (i: usize)
    requires
        from <= to <= s.len(),
    ensures
        from <= i <= to,
        forall|k: int| from <= k < i ==> is_ws(s@[k]),
        i < to ==> !is_ws(s@[i as int]),
{
    let mut i = from;
    while i < to && is_ws_exec(s[i])
        invariant
            from <= i <= to <= s.len(),
            forall|k: int| from <= k < i ==> is_ws(s@[k]),
        decreases to - i,
    {
        i = i + 1;
    }
    i
}

/// One past the last non-whitespace character of `s[from..to]`, or `from`.
fn skip_ws_backward(s: &Vec<char>, from: usize, to: usize) -> (j: usize)
    requires
        from <= to <= s.len(),
    ensures
        from <= j <= to,
        forall|k: int| j <= k < to ==> is_ws(s@[k]),
        j > from ==> !is_ws(s@[j - 1]),
{
    let mut j = to;
    while j > from && is_ws_exec(s[j - 1])
        invariant
            from <= j <= to <= s.len(),
            forall|k: int| j <= k < to ==> is_ws(s@[k]),
        decreases j,
    {
        j = j - 1;
    }
    j
}

/// `s` without leading whitespace.
pub fn trim_start_exec(s: &Vec<char>) -> (r: Vec<char>)
    ensures
        r@ == trim_start(s@),
{
    let i = skip_ws_forward(s, 0, s.len());
    let r = slice_chars(s, i, s.len());
    proof {
        lemma_trim_start_skip(s@, i as int);
        assert(s@.skip(i as int) =~= r@);
        if i < s.len() {
            assert(trim_start(r@) == r@);
        }
    }
    r
}

/// `s` without trailing whitespace.
pub fn trim_end_exec(s: &Vec<char>) -> (r: Vec<char>)
    ensures
        r@ == trim_end(s@),
{
    let j = skip_ws_backward(s, 0, s.len());
    let r = slice_chars(s, 0, j);
    proof {
        lemma_trim_end_take(s@, j as int);
        assert(s@.take(j as int) =~= r@);
        if j > 0 {
            assert(r@.last() == s@[j - 1]);
        }
    }
    r
}

/// `s` without leading and trailing whitespace.
pub fn trim_exec(s: &Vec<char>) -> (r: Vec<char>)
    ensures
        r@ == trim(s@),
{
    let a = trim_start_exec(s);
    trim_end_exec(&a)
}

/// The decimal digit character for `d < 10`.
fn digit_exec(d: u64) -> (c: char)
    requires
        d < 10,
    ensures
        c == digit(d as nat),
{
    let b = (d as u8) + 48;
    b as char
}

/// Decimal representation of `n`.
pub fn decimal_exec(n: u64) -> (r: Vec<char>)
    ensures
        r@ == decimal(n as nat),
    decreases n,
{
    if n < 10 {
        let mut r = Vec::new();
        r.push(digit_exec(n));
        assert(r@ =~= seq![digit(n as nat)]);
        r
    } else {
        let mut r = decimal_exec(n / 10);
        r.push(digit_exec(n % 10));
        r
    }
}

/// Decimal representation of `i`, with a leading `-` when negative.
pub fn signed_decimal_exec(i: i64) -> (r: Vec<char>)
    ensures
        r@ == signed_decimal(i as int),
{
    if i < 0 {
        let m: u64 = if i == i64::MIN {
            9223372036854775808u64
        } else {
            (-i) as u64
        };
        let mut r = Vec::new();
        r.push('-');
        let d = decimal_exec(m);
        push_chars(&mut r, &d);
        assert(r@ =~= seq!['-'] + d@);
        r
    } else {
        decimal_exec(i as u64)
    }
}

/// `s` with every non-overlapping occurrence of `p` removed, scanning left
/// to right.
pub fn remove_all_exec(s: &Vec<char>, p: &Vec<char>) -> (r: Vec<char>)
    ensures
        r@ == remove_all(s@, p@),
{
    if p.len() == 0 {
        let c = slice_chars(s, 0, s.len());
        assert(c@ =~= s@);
        return c;
    }
    let mut r: Vec<char> = Vec::new();
    let mut i: usize = 0;
    assert(s@.skip(0) =~= s@);
    while i < s.len()
        invariant
            i <= s.len(),
            p@.len() > 0,
            r@ + remove_all(s@.skip(i as int), p@) == remove_all(s@, p@),
        decreases s.len() - i,
    {
        let ghost rest = s@.skip(i as int);
        if occurs_at_exec(s, p, i) {
            proof {
                assert(rest.take(p@.len() as int) =~= s@.subrange(i as int, i + p@.len()));
                assert(rest.skip(p@.len() as int) =~= s@.skip(i + p@.len()));
            }
            i = i + p.len();
        } else {
            proof {
                if rest.len() >= p@.len() {
                    assert(rest.take(p@.len() as int) =~= s@.subrange(i as int, i + p@.len()));
                } else {
                    assert(rest.skip(1) =~= s@.skip(i + 1));
                    assert(rest.len() < p@.len());
                }
                assert(rest.skip(1) =~= s@.skip(i + 1));
            }
            let ghost before = r@;
            r.push(s[i]);
            proof {
                if rest.len() < p@.len() {
                    // Too short for the pattern: the rest is kept verbatim.
                    lemma_remove_all_short(rest, p@);
                    lemma_remove_all_short(rest.skip(1), p@);
                    assert(rest =~= seq![rest[0]] + rest.skip(1));
                }
                assert(before + remove_all(rest, p@) =~= r@ + remove_all(s@.skip(i + 1), p@));
            }
            i = i + 1;
        }
    }
    assert(s@.skip(i as int) =~= Seq::<char>::empty());
    assert(r@ + Seq::<char>::empty() =~= r@);
    r
}

/// A string shorter than the pattern is left as is.
pub proof fn lemma_remove_all_short(s: Seq<char>, p: Seq<char>)
    requires
        s.len() < p.len(),
    ensures
        remove_all(s, p) == s,
{
}

/// `s` with every `c` replaced by `r`.
pub fn replace_char_exec(s: &Vec<char>, c: char, rep: &Vec<char>) -> (r: Vec<char>)
    ensures
        r@ == replace_char(s@, c, rep@),
{
    let mut r: Vec<char> = Vec::new();
    let mut i: usize = 0;
    assert(s@.skip(0) =~= s@);
    while i < s.len()
        invariant
            i <= s.len(),
            r@ + replace_char(s@.skip(i as int), c, rep@) == replace_char(s@, c, rep@),
        decreases s.len() - i,
    {
        let ghost rest = s@.skip(i as int);
        assert(rest.skip(1) =~= s@.skip(i + 1));
        if s[i] == c {
            push_chars(&mut r, rep);
        } else {
            r.push(s[i]);
        }
        i = i + 1;
    }
    assert(s@.skip(i as int) =~= Seq::<char>::empty());
    assert(r@ + Seq::<char>::empty() =~= r@);
    r
}

/// The views of a sequence of strings.
pub open spec fn strings_view(v: Seq<String>) -> Seq<Seq<char>> {
    v.map_values(|s: String| s@)
}

/// The items separated by `sep` (`[String]::join`).
pub open spec fn join(items: Seq<Seq<char>>, sep: Seq<char>) -> Seq<char>
    decreases items.len(),
{
    if items.len() == 0 {
        Seq::<char>::empty()
    } else if items.len() == 1 {
        items[0]
    } else {
        join(items.drop_last(), sep) + sep + items.last()
    }
}

/// Appends the items of `v[from..to]`, separated by `sep`, to `out`.
pub fn push_joined(out: &mut Vec<char>, v: &Vec<String>, from: usize, to: usize, sep: &str)
    requires
        from <= to <= v.len(),
    ensures
        final(out)@ == old(out)@ + join(strings_view(v@.subrange(from as int, to as int)), sep@),
{
    let ghost start = out@;
    if from == to {
        assert(strings_view(v@.subrange(from as int, to as int)).len() == 0);
        assert(out@ =~= start + Seq::<char>::empty());
        return;
    }
    push_str(out, v[from].as_str());
    let mut i = from + 1;
    assert(strings_view(v@.subrange(from as int, i as int)) =~= seq![v@[from as int]@]);
    while i < to
        invariant
            from < i <= to <= v.len(),
            out@ == start + join(strings_view(v@.subrange(from as int, i as int)), sep@),
        decreases to - i,
    {
        push_str(out, sep);
        push_str(out, v[i].as_str());
        let ghost prev = strings_view(v@.subrange(from as int, i as int));
        i = i + 1;
        let ghost cur = strings_view(v@.subrange(from as int, i as int));
        assert(cur.drop_last() =~= prev);
        assert(cur.last() == v@[i - 1]@);
        assert(out@ =~= start + (join(prev, sep@) + sep@ + v@[i - 1]@));
    }
}

} // verus!
