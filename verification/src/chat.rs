//! Conversation logic: assistant-content sanitising, per-model capability
//! filtering, error classification, message routing and history
//! bookkeeping.
use vstd::prelude::*;
use crate::json::{get_str, json_from_str, json_parse, member_str};
use crate::store::KeyedStore;
use crate::text::{
    chars_of, contains, contains_exec, occurs_at, embeds, is_subseq, lemma_remove_all_subseq,
    lemma_subseq_refl, lemma_subseq_trans, contains_str, decimal, decimal_exec, lemma_remove_all_absent,
    lower, lower_char, lower_exec, push_chars, push_str, remove_all, remove_all_exec, slice_chars, starts_with,
    starts_with_str, string_of, trim, trim_exec, trim_start, trim_start_exec,
};

verus! {

broadcast use vstd::string::group_string_axioms;

// ─── Sanitising assistant content ─────────────────────────────────────────

/// Number of special turn-boundary tokens stripped from assistant content.
pub const STRIP_PATTERN_COUNT: usize = 17;

/// The `i`-th special turn-boundary token, in stripping order.
pub open spec fn strip_pattern_spec(i: int) -> Seq<char> {
    if i == 0 { "<|im_start|>"@ }
    else if i == 1 { "<|im_end|>"@ }
    else if i == 2 { "<|begin_of_text|>"@ }
    else if i == 3 { "<|end_of_text|>"@ }
    else if i == 4 { "<|start_header_id|>"@ }
    else if i == 5 { "<|end_header_id|>"@ }
    else if i == 6 { "<|eot_id|>"@ }
    else if i == 7 { "[INST]"@ }
    else if i == 8 { "[/INST]"@ }
    else if i == 9 { "<start_of_turn>"@ }
    else if i == 10 { "<end_of_turn>"@ }
    else if i == 11 { "<|endoftext|>"@ }
    else if i == 12 { "<|user|>"@ }
    else if i == 13 { "<|assistant|>"@ }
    else if i == 14 { "<|system|>"@ }
    else if i == 15 { "<think>"@ }
    else { "</think>"@ }
}

/// The `i`-th special turn-boundary token leaked by some fine-tunes into
/// `message.content`; stripped before assistant replies are persisted.
pub fn strip_pattern(i: usize) -> (p: &'static str)
    requires
        i < STRIP_PATTERN_COUNT,
    ensures
        p@ == strip_pattern_spec(i as int),
{
    match i {
        0 => "<|im_start|>",
        1 => "<|im_end|>",
        2 => "<|begin_of_text|>",
        3 => "<|end_of_text|>",
        4 => "<|start_header_id|>",
        5 => "<|end_header_id|>",
        6 => "<|eot_id|>",
        7 => "[INST]",
        8 => "[/INST]",
        9 => "<start_of_turn>",
        10 => "<end_of_turn>",
        11 => "<|endoftext|>",
        12 => "<|user|>",
        13 => "<|assistant|>",
        14 => "<|system|>",
        15 => "<think>",
        _ => "</think>",
    }
}

/// `s` after removing the first `n` patterns, one after the other.
pub open spec fn strip_patterns_upto(s: Seq<char>, n: nat) -> Seq<char>
    decreases n,
{
    if n == 0 {
        s
    } else {
        remove_all(strip_patterns_upto(s, (n - 1) as nat), strip_pattern_spec(n - 1))
    }
}

/// ASCII control characters other than `\n`, `\t` and `\r`.
pub open spec fn is_unsafe_control(c: char) -> bool {
    (c as u32) <= 0x1F && c != '\n' && c != '\t' && c != '\r'
}

/// `s` without its unsafe control characters.
pub open spec fn drop_unsafe(s: Seq<char>) -> Seq<char>
    decreases s.len(),
{
    if s.len() == 0 {
        s
    } else if is_unsafe_control(s.last()) {
        drop_unsafe(s.drop_last())
    } else {
        drop_unsafe(s.drop_last()).push(s.last())
    }
}

/// One stripping pass: every special token removed, in order.
pub open spec fn strip_pass(s: Seq<char>) -> Seq<char> {
    strip_patterns_upto(s, STRIP_PATTERN_COUNT as nat)
}

/// `s` after stripping passes repeated until a pass removes nothing.
pub open spec fn strip_until_stable(s: Seq<char>) -> Seq<char>
    decreases s.len(),
{
    if strip_pass(s).len() < s.len() {
        strip_until_stable(strip_pass(s))
    } else {
        s
    }
}

/// What `sanitize_assistant_content` makes of `s`: unsafe control
/// characters dropped, then special tokens stripped until none is left.
pub open spec fn sanitized(s: Seq<char>) -> Seq<char> {
    strip_until_stable(drop_unsafe(s))
}

/// True for ASCII control characters in `0x00..=0x1F` except the three
/// whitespace controls that are rendered (`\n`, `\t`, `\r`).
pub fn is_unsafe_control_char(c: char) -> (b: bool)
    ensures
        b == is_unsafe_control(c),
{
    let code = c as u32;
    code <= 0x1F && c != '\n' && c != '\t' && c != '\r'
}

/// `drop_unsafe` keeps exactly the safe characters.
pub proof fn lemma_drop_unsafe_clean(s: Seq<char>)
    ensures
        forall|i: int| 0 <= i < drop_unsafe(s).len() ==> !is_unsafe_control(#[trigger] drop_unsafe(s)[i]),
        (forall|i: int| 0 <= i < s.len() ==> !is_unsafe_control(#[trigger] s[i])) ==> drop_unsafe(s) == s,
    decreases s.len(),
{
    if s.len() > 0 {
        lemma_drop_unsafe_clean(s.drop_last());
        let d = drop_unsafe(s.drop_last());
        if !is_unsafe_control(s.last()) {
            assert forall|i: int| 0 <= i < d.push(s.last()).len() implies !is_unsafe_control(
                #[trigger] d.push(s.last())[i],
            ) by {
                if i < d.len() {
                    assert(d.push(s.last())[i] == d[i]);
                }
            }
        }
        if forall|i: int| 0 <= i < s.len() ==> !is_unsafe_control(#[trigger] s[i]) {
            assert forall|i: int| 0 <= i < s.drop_last().len() implies !is_unsafe_control(
                #[trigger] s.drop_last()[i],
            ) by {
                assert(s.drop_last()[i] == s[i]);
            }
            assert(s.drop_last().push(s.last()) =~= s);
        }
    }
}

/// Removing a pattern never lengthens the text; a removal that keeps the
/// length removed nothing, and then the pattern does not occur.
pub proof fn lemma_remove_all_len(s: Seq<char>, p: Seq<char>)
    ensures
        remove_all(s, p).len() <= s.len(),
        remove_all(s, p).len() == s.len() ==> remove_all(s, p) == s,
        remove_all(s, p).len() == s.len() && p.len() > 0 ==> !contains(s, p),
        (forall|i: int| 0 <= i < s.len() ==> !is_unsafe_control(#[trigger] s[i])) ==> (forall|i: int|
            0 <= i < remove_all(s, p).len() ==> !is_unsafe_control(#[trigger] remove_all(s, p)[i])),
    decreases s.len(),
{
    if p.len() == 0 || s.len() < p.len() {
        if p.len() > 0 {
            assert forall|i: int| !#[trigger] occurs_at(s, p, i) by {}
        }
    } else if s.take(p.len() as int) == p {
        lemma_remove_all_len(s.skip(p.len() as int), p);
        if forall|i: int| 0 <= i < s.len() ==> !is_unsafe_control(#[trigger] s[i]) {
            assert forall|i: int| 0 <= i < s.skip(p.len() as int).len() implies !is_unsafe_control(
                #[trigger] s.skip(p.len() as int)[i],
            ) by {
                assert(s.skip(p.len() as int)[i] == s[i + p.len()]);
            }
        }
    } else {
        let t = s.skip(1);
        lemma_remove_all_len(t, p);
        let r = remove_all(s, p);
        assert(r == seq![s[0]] + remove_all(t, p));
        if r.len() == s.len() {
            assert(s =~= seq![s[0]] + t);
            assert forall|i: int| !#[trigger] occurs_at(s, p, i) by {
                if i == 0 {
                    assert(s.subrange(0, p.len() as int) =~= s.take(p.len() as int));
                } else if occurs_at(s, p, i) {
                    crate::text::lemma_occurs_skip(s, p, i, 1);
                    assert(occurs_at(t, p, i - 1));
                }
            }
        }
        if forall|i: int| 0 <= i < s.len() ==> !is_unsafe_control(#[trigger] s[i]) {
            assert forall|i: int| 0 <= i < t.len() implies !is_unsafe_control(#[trigger] t[i]) by {
                assert(t[i] == s[i + 1]);
            }
            assert forall|i: int| 0 <= i < r.len() implies !is_unsafe_control(#[trigger] r[i]) by {
                if i > 0 {
                    assert(r[i] == remove_all(t, p)[i - 1]);
                }
            }
        }
    }
}

/// Stripping the first `n` tokens never lengthens the text; when it
/// keeps the length, nothing was removed and none of those tokens occurs.
/// It keeps text free of unsafe control characters.
pub proof fn lemma_strip_upto_len(s: Seq<char>, n: nat)
    requires
        n <= STRIP_PATTERN_COUNT,
    ensures
        strip_patterns_upto(s, n).len() <= s.len(),
        strip_patterns_upto(s, n).len() == s.len() ==> strip_patterns_upto(s, n) == s,
        strip_patterns_upto(s, n).len() == s.len() ==> forall|k: int|
            0 <= k < n ==> !contains(s, #[trigger] strip_pattern_spec(k)),
        (forall|i: int| 0 <= i < s.len() ==> !is_unsafe_control(#[trigger] s[i])) ==> (forall|i: int|
            0 <= i < strip_patterns_upto(s, n).len() ==> !is_unsafe_control(
                #[trigger] strip_patterns_upto(s, n)[i],
            )),
    decreases n,
{
    if n > 0 {
        lemma_strip_upto_len(s, (n - 1) as nat);
        let t = strip_patterns_upto(s, (n - 1) as nat);
        let p = strip_pattern_spec(n - 1);
        reveal_strlit("<|im_start|>");
        reveal_strlit("<|im_end|>");
        reveal_strlit("<|begin_of_text|>");
        reveal_strlit("<|end_of_text|>");
        reveal_strlit("<|start_header_id|>");
        reveal_strlit("<|end_header_id|>");
        reveal_strlit("<|eot_id|>");
        reveal_strlit("[INST]");
        reveal_strlit("[/INST]");
        reveal_strlit("<start_of_turn>");
        reveal_strlit("<end_of_turn>");
        reveal_strlit("<|endoftext|>");
        reveal_strlit("<|user|>");
        reveal_strlit("<|assistant|>");
        reveal_strlit("<|system|>");
        reveal_strlit("<think>");
        reveal_strlit("</think>");
        assert(p.len() > 0);
        lemma_remove_all_len(t, p);
    }
}

/// Repeated stripping never lengthens the text, leaves no special token
/// behind, keeps text free of unsafe control characters, and leaves text
/// without tokens as it is.
pub proof fn lemma_strip_until_stable(s: Seq<char>)
    ensures
        strip_until_stable(s).len() <= s.len(),
        forall|k: int| 0 <= k < STRIP_PATTERN_COUNT ==> !contains(strip_until_stable(s), #[trigger] strip_pattern_spec(k)),
        (forall|i: int| 0 <= i < s.len() ==> !is_unsafe_control(#[trigger] s[i])) ==> (forall|i: int|
            0 <= i < strip_until_stable(s).len() ==> !is_unsafe_control(#[trigger] strip_until_stable(s)[i])),
        (forall|k: int| 0 <= k < STRIP_PATTERN_COUNT ==> !contains(s, #[trigger] strip_pattern_spec(k)))
            ==> strip_until_stable(s) == s,
    decreases s.len(),
{
    lemma_strip_upto_len(s, STRIP_PATTERN_COUNT as nat);
    if (forall|k: int| 0 <= k < STRIP_PATTERN_COUNT ==> !contains(s, #[trigger] strip_pattern_spec(k))) {
        lemma_strip_absent(s, STRIP_PATTERN_COUNT as nat);
    }
    if strip_pass(s).len() < s.len() {
        lemma_strip_until_stable(strip_pass(s));
    }
}

/// Drops the unsafe control characters of `s`.
fn drop_unsafe_exec(s: &Vec<char>) -> (r: Vec<char>)
    ensures
        r@ == drop_unsafe(s@),
{
    let mut r: Vec<char> = Vec::new();
    let mut i: usize = 0;
    while i < s.len()
        invariant
            i <= s.len(),
            r@ == drop_unsafe(s@.take(i as int)),
        decreases s.len() - i,
    {
        assert(s@.take(i + 1).drop_last() =~= s@.take(i as int));
        if !is_unsafe_control_char(s[i]) {
            r.push(s[i]);
        }
        i = i + 1;
    }
    assert(s@.take(s.len() as int) =~= s@);
    r
}

/// One stripping pass over `s`.
fn strip_pass_exec(s: &Vec<char>) -> (r: Vec<char>)
    ensures
        r@ == strip_pass(s@),
{
    let mut cur = crate::text::slice_chars(s, 0, s.len());
    assert(cur@ =~= s@);
    let mut k: usize = 0;
    while k < STRIP_PATTERN_COUNT
        invariant
            k <= STRIP_PATTERN_COUNT,
            cur@ == strip_patterns_upto(s@, k as nat),
        decreases STRIP_PATTERN_COUNT - k,
    {
        let p = chars_of(strip_pattern(k));
        cur = remove_all_exec(&cur, &p);
        k = k + 1;
    }
    cur
}

/// Removes the unsafe ASCII control characters, then the special
/// turn-boundary tokens (see [`strip_pattern`]), pass after pass until
/// none is left, from assistant content before it is persisted to
/// history. Whitespace control chars (`\n`, `\t`, `\r`) are preserved so
/// markdown rendering and code blocks survive intact.
pub fn sanitize_assistant_content(input: &str) -> (out: String)
    ensures
        out@ == sanitized(input@),
        forall|i: int| 0 <= i < out@.len() ==> !is_unsafe_control(#[trigger] out@[i]),
        forall|k: int| 0 <= k < STRIP_PATTERN_COUNT ==> !contains(out@, #[trigger] strip_pattern_spec(k)),
        out@.len() <= input@.len(),
        (forall|k: int| 0 <= k < STRIP_PATTERN_COUNT ==> !contains(input@, #[trigger] strip_pattern_spec(k)))
            && (forall|i: int| 0 <= i < input@.len() ==> !is_unsafe_control(#[trigger] input@[i]))
            ==> out@ == input@,
{
    let mut cur = drop_unsafe_exec(&chars_of(input));
    let ghost d = cur@;
    let mut next = strip_pass_exec(&cur);
    while next.len() < cur.len()
        invariant
            next@ == strip_pass(cur@),
            strip_until_stable(cur@) == strip_until_stable(d),
        decreases cur.len(),
    {
        cur = next;
        next = strip_pass_exec(&cur);
    }
    proof {
        lemma_drop_unsafe_clean(input@);
        lemma_drop_len(input@);
        lemma_strip_until_stable(d);
    }
    string_of(&cur)
}

/// Dropping characters never lengthens the text.
proof fn lemma_drop_len(s: Seq<char>)
    ensures
        drop_unsafe(s).len() <= s.len(),
    decreases s.len(),
{
    if s.len() > 0 {
        lemma_drop_len(s.drop_last());
    }
}

/// Dropping control characters only deletes characters.
proof fn lemma_drop_unsafe_subseq(s: Seq<char>)
    ensures
        is_subseq(drop_unsafe(s), s),
    decreases s.len(),
{
    if s.len() == 0 {
        lemma_subseq_refl(s);
    } else {
        let t = s.drop_last();
        lemma_drop_unsafe_subseq(t);
        let d = drop_unsafe(t);
        let f = choose|f: spec_fn(int) -> int| embeds(d, t, f);
        assert forall|i: int| 0 <= i < d.len() implies 0 <= #[trigger] f(i) < s.len() && d[i] == s[f(i)] by {
            assert(t[f(i)] == s[f(i)]);
        }
        if is_unsafe_control(s.last()) {
            assert(embeds(d, s, f));
        } else {
            let a = d.push(s.last());
            let g = |i: int| if i < d.len() { f(i) } else { s.len() - 1 };
            assert forall|i: int| 0 <= i < a.len() implies 0 <= #[trigger] g(i) < s.len() && a[i] == s[g(i)] by {
                if i < d.len() {
                    assert(a[i] == d[i]);
                }
            }
            assert forall|i: int, j: int| 0 <= i < j < a.len() implies #[trigger] g(i) < #[trigger] g(j) by {
                if j < d.len() {
                    assert(f(i) < f(j));
                } else {
                    assert(f(i) < t.len());
                }
            }
            assert(embeds(a, s, g));
        }
    }
}

/// Stripping tokens only deletes characters.
proof fn lemma_strip_subseq(s: Seq<char>, n: nat)
    ensures
        is_subseq(strip_patterns_upto(s, n), s),
    decreases n,
{
    if n == 0 {
        lemma_subseq_refl(s);
    } else {
        lemma_strip_subseq(s, (n - 1) as nat);
        let t = strip_patterns_upto(s, (n - 1) as nat);
        lemma_remove_all_subseq(t, strip_pattern_spec(n - 1));
        lemma_subseq_trans(strip_patterns_upto(s, n), t, s);
    }
}

/// Repeated stripping only deletes characters.
proof fn lemma_strip_until_stable_subseq(s: Seq<char>)
    ensures
        is_subseq(strip_until_stable(s), s),
    decreases s.len(),
{
    if strip_pass(s).len() < s.len() {
        lemma_strip_until_stable_subseq(strip_pass(s));
        lemma_strip_subseq(s, STRIP_PATTERN_COUNT as nat);
        lemma_subseq_trans(strip_until_stable(s), strip_pass(s), s);
    } else {
        lemma_subseq_refl(s);
    }
}

/// Sanitising only deletes characters: the stored text is the reply
/// with some characters removed, in order.
pub proof fn law_sanitize_only_deletes(s: Seq<char>)
    ensures
        is_subseq(sanitized(s), s),
{
    lemma_drop_unsafe_subseq(s);
    lemma_strip_until_stable_subseq(drop_unsafe(s));
    lemma_subseq_trans(sanitized(s), drop_unsafe(s), s);
}

/// Stripping patterns that never occur leaves the text unchanged.
pub proof fn lemma_strip_absent(s: Seq<char>, n: nat)
    requires
        n <= STRIP_PATTERN_COUNT,
        forall|k: int| 0 <= k < STRIP_PATTERN_COUNT ==> !contains(s, #[trigger] strip_pattern_spec(k)),
    ensures
        strip_patterns_upto(s, n) == s,
    decreases n,
{
    if n > 0 {
        lemma_strip_absent(s, (n - 1) as nat);
        lemma_remove_all_absent(s, strip_pattern_spec(n - 1));
    }
}

/// Sanitising leaves neither an unsafe control character nor a special
/// token behind, never lengthens the text, and text that holds no special
/// token and no unsafe control character passes through unchanged.
pub proof fn law_sanitize_clean(s: Seq<char>)
    ensures
        forall|i: int| 0 <= i < sanitized(s).len() ==> !is_unsafe_control(#[trigger] sanitized(s)[i]),
        forall|k: int| 0 <= k < STRIP_PATTERN_COUNT ==> !contains(sanitized(s), #[trigger] strip_pattern_spec(k)),
        sanitized(s).len() <= s.len(),
        (forall|k: int| 0 <= k < STRIP_PATTERN_COUNT ==> !contains(s, #[trigger] strip_pattern_spec(k)))
            && (forall|i: int| 0 <= i < s.len() ==> !is_unsafe_control(#[trigger] s[i]))
            ==> sanitized(s) == s,
{
    lemma_drop_unsafe_clean(s);
    lemma_drop_len(s);
    lemma_strip_until_stable(drop_unsafe(s));
}


// ─── Messages and per-model capability filtering ──────────────────────────

/// A single message in the Ollama `/api/chat` conversation format. The
/// optional `images` field carries base64-encoded image data for
/// multimodal models; when absent the message is text-only.
#[derive(Clone, Debug)]
pub struct ChatMessage {
    pub role: String,
    pub content: String,
    pub images: Option<Vec<String>>,
}

/// What the active model can consume.
#[derive(Clone, Copy, Debug, PartialEq, Eq)]
pub struct Capabilities {
    /// The model accepts images at all.
    pub vision: bool,
    /// The model can emit a separate reasoning stream.
    pub thinking: bool,
    /// Per-message image cap of a vision model; `None` means unbounded.
    pub max_images: Option<u32>,
}

/// Counts of items stripped by [`apply_capability_filter`].
#[derive(Clone, Copy, Debug, Default, PartialEq, Eq)]
pub struct FilterStats {
    /// Total images dropped across every message in the snapshot.
    pub stripped_images: usize,
}

/// Number of images the filter drops from message `m`.
pub open spec fn dropped_images(m: ChatMessage, caps: Capabilities) -> nat {
    match m.images {
        None => 0,
        Some(v) => if !caps.vision {
            v@.len()
        } else {
            match caps.max_images {
                Some(mx) => if v@.len() > mx { (v@.len() - mx) as nat } else { 0 },
                None => 0,
            }
        },
    }
}

/// `after` is what the filter makes of `before`: text untouched, images
/// removed for a non-vision model and cut to the first `max_images`
/// otherwise.
pub open spec fn filtered_message(before: ChatMessage, after: ChatMessage, caps: Capabilities) -> bool {
    &&& after.role == before.role
    &&& after.content == before.content
    &&& match before.images {
        None => after.images is None,
        Some(v) => if !caps.vision {
            after.images is None
        } else {
            match caps.max_images {
                Some(mx) => if v@.len() > mx {
                    after.images matches Some(w) && w@ == v@.take(mx as int)
                } else {
                    after.images == before.images
                },
                None => after.images == before.images,
            }
        },
    }
}

/// The filter is idempotent: a message it produced goes through it again
/// unchanged, with no image dropped, and holds no more images than the
/// model accepts.
pub proof fn law_filter_idempotent(before: ChatMessage, after: ChatMessage, caps: Capabilities)
    requires
        filtered_message(before, after, caps),
    ensures
        filtered_message(after, after, caps),
        dropped_images(after, caps) == 0,
        after.images matches Some(w) ==> caps.vision && (caps.max_images matches Some(mx) ==> w@.len() <= mx),
{
}

/// Images dropped across all of `ms`.
pub open spec fn total_dropped(ms: Seq<ChatMessage>, caps: Capabilities) -> nat
    decreases ms.len(),
{
    if ms.len() == 0 {
        0
    } else {
        total_dropped(ms.drop_last(), caps) + dropped_images(ms.last(), caps)
    }
}

/// The total over a prefix never exceeds the total over the whole.
pub proof fn lemma_total_dropped_prefix(ms: Seq<ChatMessage>, caps: Capabilities, i: int)
    requires
        0 <= i <= ms.len(),
    ensures
        total_dropped(ms.take(i), caps) <= total_dropped(ms, caps),
    decreases ms.len() - i,
{
    if i < ms.len() {
        lemma_total_dropped_prefix(ms, caps, i + 1);
        assert(ms.take(i + 1).drop_last() =~= ms.take(i));
    } else {
        assert(ms.take(i) =~= ms);
    }
}

/// Per-request filter that aligns a snapshot of conversation history with
/// what the active model can consume: strips images for non-vision models
/// and keeps the first `max_images` images per message for capped vision
/// models. Text is never touched.
pub fn apply_capability_filter(messages: &mut [ChatMessage], caps: &Capabilities) -> (stats: FilterStats)
    requires
        total_dropped(old(messages)@, *caps) <= usize::MAX,
    ensures
        final(messages)@.len() == old(messages)@.len(),
        forall|i: int| 0 <= i < old(messages)@.len() ==> filtered_message(
            #[trigger] old(messages)@[i], final(messages)@[i], *caps),
        stats.stripped_images == total_dropped(old(messages)@, *caps),
{
    let ghost orig = messages@;
    let mut stats = FilterStats { stripped_images: 0 };
    let mut i: usize = 0;
    while i < messages.len()
        invariant
            i <= messages@.len(),
            messages@.len() == orig.len(),
            total_dropped(orig, *caps) <= usize::MAX,
            forall|j: int| 0 <= j < i ==> filtered_message(#[trigger] orig[j], messages@[j], *caps),
            forall|j: int| i <= j < messages@.len() ==> messages@[j] == orig[j],
            stats.stripped_images == total_dropped(orig.take(i as int), *caps),
        decreases messages@.len() - i,
    {
        proof {
            assert(orig.take(i + 1).drop_last() =~= orig.take(i as int));
            lemma_total_dropped_prefix(orig, *caps, i + 1);
        }
        let taken = messages[i].images.take();
        match taken {
            None => {},
            Some(mut imgs) => {
                if !caps.vision {
                    stats.stripped_images = stats.stripped_images + imgs.len();
                } else {
                    match caps.max_images {
                        Some(mx) => {
                            let max = mx as usize;
                            if imgs.len() > max {
                                let dropped = imgs.len() - max;
                                imgs.truncate(max);
                                stats.stripped_images = stats.stripped_images + dropped;
                            }
                        },
                        None => {},
                    }
                    messages[i].images = Some(imgs);
                }
            },
        }
        i = i + 1;
    }
    proof {
        assert(orig.take(i as int) =~= orig);
    }
    stats
}

// ─── Error classification ─────────────────────────────────────────────────

/// Classifies the kind of error returned from the Ollama backend. Used by
/// the frontend to pick accent bar color and display copy.
#[derive(Clone, Copy, Debug, PartialEq, Eq, Structural)]
pub enum OllamaErrorKind {
    /// Ollama process is not running (connection refused / timeout).
    NotRunning,
    /// The requested model has not been pulled yet (HTTP 404).
    ModelNotFound,
    /// No active model has been selected.
    NoModelSelected,
    /// Any other unexpected error.
    Other,
}

/// Structured error emitted over the streaming channel. The first line of
/// `message` is the title, the remainder is the subtitle.
#[derive(Clone, Debug)]
pub struct OllamaError {
    pub kind: OllamaErrorKind,
    pub message: String,
}

/// Builds the structured error returned when no active model is selected.
pub fn no_model_selected_error() -> (e: OllamaError)
    ensures
        e.kind == OllamaErrorKind::NoModelSelected,
        e.message@ == "No model selected\nPick a model in the picker."@,
{
    OllamaError {
        kind: OllamaErrorKind::NoModelSelected,
        message: owned_str("No model selected\nPick a model in the picker."),
    }
}

/// A `String` holding the characters of `s`.
fn owned_str(s: &str) -> (r: String)
    ensures
        r@ == s@,
{
    crate::text::owned(s)
}

/// The string stored under `key` when `text` is a JSON document whose top
/// level is an object holding a string at `key`; `None` otherwise (not
/// JSON, not an object, key missing, or not a string).
pub open spec fn json_string_field(text: Seq<char>, key: Seq<char>) -> Option<Seq<char>> {
    match json_parse(text) {
        Some(v) => member_str(v, key),
        None => None,
    }
}

/// Parses `text` as JSON and reads the string at its top-level `key`.
pub(crate) fn json_string_field_exec(text: &str, key: &str) -> (r: Option<String>)
    ensures
        r matches Some(s) ==> json_string_field(text@, key@) == Some(s@),
        r is None ==> json_string_field(text@, key@) is None,
{
    match json_from_str(text) {
        Some(v) => get_str(&v, key),
        None => None,
    }
}

/// What `extract_ollama_error_message` makes of a response body.
pub open spec fn ollama_error_message(body: Seq<char>) -> Option<Seq<char>> {
    let t = trim(body);
    if t.len() == 0 {
        None
    } else {
        error_field_message(json_string_field(t, "error"@))
    }
}

/// The reason carried by an `error` field: its trimmed text, unless blank.
pub open spec fn error_field_message(field: Option<Seq<char>>) -> Option<Seq<char>> {
    match field {
        Some(e) => if trim(e).len() == 0 { None } else { Some(trim(e)) },
        None => None,
    }
}

/// The reason carried by the `error` field of an Ollama error payload,
/// once read: trimmed, `None` when absent or blank.
pub fn error_from_field(field: Option<String>) -> (r: Option<String>)
    ensures
        r matches Some(s) ==> error_field_message(match field { Some(e) => Some(e@), None => None }) == Some(s@),
        r is None ==> error_field_message(match field { Some(e) => Some(e@), None => None }) is None,
{
    match field {
        Some(e) => {
            let ev = chars_of(e.as_str());
            let et = trim_exec(&ev);
            if et.len() == 0 {
                None
            } else {
                Some(string_of(&et))
            }
        },
        None => None,
    }
}

/// Pulls the human-readable reason out of an Ollama error payload
/// (`{"error":"..."}`); `None` when the body is empty, malformed, or the
/// `error` string is missing or blank.
pub fn extract_ollama_error_message(body: &str) -> (r: Option<String>)
    ensures
        r matches Some(s) ==> ollama_error_message(body@) == Some(s@),
        r is None ==> ollama_error_message(body@) is None,
{
    let bv = chars_of(body);
    let t = trim_exec(&bv);
    if t.len() == 0 {
        return None;
    }
    let ts = string_of(&t);
    error_from_field(json_string_field_exec(ts.as_str(), "error"))
}

/// Whether a (lowercased) response body speaks of images or vision.
pub open spec fn mentions_image_or_vision(body: Seq<char>) -> bool {
    contains(lower(body), "image"@) || contains(lower(body), "vision"@)
}

/// The message `classify_http_error` produces for a status and body.
pub open spec fn http_error_message(status: u16, model: Seq<char>, body: Seq<char>) -> Seq<char> {
    if status == 404 {
        "Model not found\nRun: ollama pull "@ + model + " in a terminal."@
    } else {
        let detail = match ollama_error_message(body) {
            Some(d) => d,
            None => "HTTP "@ + decimal(status as nat),
        };
        "Something went wrong\n"@ + detail + if mentions_image_or_vision(body) {
            "\nTry switching to a vision model from the picker chip."@
        } else {
            Seq::<char>::empty()
        }
    }
}

/// Maps an HTTP status code plus the response body to a user-facing
/// `OllamaError`: 404 names the model to pull; any other status surfaces
/// Ollama's own reason (or the bare status) and points at the picker when
/// the body speaks of images or vision.
pub fn classify_http_error(status: u16, model_name: &str, body: &str) -> (e: OllamaError)
    ensures
        e.kind == (if status == 404 { OllamaErrorKind::ModelNotFound } else { OllamaErrorKind::Other }),
        e.message@ == http_error_message(status, model_name@, body@),
{
    let mut out: Vec<char> = Vec::new();
    if status == 404 {
        push_str(&mut out, "Model not found\nRun: ollama pull ");
        push_str(&mut out, model_name);
        push_str(&mut out, " in a terminal.");
        return OllamaError { kind: OllamaErrorKind::ModelNotFound, message: string_of(&out) };
    }
    push_str(&mut out, "Something went wrong\n");
    match extract_ollama_error_message(body) {
        Some(d) => push_str(&mut out, d.as_str()),
        None => {
            push_str(&mut out, "HTTP ");
            let digits = decimal_exec(status as u64);
            push_chars(&mut out, &digits);
        },
    }
    let lowered = lower_exec(&chars_of(body));
    let mentions = contains_str(&lowered, "image") || contains_str(&lowered, "vision");
    if mentions {
        push_str(&mut out, "\nTry switching to a vision model from the picker chip.");
    }
    let ghost detail = match ollama_error_message(body@) {
        Some(d) => d,
        None => "HTTP "@ + decimal(status as nat),
    };
    assert(out@ =~= http_error_message(status, model_name@, body@));
    OllamaError { kind: OllamaErrorKind::Other, message: string_of(&out) }
}

/// `p` occurs in `s` at position `i`, each of its letters written in
/// either case: the same character, or the ASCII capital of a small letter
/// (32 code points below it).
pub open spec fn occurs_at_any_case(s: Seq<char>, p: Seq<char>, i: int) -> bool {
    &&& 0 <= i
    &&& i + p.len() <= s.len()
    &&& forall|k: int| 0 <= k < p.len() ==> (#[trigger] s[i + k] == p[k] || (s[i + k] as u32) + 32 == (p[k] as u32))
}

/// `p` occurs somewhere in `s`, each letter in either case.
pub open spec fn contains_any_case(s: Seq<char>, p: Seq<char>) -> bool {
    exists|i: int| #[trigger] occurs_at_any_case(s, p, i)
}

/// ASCII lowercasing turns `c` into the small letter `l` exactly when `c`
/// is `l` or its capital.
proof fn lemma_lower_char_to_letter(c: char, l: char)
    requires
        'a' <= l <= 'z',
    ensures
        (lower_char(c) == l) == (c == l || (c as u32) + 32 == (l as u32)),
{
    if 'A' <= c && c <= 'Z' {
        assert((((c as u32) + 32) as char) as u32 == (c as u32) + 32);
    }
}

/// Searching the lowercased text for a word of small letters is a search
/// of the text for the word in any case.
proof fn lemma_lower_contains_any_case(s: Seq<char>, p: Seq<char>)
    requires
        forall|k: int| 0 <= k < p.len() ==> 'a' <= #[trigger] p[k] <= 'z',
    ensures
        contains(lower(s), p) == contains_any_case(s, p),
{
    assert forall|i: int| occurs_at(lower(s), p, i) == occurs_at_any_case(s, p, i) by {
        if 0 <= i && i + p.len() <= s.len() {
            assert forall|k: int| 0 <= k < p.len() implies (lower(s)[i + k] == p[k]) == (#[trigger] s[i + k] == p[k]
                || (s[i + k] as u32) + 32 == (p[k] as u32)) by {
                lemma_lower_char_to_letter(s[i + k], p[k]);
            }
            if occurs_at(lower(s), p, i) {
                assert forall|k: int| 0 <= k < p.len() implies (#[trigger] s[i + k] == p[k] || (s[i + k] as u32) + 32
                    == (p[k] as u32)) by {
                    assert(lower(s).subrange(i, i + p.len())[k] == p[k]);
                }
            }
            if occurs_at_any_case(s, p, i) {
                assert forall|k: int| 0 <= k < p.len() implies #[trigger] lower(s).subrange(i, i + p.len())[k] == p[k] by {
                    assert(s[i + k] == p[k] || (s[i + k] as u32) + 32 == (p[k] as u32));
                    lemma_lower_char_to_letter(s[i + k], p[k]);
                }
                assert(lower(s).subrange(i, i + p.len()) =~= p);
            }
        }
    }
    if contains(lower(s), p) {
        let i = choose|i: int| #[trigger] occurs_at(lower(s), p, i);
        assert(occurs_at_any_case(s, p, i));
    }
    if contains_any_case(s, p) {
        let i = choose|i: int| #[trigger] occurs_at_any_case(s, p, i);
        assert(occurs_at(lower(s), p, i));
    }
}

/// The picker hint follows the body's wording in any letter case: for a
/// status other than 404 the message is `Something went wrong`, Ollama's
/// reason (or the bare status), and the hint to switch to a vision model
/// exactly when the body contains `image` or `vision` written in any mix
/// of capitals and small letters.
pub proof fn law_vision_hint_any_case(status: u16, model: Seq<char>, body: Seq<char>)
    requires
        status != 404,
    ensures
        http_error_message(status, model, body) == "Something went wrong\n"@ + (match ollama_error_message(body) {
            Some(d) => d,
            None => "HTTP "@ + decimal(status as nat),
        }) + (if contains_any_case(body, "image"@) || contains_any_case(body, "vision"@) {
            "\nTry switching to a vision model from the picker chip."@
        } else {
            Seq::<char>::empty()
        }),
{
    reveal_strlit("image");
    reveal_strlit("vision");
    lemma_lower_contains_any_case(body, "image"@);
    lemma_lower_contains_any_case(body, "vision"@);
}

/// The error shown for a transport failure: connect failures and timeouts
/// mean Ollama is not running; anything else is a generic failure.
pub fn classify_transport_error(is_connect: bool, is_timeout: bool) -> (e: OllamaError)
    ensures
        (is_connect || is_timeout) ==> e.kind == OllamaErrorKind::NotRunning
            && e.message@ == "Ollama isn't running\nStart Ollama and try again."@,
        !(is_connect || is_timeout) ==> e.kind == OllamaErrorKind::Other
            && e.message@ == "Something went wrong\nCould not reach Ollama."@,
{
    if is_connect || is_timeout {
        OllamaError {
            kind: OllamaErrorKind::NotRunning,
            message: owned_str("Ollama isn't running\nStart Ollama and try again."),
        }
    } else {
        OllamaError {
            kind: OllamaErrorKind::Other,
            message: owned_str("Something went wrong\nCould not reach Ollama."),
        }
    }
}

#[verifier::external_type_specification]
#[verifier::external_body]
pub struct ExReqwestError(reqwest::Error);

/// Whether `reqwest::Error::is_connect` holds of `e` (the error came from
/// connecting).
pub uninterp spec fn reqwest_error_connect(e: reqwest::Error) -> bool;

/// Whether `reqwest::Error::is_timeout` holds of `e` (the error is, or
/// comes from, a timeout).
pub uninterp spec fn reqwest_error_timeout(e: reqwest::Error) -> bool;

/// `reqwest::Error::is_connect`.
#[verifier::external_body]
pub(crate) fn reqwest_error_is_connect(e: &reqwest::Error) -> (b: bool)
    ensures
        b == reqwest_error_connect(*e),
{
    e.is_connect()
}

/// `reqwest::Error::is_timeout`.
#[verifier::external_body]
pub(crate) fn reqwest_error_is_timeout(e: &reqwest::Error) -> (b: bool)
    ensures
        b == reqwest_error_timeout(*e),
{
    e.is_timeout()
}

/// Maps a reqwest connection/transport error to a user-facing
/// `OllamaError` (see [`classify_transport_error`]): a connect failure or
/// a timeout means Ollama is not running.
pub fn classify_stream_error(e: &reqwest::Error) -> (r: OllamaError)
    ensures
        (reqwest_error_connect(*e) || reqwest_error_timeout(*e)) ==> r.kind == OllamaErrorKind::NotRunning
            && r.message@ == "Ollama isn't running\nStart Ollama and try again."@,
        !(reqwest_error_connect(*e) || reqwest_error_timeout(*e)) ==> r.kind == OllamaErrorKind::Other
            && r.message@ == "Something went wrong\nCould not reach Ollama."@,
{
    let c = reqwest_error_is_connect(e);
    let t = reqwest_error_is_timeout(e);
    classify_transport_error(c, t)
}


// ─── Streaming payloads ───────────────────────────────────────────────────

/// Description of a tool call awaiting user approval, sent over the
/// streaming channel and rendered as an inline card by the frontend.
#[derive(Clone, Debug)]
pub struct ToolApprovalRequest {
    /// Identifier of the in-flight approval, round-tripped back on answer.
    pub id: String,
    /// Tool name from the catalog (e.g. `write_file`).
    pub name: String,
    /// JSON-serialized argument object as the model produced it.
    pub arguments_json: String,
}

/// Payload emitted back to the frontend per chunk.
#[derive(Clone, Debug)]
pub enum StreamChunk {
    /// A single token chunk string.
    Token(String),
    /// A single thinking/reasoning token chunk string.
    ThinkingToken(String),
    /// The stream has fully completed.
    Done,
    /// The user explicitly cancelled generation.
    Cancelled,
    /// A structured, user-facing error occurred during processing.
    Error(OllamaError),
    /// The model requested a destructive tool; the loop waits for the
    /// user's answer.
    ToolApprovalRequest(ToolApprovalRequest),
}

// ─── Routing between the chat model and the tool model ────────────────────

/// Result of the routing decision in `route_message`.
#[derive(Clone, Copy, Debug, PartialEq, Eq, Structural)]
pub enum RouteDecision {
    /// Forward to the regular chat model with streaming and no tools.
    Chat,
    /// Forward to the tool-capable model with the tool catalog.
    Tool,
}

/// The decision plus the message text with any slash-prefix override
/// stripped.
#[derive(Clone, Debug)]
pub struct RouteResult {
    pub decision: RouteDecision,
    pub message: String,
}

/// Number of action prefixes that route a message to the tool model.
pub const ACTION_PREFIX_COUNT: usize = 13;

/// The `i`-th action prefix (matched against the lowercased message).
pub open spec fn action_prefix_spec(i: int) -> Seq<char> {
    if i == 0 { "read "@ }
    else if i == 1 { "list "@ }
    else if i == 2 { "show "@ }
    else if i == 3 { "find "@ }
    else if i == 4 { "search "@ }
    else if i == 5 { "grep "@ }
    else if i == 6 { "open "@ }
    else if i == 7 { "what's in "@ }
    else if i == 8 { "what is in "@ }
    else if i == 9 { "what files "@ }
    else if i == 10 { "files in "@ }
    else if i == 11 { "ls "@ }
    else { "cat "@ }
}

/// The `i`-th action prefix.
pub fn action_prefix(i: usize) -> (p: &'static str)
    requires
        i < ACTION_PREFIX_COUNT,
    ensures
        p@ == action_prefix_spec(i as int),
{
    match i {
        0 => "read ",
        1 => "list ",
        2 => "show ",
        3 => "find ",
        4 => "search ",
        5 => "grep ",
        6 => "open ",
        7 => "what's in ",
        8 => "what is in ",
        9 => "what files ",
        10 => "files in ",
        11 => "ls ",
        _ => "cat ",
    }
}

/// Number of desktop-introspection keywords that route to the tool model.
pub const DESKTOP_KEYWORD_COUNT: usize = 11;

/// The `i`-th desktop-introspection keyword.
pub open spec fn desktop_keyword_spec(i: int) -> Seq<char> {
    if i == 0 { "active window"@ }
    else if i == 1 { "current window"@ }
    else if i == 2 { "what window"@ }
    else if i == 3 { "which window"@ }
    else if i == 4 { "list windows"@ }
    else if i == 5 { "all windows"@ }
    else if i == 6 { "monitor info"@ }
    else if i == 7 { "monitors"@ }
    else if i == 8 { "what monitor"@ }
    else if i == 9 { "which monitor"@ }
    else { "clipboard"@ }
}

/// The `i`-th desktop-introspection keyword.
pub fn desktop_keyword(i: usize) -> (p: &'static str)
    requires
        i < DESKTOP_KEYWORD_COUNT,
    ensures
        p@ == desktop_keyword_spec(i as int),
{
    match i {
        0 => "active window",
        1 => "current window",
        2 => "what window",
        3 => "which window",
        4 => "list windows",
        5 => "all windows",
        6 => "monitor info",
        7 => "monitors",
        8 => "what monitor",
        9 => "which monitor",
        _ => "clipboard",
    }
}

/// The lowercased message starts with an action verb.
pub open spec fn starts_with_action(lowered: Seq<char>) -> bool {
    exists|i: int| 0 <= i < ACTION_PREFIX_COUNT && starts_with(lowered, #[trigger] action_prefix_spec(i))
}

/// The lowercased message mentions desktop introspection.
pub open spec fn mentions_desktop(lowered: Seq<char>) -> bool {
    exists|i: int| 0 <= i < DESKTOP_KEYWORD_COUNT && contains(lowered, #[trigger] desktop_keyword_spec(i))
}

/// The message looks like it names a file path.
pub open spec fn looks_like_path(m: Seq<char>) -> bool {
    contains(m, ":\\"@) || contains(m, ":/"@) || contains(m, "./"@) || starts_with(m, "~"@)
        || starts_with(m, "/"@)
}

/// The routing decision and forwarded text for a message.
pub open spec fn route_spec(m: Seq<char>, has_images: bool) -> (RouteDecision, Seq<char>) {
    let t = trim_start(m);
    if starts_with(t, "/tool "@) {
        (RouteDecision::Tool, t.skip("/tool "@.len() as int))
    } else if starts_with(t, "/tool\n"@) {
        (RouteDecision::Tool, t.skip("/tool\n"@.len() as int))
    } else if starts_with(t, "/chat "@) {
        (RouteDecision::Chat, t.skip("/chat "@.len() as int))
    } else if starts_with(t, "/chat\n"@) {
        (RouteDecision::Chat, t.skip("/chat\n"@.len() as int))
    } else if has_images {
        (RouteDecision::Chat, m)
    } else if starts_with_action(lower(t)) || mentions_desktop(lower(t)) || looks_like_path(m) {
        (RouteDecision::Tool, m)
    } else {
        (RouteDecision::Chat, m)
    }
}

/// `t` with the prefix `p` removed when `t` starts with it.
fn strip_prefix_chars(t: &Vec<char>, p: &str) -> (r: Option<Vec<char>>)
    ensures
        r is Some <==> starts_with(t@, p@),
        r matches Some(rest) ==> rest@ == t@.skip(p@.len() as int),
{
    let pv = chars_of(p);
    if crate::text::starts_with_exec(t, &pv) {
        let rest = slice_chars(t, pv.len(), t.len());
        assert(rest@ =~= t@.skip(p@.len() as int));
        Some(rest)
    } else {
        None
    }
}

/// Whether the lowercased message starts with an action verb.
fn starts_with_action_exec(lowered: &Vec<char>) -> (b: bool)
    ensures
        b == starts_with_action(lowered@),
{
    let mut i: usize = 0;
    while i < ACTION_PREFIX_COUNT
        invariant
            i <= ACTION_PREFIX_COUNT,
            forall|k: int| 0 <= k < i ==> !starts_with(lowered@, #[trigger] action_prefix_spec(k)),
        decreases ACTION_PREFIX_COUNT - i,
    {
        if starts_with_str(lowered, action_prefix(i)) {
            return true;
        }
        i = i + 1;
    }
    false
}

/// Whether the lowercased message mentions desktop introspection.
fn mentions_desktop_exec(lowered: &Vec<char>) -> (b: bool)
    ensures
        b == mentions_desktop(lowered@),
{
    let mut i: usize = 0;
    while i < DESKTOP_KEYWORD_COUNT
        invariant
            i <= DESKTOP_KEYWORD_COUNT,
            forall|k: int| 0 <= k < i ==> !contains(lowered@, #[trigger] desktop_keyword_spec(k)),
        decreases DESKTOP_KEYWORD_COUNT - i,
    {
        if contains_str(lowered, desktop_keyword(i)) {
            return true;
        }
        i = i + 1;
    }
    false
}

/// Picks between the chat model and the tool model for a user message.
/// Slash-prefix overrides (`/tool ...` and `/chat ...`) take precedence;
/// messages with images go to chat; otherwise action verbs at the start,
/// desktop keywords, or a file-path shape route to the tool model.
pub fn route_message(message: &str, has_images: bool) -> (r: RouteResult)
    ensures
        r.decision == route_spec(message@, has_images).0,
        r.message@ == route_spec(message@, has_images).1,
{
    let mv = chars_of(message);
    let t = trim_start_exec(&mv);
    if let Some(rest) = strip_prefix_chars(&t, "/tool ") {
        return RouteResult { decision: RouteDecision::Tool, message: string_of(&rest) };
    }
    if let Some(rest) = strip_prefix_chars(&t, "/tool\n") {
        return RouteResult { decision: RouteDecision::Tool, message: string_of(&rest) };
    }
    if let Some(rest) = strip_prefix_chars(&t, "/chat ") {
        return RouteResult { decision: RouteDecision::Chat, message: string_of(&rest) };
    }
    if let Some(rest) = strip_prefix_chars(&t, "/chat\n") {
        return RouteResult { decision: RouteDecision::Chat, message: string_of(&rest) };
    }
    if has_images {
        return RouteResult { decision: RouteDecision::Chat, message: owned_str(message) };
    }
    let lowered = lower_exec(&t);
    let action = starts_with_action_exec(&lowered);
    let desktop = mentions_desktop_exec(&lowered);
    let path = contains_str(&mv, ":\\") || contains_str(&mv, ":/") || contains_str(&mv, "./")
        || starts_with_str(&mv, "~") || starts_with_str(&mv, "/");
    if action || desktop || path {
        RouteResult { decision: RouteDecision::Tool, message: owned_str(message) }
    } else {
        RouteResult { decision: RouteDecision::Chat, message: owned_str(message) }
    }
}


/// The message, after its leading whitespace, starts with a `/tool` or
/// `/chat` override.
pub open spec fn has_route_override(m: Seq<char>) -> bool {
    let t = trim_start(m);
    starts_with(t, "/tool "@) || starts_with(t, "/tool\n"@) || starts_with(t, "/chat "@) || starts_with(
        t,
        "/chat\n"@,
    )
}

/// Desktop-introspection wording goes to the tool model: without an
/// override and without images, a message whose ASCII-lowercased text
/// (after leading whitespace) contains `active window`, `current window`,
/// `what window`, `which window`, `list windows`, `all windows`,
/// `monitor info`, `monitors`, `what monitor`, `which monitor` or
/// `clipboard` is routed to the tool model, unchanged.
pub proof fn law_desktop_wording_routes_to_tool(m: Seq<char>, k: Seq<char>)
    requires
        !has_route_override(m),
        k == "active window"@ || k == "current window"@ || k == "what window"@ || k == "which window"@
            || k == "list windows"@ || k == "all windows"@ || k == "monitor info"@ || k == "monitors"@
            || k == "what monitor"@ || k == "which monitor"@ || k == "clipboard"@,
        contains(lower(trim_start(m)), k),
    ensures
        route_spec(m, false) == (RouteDecision::Tool, m),
{
    let i: int = if k == "active window"@ { 0 }
        else if k == "current window"@ { 1 }
        else if k == "what window"@ { 2 }
        else if k == "which window"@ { 3 }
        else if k == "list windows"@ { 4 }
        else if k == "all windows"@ { 5 }
        else if k == "monitor info"@ { 6 }
        else if k == "monitors"@ { 7 }
        else if k == "what monitor"@ { 8 }
        else if k == "which monitor"@ { 9 }
        else { 10 };
    assert(desktop_keyword_spec(i) == k);
    assert(mentions_desktop(lower(trim_start(m))));
}

/// Action verbs go to the tool model: without an override and without
/// images, a message whose ASCII-lowercased text (after leading
/// whitespace) starts with `read `, `list `, `show `, `find `, `search `,
/// `grep `, `open `, `what's in `, `what is in `, `what files `,
/// `files in `, `ls ` or `cat ` is routed to the tool model, unchanged.
pub proof fn law_action_verbs_route_to_tool(m: Seq<char>, k: Seq<char>)
    requires
        !has_route_override(m),
        k == "read "@ || k == "list "@ || k == "show "@ || k == "find "@ || k == "search "@ || k == "grep "@
            || k == "open "@ || k == "what's in "@ || k == "what is in "@ || k == "what files "@
            || k == "files in "@ || k == "ls "@ || k == "cat "@,
        starts_with(lower(trim_start(m)), k),
    ensures
        route_spec(m, false) == (RouteDecision::Tool, m),
{
    let i: int = if k == "read "@ { 0 }
        else if k == "list "@ { 1 }
        else if k == "show "@ { 2 }
        else if k == "find "@ { 3 }
        else if k == "search "@ { 4 }
        else if k == "grep "@ { 5 }
        else if k == "open "@ { 6 }
        else if k == "what's in "@ { 7 }
        else if k == "what is in "@ { 8 }
        else if k == "what files "@ { 9 }
        else if k == "files in "@ { 10 }
        else if k == "ls "@ { 11 }
        else { 12 };
    assert(action_prefix_spec(i) == k);
    assert(starts_with_action(lower(trim_start(m))));
}

/// Path shapes go to the tool model: without an override and without
/// images, a message containing `:\`, `:/` or `./`, or starting with `~`
/// or `/`, is routed to the tool model, unchanged.
pub proof fn law_path_shapes_route_to_tool(m: Seq<char>)
    requires
        !has_route_override(m),
        contains(m, ":\\"@) || contains(m, ":/"@) || contains(m, "./"@) || starts_with(m, "~"@)
            || starts_with(m, "/"@),
    ensures
        route_spec(m, false) == (RouteDecision::Tool, m),
{
}

/// Slash overrides win over everything else: after leading whitespace,
/// `/tool ` (or `/tool` and a newline) sends the rest of the message to
/// the tool model and `/chat ` (or `/chat` and a newline) sends it to the
/// chat model, with or without images.
pub proof fn law_slash_overrides(m: Seq<char>, has_images: bool)
    ensures
        (starts_with(trim_start(m), "/tool "@) || starts_with(trim_start(m), "/tool\n"@)) ==> route_spec(
            m,
            has_images,
        ) == (RouteDecision::Tool, trim_start(m).skip(6)),
        (starts_with(trim_start(m), "/chat "@) || starts_with(trim_start(m), "/chat\n"@)) ==> route_spec(
            m,
            has_images,
        ) == (RouteDecision::Chat, trim_start(m).skip(6)),
{
    reveal_strlit("/tool ");
    reveal_strlit("/tool\n");
    reveal_strlit("/chat ");
    reveal_strlit("/chat\n");
    let t = trim_start(m);
    if starts_with(t, "/chat "@) || starts_with(t, "/chat\n"@) {
        assert(t.take(6)[1] == 'c');
        assert(!starts_with(t, "/tool "@) && !starts_with(t, "/tool\n"@)) by {
            if starts_with(t, "/tool "@) || starts_with(t, "/tool\n"@) {
                assert(t.take(6)[1] == 't');
            }
        }
    }
}

/// Images go to the chat model: without an override, a message sent with
/// images is routed to the chat model, unchanged, whatever its wording.
pub proof fn law_images_route_to_chat(m: Seq<char>)
    requires
        !has_route_override(m),
    ensures
        route_spec(m, true) == (RouteDecision::Chat, m),
{
}

// ─── Conversation history ─────────────────────────────────────────────────

/// Abstract value of a message: its text fields as character sequences.
pub struct ChatMessageView {
    pub role: Seq<char>,
    pub content: Seq<char>,
    pub images: Option<Seq<String>>,
}

impl View for ChatMessage {
    type V = ChatMessageView;

    open spec fn view(&self) -> ChatMessageView {
        ChatMessageView {
            role: self.role@,
            content: self.content@,
            images: match self.images {
                Some(v) => Some(v@),
                None => None,
            },
        }
    }
}

/// Abstract value of a history: the stored messages and the epoch.
pub struct HistoryView {
    pub messages: Seq<ChatMessageView>,
    pub epoch: u64,
}

/// Backend-managed conversation history with an epoch counter that
/// prevents stale writes after a reset. The message list is the source of
/// truth for every follow-up turn.
#[derive(Debug)]
pub struct ConversationHistory {
    pub messages: Vec<ChatMessage>,
    pub epoch: u64,
}

impl View for ConversationHistory {
    type V = HistoryView;

    open spec fn view(&self) -> HistoryView {
        HistoryView { messages: self.messages@.map_values(|m: ChatMessage| m@), epoch: self.epoch }
    }
}

/// The empty history at epoch 0.
pub open spec fn history_new_spec() -> HistoryView {
    HistoryView { messages: Seq::empty(), epoch: 0 }
}

/// A reset clears the messages and advances the epoch (wrapping).
pub open spec fn history_reset_spec(h: HistoryView) -> HistoryView {
    HistoryView {
        messages: Seq::empty(),
        epoch: if h.epoch == u64::MAX { 0 } else { (h.epoch + 1) as u64 },
    }
}

/// The assistant message stored for a streamed reply.
pub open spec fn assistant_message_view(reply: Seq<char>) -> ChatMessageView {
    ChatMessageView { role: "assistant"@, content: sanitized(reply), images: None }
}

/// Whether a turn that started at `epoch_at_start` with reply `reply` is
/// committed to `h`.
pub open spec fn turn_commits(h: HistoryView, epoch_at_start: u64, reply: Seq<char>) -> bool {
    h.epoch == epoch_at_start && reply.len() > 0
}

/// A finished turn: the user message and the sanitized reply are appended
/// when no reset happened since the turn started and the reply is
/// non-empty; otherwise nothing changes.
pub open spec fn history_commit_spec(
    h: HistoryView,
    epoch_at_start: u64,
    user: ChatMessageView,
    reply: Seq<char>,
) -> HistoryView {
    if turn_commits(h, epoch_at_start, reply) {
        HistoryView {
            messages: h.messages.push(user).push(assistant_message_view(reply)),
            epoch: h.epoch,
        }
    } else {
        h
    }
}

impl ConversationHistory {
    /// Creates a new empty conversation history at epoch 0.
    pub fn new() -> (h: Self)
        ensures
            h@ == history_new_spec(),
    {
        let h = ConversationHistory { messages: Vec::new(), epoch: 0 };
        assert(h@.messages =~= Seq::<ChatMessageView>::empty());
        h
    }

    /// Clears the history and increments the epoch so any in-flight turn
    /// cannot write stale messages into the cleared history.
    pub fn reset(&mut self)
        ensures
            final(self)@ == history_reset_spec(old(self)@),
    {
        self.epoch = self.epoch.wrapping_add(1);
        self.messages.clear();
        assert(self@.messages =~= Seq::<ChatMessageView>::empty());
    }

    /// Appends the user message and the sanitized reply when the epoch is
    /// still `epoch_at_start` and the reply is non-empty. Returns whether
    /// the turn was committed.
    pub fn commit_turn(&mut self, epoch_at_start: u64, user: ChatMessage, reply: &str) -> (committed: bool)
        ensures
            committed == turn_commits(old(self)@, epoch_at_start, reply@),
            final(self)@ == history_commit_spec(old(self)@, epoch_at_start, user@, reply@),
    {
        let ghost before = self@;
        if self.epoch == epoch_at_start && !reply.is_empty() {
            let ghost old_msgs = self.messages@;
            let content = sanitize_assistant_content(reply);
            let ghost uv = user@;
            self.messages.push(user);
            self.messages.push(ChatMessage { role: owned_str("assistant"), content, images: None });
            assert(self@.messages =~= before.messages.push(uv).push(assistant_message_view(reply@)));
            true
        } else {
            false
        }
    }
}

impl Default for ConversationHistory {
    fn default() -> (h: Self)
        ensures
            h@ == history_new_spec(),
    {
        ConversationHistory::new()
    }
}

/// A turn that started before a reset never lands in the cleared history:
/// whatever it carries, committing it leaves the reset history unchanged.
pub proof fn law_reset_discards_stale_turn(h: HistoryView, user: ChatMessageView, reply: Seq<char>)
    ensures
        history_commit_spec(history_reset_spec(h), h.epoch, user, reply) == history_reset_spec(h),
        history_reset_spec(h).messages.len() == 0,
{
}

/// A turn that started at the current epoch with a non-empty reply grows
/// the history by exactly the user message and the sanitized reply, in
/// that order, and keeps the epoch.
pub proof fn law_current_turn_appends(h: HistoryView, user: ChatMessageView, reply: Seq<char>)
    requires
        reply.len() > 0,
    ensures
        history_commit_spec(h, h.epoch, user, reply).messages == h.messages.push(user).push(
            assistant_message_view(reply),
        ),
        history_commit_spec(h, h.epoch, user, reply).epoch == h.epoch,
{
}

// ─── Building a chat turn ─────────────────────────────────────────────────

/// The user message content: highlighted text, when present and not
/// blank, is labelled as the primary subject ahead of the request.
pub open spec fn user_content_spec(message: Seq<char>, quoted: Option<Seq<char>>) -> Seq<char> {
    match quoted {
        Some(q) => if trim(q).len() > 0 {
            "[Highlighted Text]\n\""@ + q + "\"\n\n[Request]\n"@ + message
        } else {
            message
        },
        None => message,
    }
}

/// Builds the user message content for a turn, labelling highlighted text
/// when there is any.
pub fn build_user_content(message: &str, quoted_text: Option<&str>) -> (r: String)
    ensures
        r@ == user_content_spec(message@, match quoted_text { Some(q) => Some(q@), None => None }),
{
    match quoted_text {
        Some(q) => {
            let qv = chars_of(q);
            let qt = trim_exec(&qv);
            if qt.len() > 0 {
                let mut out: Vec<char> = Vec::new();
                push_str(&mut out, "[Highlighted Text]\n\"");
                push_str(&mut out, q);
                push_str(&mut out, "\"\n\n[Request]\n");
                push_str(&mut out, message);
                string_of(&out)
            } else {
                owned_str(message)
            }
        },
        None => owned_str(message),
    }
}

/// `s` with every trailing `c` removed (`str::trim_end_matches(c)`).
pub open spec fn trim_end_char(s: Seq<char>, c: char) -> Seq<char>
    decreases s.len(),
{
    if s.len() > 0 && s.last() == c {
        trim_end_char(s.drop_last(), c)
    } else {
        s
    }
}

/// An Ollama API endpoint: the base URL without trailing slashes, then
/// `path`.
pub fn api_endpoint(base_url: &str, path: &str) -> (r: String)
    ensures
        r@ == trim_end_char(base_url@, '/') + path@,
{
    let bv = chars_of(base_url);
    let mut j = bv.len();
    assert(bv@.take(j as int) =~= bv@);
    while j > 0 && bv[j - 1] == '/'
        invariant
            j <= bv.len(),
            trim_end_char(bv@.take(j as int), '/') == trim_end_char(bv@, '/'),
        decreases j,
    {
        assert(bv@.take(j as int).drop_last() =~= bv@.take(j - 1));
        j = j - 1;
    }
    let mut out = slice_chars(&bv, 0, j);
    assert(out@ =~= bv@.take(j as int));
    assert(trim_end_char(out@, '/') == out@);
    push_str(&mut out, path);
    string_of(&out)
}

// ─── Streamed chat replies ────────────────────────────────────────────────

/// Splits the first complete line off a byte buffer: when the buffer holds
/// a `\n`, the bytes up to and including the first one are removed and
/// returned; otherwise the buffer is left as it is.
pub fn take_line(buffer: &mut Vec<u8>) -> (line: Option<Vec<u8>>)
    ensures
        line is None ==> final(buffer)@ == old(buffer)@ && !old(buffer)@.contains(10u8),
        line matches Some(l) ==> {
            &&& l@.len() > 0
            &&& l@.last() == 10u8
            &&& !l@.drop_last().contains(10u8)
            &&& l@ + final(buffer)@ == old(buffer)@
        },
{
    let mut idx: usize = 0;
    while idx < buffer.len() && buffer[idx] != 10u8
        invariant
            idx <= buffer@.len(),
            forall|k: int| 0 <= k < idx ==> buffer@[k] != 10u8,
        decreases buffer@.len() - idx,
    {
        idx = idx + 1;
    }
    if idx == buffer.len() {
        return None;
    }
    let mut line = buffer.split_off(idx + 1);
    std::mem::swap(buffer, &mut line);
    assert(line@.drop_last() =~= line@.subrange(0, idx as int));
    Some(line)
}

/// Decodes UTF-8 bytes (`String::from_utf8`): `None` exactly when the
/// bytes are not valid UTF-8, otherwise the decoded characters.
#[verifier::external_body]
pub(crate) fn utf8_decode(bytes: Vec<u8>) -> (r: Option<String>)
    ensures
        r is Some <==> vstd::utf8::valid_utf8(bytes@),
        r matches Some(s) ==> s@ == vstd::utf8::decode_utf8(bytes@),
{
    String::from_utf8(bytes).ok()
}

/// The text of one streamed line: `None` for invalid UTF-8 and for lines
/// that are blank once trimmed, the trimmed text otherwise.
pub fn stream_line_text(line: Vec<u8>) -> (r: Option<String>)
    ensures
        r matches Some(s) ==> vstd::utf8::valid_utf8(line@) && s@ == trim(
            vstd::utf8::decode_utf8(line@),
        ) && s@.len() > 0,
        r is None ==> !vstd::utf8::valid_utf8(line@) || trim(vstd::utf8::decode_utf8(line@)).len()
            == 0,
{
    match utf8_decode(line) {
        None => None,
        Some(s) => {
            let t = trim_exec(&chars_of(s.as_str()));
            if t.len() == 0 {
                None
            } else {
                Some(string_of(&t))
            }
        },
    }
}

/// The chunks emitted for one decoded `/api/chat` stream line and what it
/// adds to the accumulated reply: a non-empty thinking string, then a
/// non-empty content token, then `Done` when the line says so.
pub fn chat_line_chunks(
    thinking: Option<String>,
    content: Option<String>,
    done: Option<bool>,
    accumulated: &mut String,
) -> (chunks: Vec<StreamChunk>)
    ensures
        ({
            let th = thinking matches Some(t) && t@.len() > 0;
            let ct = content matches Some(c) && c@.len() > 0;
            let dn = done == Some(true);
            &&& chunks@.len() == (if th { 1int } else { 0 }) + (if ct { 1int } else { 0 }) + (if dn { 1int } else { 0 })
            &&& th ==> chunks@[0] == StreamChunk::ThinkingToken(thinking->0)
            &&& ct ==> chunks@[if th { 1int } else { 0 }] == StreamChunk::Token(content->0)
            &&& dn ==> chunks@.last() == StreamChunk::Done
            &&& final(accumulated)@ == old(accumulated)@ + (if ct { content->0@ } else { Seq::<char>::empty() })
        }),
{
    let mut chunks: Vec<StreamChunk> = Vec::new();
    let ghost acc0 = accumulated@;
    let ghost ct = content is Some && content->0@.len() > 0;
    match thinking {
        Some(t) => {
            if !t.as_str().is_empty() {
                chunks.push(StreamChunk::ThinkingToken(t));
            }
        },
        None => {},
    }
    match content {
        Some(c) => {
            if !c.as_str().is_empty() {
                accumulated.append(c.as_str());
                chunks.push(StreamChunk::Token(c));
            }
        },
        None => {},
    }
    if done == Some(true) {
        chunks.push(StreamChunk::Done);
    }
    proof {
        if !ct {
            assert(accumulated@ =~= acc0 + Seq::<char>::empty());
        }
    }
    chunks
}

/// The error shown when the stream goes silent for `secs` seconds.
pub fn stalled_error(secs: u64) -> (e: OllamaError)
    ensures
        e.kind == OllamaErrorKind::Other,
        e.message@ == "Stalled\nOllama stopped sending tokens for "@ + decimal(secs as nat)
            + " seconds. The runner may have crashed; try cancelling and asking again."@,
{
    let mut out: Vec<char> = Vec::new();
    push_str(&mut out, "Stalled\nOllama stopped sending tokens for ");
    let d = decimal_exec(secs);
    push_chars(&mut out, &d);
    push_str(&mut out, " seconds. The runner may have crashed; try cancelling and asking again.");
    OllamaError { kind: OllamaErrorKind::Other, message: string_of(&out) }
}

// ─── Request messages ─────────────────────────────────────────────────────

/// A copy of a string vector.
fn copy_strings(v: &Vec<String>) -> (r: Vec<String>)
    ensures
        r@ == v@,
{
    let mut r: Vec<String> = Vec::new();
    let mut i: usize = 0;
    while i < v.len()
        invariant
            i <= v.len(),
            r@ == v@.take(i as int),
        decreases v.len() - i,
    {
        r.push(v[i].clone());
        i = i + 1;
        assert(r@ =~= v@.take(i as int));
    }
    assert(v@.take(v.len() as int) =~= v@);
    r
}

/// A copy of a message.
pub fn copy_message(m: &ChatMessage) -> (r: ChatMessage)
    ensures
        r@ == m@,
{
    let images = match &m.images {
        Some(v) => Some(copy_strings(v)),
        None => None,
    };
    ChatMessage { role: m.role.clone(), content: m.content.clone(), images }
}

/// The messages sent on the chat route: the system prompt, the stored
/// history, then the new user message.
pub open spec fn chat_request_spec(system_prompt: Seq<char>, history: Seq<ChatMessageView>, user: ChatMessageView) -> Seq<ChatMessageView> {
    seq![ChatMessageView { role: "system"@, content: system_prompt, images: None }] + history + seq![user]
}

/// Builds the message list of a chat-route request. The history itself is
/// left untouched; the user message is only committed after the reply.
pub fn chat_request_messages(system_prompt: &str, history: &Vec<ChatMessage>, user: &ChatMessage) -> (r: Vec<ChatMessage>)
    ensures
        r@.map_values(|m: ChatMessage| m@) == chat_request_spec(
            system_prompt@,
            history@.map_values(|m: ChatMessage| m@),
            user@,
        ),
{
    let mut r: Vec<ChatMessage> = Vec::new();
    r.push(ChatMessage { role: owned_str("system"), content: owned_str(system_prompt), images: None });
    let mut i: usize = 0;
    while i < history.len()
        invariant
            i <= history.len(),
            r@.len() == i + 1,
            r@[0]@ == (ChatMessageView { role: "system"@, content: system_prompt@, images: None }),
            forall|j: int| 0 <= j < i ==> (#[trigger] r@[j + 1])@ == history@[j]@,
        decreases history.len() - i,
    {
        r.push(copy_message(&history[i]));
        i = i + 1;
    }
    r.push(copy_message(user));
    let ghost want = chat_request_spec(system_prompt@, history@.map_values(|m: ChatMessage| m@), user@);
    let ghost got = r@.map_values(|m: ChatMessage| m@);
    assert(got.len() == want.len());
    assert forall|k: int| 0 <= k < got.len() implies got[k] == want[k] by {
        if 1 <= k <= history@.len() {
            assert(r@[(k - 1) + 1]@ == history@[k - 1]@);
        }
    }
    assert(r@.map_values(|m: ChatMessage| m@) =~= chat_request_spec(
        system_prompt@,
        history@.map_values(|m: ChatMessage| m@),
        user@,
    ));
    r
}

/// The model the tool route runs on.
pub const TOOL_MODEL: &'static str = "qwen3:8b";


/// Safety cap on tool-loop rounds before giving up on a final answer.
pub const TOOL_LOOP_MAX_ROUNDS: usize = 10;

/// Per-request timeout of one tool-loop round, in seconds.
pub const TOOL_LOOP_REQUEST_TIMEOUT_SECS: u64 = 120;

/// How long a destructive tool call waits for the user's answer before it
/// is denied, in seconds.
pub const APPROVAL_TIMEOUT_SECS: u64 = 300;

/// How long the chat stream may go without a new token, in seconds.
pub const STREAM_NO_PROGRESS_TIMEOUT_SECS: u64 = 60;

/// The system prompt of the tool route.
pub const TOOL_AGENT_PROMPT: &'static str = "You are Wren's local tool agent. Use the provided tools whenever the user's request needs real data from the machine (files, windows, clipboard) or asks you to act on it. Pass tool arguments as a single JSON object. If the user is just chatting, answer briefly without a tool call.";

/// The (role, content) pairs sent on the tool route: the tool agent's
/// system prompt, the text of every stored message (images are not sent),
/// then the user's content.
pub open spec fn tool_request_spec(history: Seq<ChatMessageView>, user_content: Seq<char>) -> Seq<(Seq<char>, Seq<char>)> {
    seq![("system"@, TOOL_AGENT_PROMPT@)] + history.map_values(|m: ChatMessageView| (m.role, m.content))
        + seq![("user"@, user_content)]
}

/// Builds the (role, content) list of a tool-route request.
pub fn tool_request_messages(history: &Vec<ChatMessage>, user_content: &str) -> (r: Vec<(String, String)>)
    ensures
        r@.map_values(|p: (String, String)| (p.0@, p.1@)) == tool_request_spec(
            history@.map_values(|m: ChatMessage| m@),
            user_content@,
        ),
{
    let mut r: Vec<(String, String)> = Vec::new();
    r.push((owned_str("system"), owned_str(TOOL_AGENT_PROMPT)));
    let mut i: usize = 0;
    while i < history.len()
        invariant
            i <= history.len(),
            r@.len() == i + 1,
            r@[0].0@ == "system"@ && r@[0].1@ == TOOL_AGENT_PROMPT@,
            forall|j: int| 0 <= j < i ==> (#[trigger] r@[j + 1]).0@ == history@[j].role@ && r@[j + 1].1@
                == history@[j].content@,
        decreases history.len() - i,
    {
        r.push((history[i].role.clone(), history[i].content.clone()));
        i = i + 1;
    }
    r.push((owned_str("user"), owned_str(user_content)));
    let ghost want = tool_request_spec(history@.map_values(|m: ChatMessage| m@), user_content@);
    let ghost got = r@.map_values(|p: (String, String)| (p.0@, p.1@));
    assert(got.len() == want.len());
    assert forall|k: int| 0 <= k < got.len() implies got[k] == want[k] by {
        if 1 <= k <= history@.len() {
            assert(r@[(k - 1) + 1].0@ == history@[k - 1].role@);
        }
    }
    assert(r@.map_values(|p: (String, String)| (p.0@, p.1@)) =~= tool_request_spec(
        history@.map_values(|m: ChatMessage| m@),
        user_content@,
    ));
    r
}

// ─── Tool loop ────────────────────────────────────────────────────────────

/// The chunks that end the loop on a final answer: the answer as one token
/// when it is not empty, then `Done`.
pub fn final_answer_chunks(content: &str) -> (chunks: Vec<StreamChunk>)
    ensures
        content@.len() > 0 ==> chunks@.len() == 2 && (chunks@[0] matches StreamChunk::Token(t) && t@
            == content@) && chunks@[1] == StreamChunk::Done,
        content@.len() == 0 ==> chunks@ == seq![StreamChunk::Done],
{
    let mut chunks: Vec<StreamChunk> = Vec::new();
    if !content.is_empty() {
        chunks.push(StreamChunk::Token(owned_str(content)));
    }
    chunks.push(StreamChunk::Done);
    proof {
        if content@.len() == 0 {
            assert(chunks@ =~= seq![StreamChunk::Done]);
        }
    }
    chunks
}

/// The tool message the model gets when the user denies a call.
pub fn tool_denial_content(name: &str) -> (r: String)
    ensures
        r@ == "Error: User denied permission to run `"@ + name@
            + "`. Do not retry; explain to the user that you cannot perform this action and suggest an alternative."@,
{
    let mut out: Vec<char> = Vec::new();
    push_str(&mut out, "Error: User denied permission to run `");
    push_str(&mut out, name);
    push_str(
        &mut out,
        "`. Do not retry; explain to the user that you cannot perform this action and suggest an alternative.",
    );
    string_of(&out)
}

/// The status line shown when the user denies a call.
pub fn tool_denied_line(name: &str) -> (r: String)
    ensures
        r@ == "[tool] "@ + name@ + " denied by user\n"@,
{
    let mut out: Vec<char> = Vec::new();
    push_str(&mut out, "[tool] ");
    push_str(&mut out, name);
    push_str(&mut out, " denied by user\n");
    string_of(&out)
}

/// The status line shown when an approval request times out.
pub fn approval_timeout_line(name: &str) -> (r: String)
    ensures
        r@ == "[tool] "@ + name@ + " approval timed out after "@ + decimal(APPROVAL_TIMEOUT_SECS as nat)
            + "s\n"@,
{
    let mut out: Vec<char> = Vec::new();
    push_str(&mut out, "[tool] ");
    push_str(&mut out, name);
    push_str(&mut out, " approval timed out after ");
    let d = decimal_exec(APPROVAL_TIMEOUT_SECS);
    push_chars(&mut out, &d);
    push_str(&mut out, "s\n");
    string_of(&out)
}

/// The status line shown when an approved or read-only call runs.
pub fn tool_call_line(name: &str, arguments_json: &str) -> (r: String)
    ensures
        r@ == "[tool] "@ + name@ + "("@ + arguments_json@ + ")\n"@,
{
    let mut out: Vec<char> = Vec::new();
    push_str(&mut out, "[tool] ");
    push_str(&mut out, name);
    push_str(&mut out, "(");
    push_str(&mut out, arguments_json);
    push_str(&mut out, ")\n");
    string_of(&out)
}

/// The first line of `s` as `str::lines` yields it: up to the first `\n`,
/// without a trailing `\r`.
pub open spec fn first_line(s: Seq<char>) -> Seq<char> {
    let l = crate::tools::before_first(s, '\n');
    if l.len() > 0 && l.last() == '\r' { l.drop_last() } else { l }
}

/// The status line for a tool result, shown only when the tool reported
/// an error (its result starts with `Error:`): the tool and the first
/// line of the error.
pub fn tool_failure_line(name: &str, result: &str) -> (r: Option<String>)
    ensures
        !starts_with(result@, "Error:"@) ==> r is None,
        starts_with(result@, "Error:"@) ==> (r matches Some(l) && l@ == "[tool] "@ + name@ + " -> "@
            + first_line(result@) + "\n"@),
{
    let v = chars_of(result);
    if !starts_with_str(&v, "Error:") {
        return None;
    }
    let mut i: usize = 0;
    while i < v.len() && v[i] != '\n'
        invariant
            i <= v.len(),
            forall|k: int| 0 <= k < i ==> v@[k] != '\n',
        decreases v.len() - i,
    {
        i = i + 1;
    }
    proof {
        crate::tools::lemma_before_first(v@, '\n', i as int);
    }
    let mut end = i;
    if end > 0 && v[end - 1] == '\r' {
        end = end - 1;
    }
    let line = slice_chars(&v, 0, end);
    assert(line@ =~= first_line(result@));
    let mut out: Vec<char> = Vec::new();
    push_str(&mut out, "[tool] ");
    push_str(&mut out, name);
    push_str(&mut out, " -> ");
    push_chars(&mut out, &line);
    push_str(&mut out, "\n");
    Some(string_of(&out))
}

/// The error shown when the loop hits its round cap.
pub fn tool_loop_exceeded_error() -> (e: OllamaError)
    ensures
        e.kind == OllamaErrorKind::Other,
        e.message@ == "Tool loop exceeded\nReached the "@ + decimal(TOOL_LOOP_MAX_ROUNDS as nat)
            + "-round safety cap before the model produced a final answer."@,
{
    let mut out: Vec<char> = Vec::new();
    push_str(&mut out, "Tool loop exceeded\nReached the ");
    let d = decimal_exec(TOOL_LOOP_MAX_ROUNDS as u64);
    push_chars(&mut out, &d);
    push_str(&mut out, "-round safety cap before the model produced a final answer.");
    OllamaError { kind: OllamaErrorKind::Other, message: string_of(&out) }
}

/// The error for a tool-route reply that is not JSON.
pub fn malformed_response_error() -> (e: OllamaError)
    ensures
        e.kind == OllamaErrorKind::Other,
        e.message@ == "Something went wrong\nMalformed response from Ollama."@,
{
    OllamaError {
        kind: OllamaErrorKind::Other,
        message: owned_str("Something went wrong\nMalformed response from Ollama."),
    }
}

/// The error for a tool-route reply without a `message` member.
pub fn missing_message_error() -> (e: OllamaError)
    ensures
        e.kind == OllamaErrorKind::Other,
        e.message@ == "Something went wrong\nResponse missing message field."@,
{
    OllamaError {
        kind: OllamaErrorKind::Other,
        message: owned_str("Something went wrong\nResponse missing message field."),
    }
}

/// The URL check of the `open_url` command: only http and https.
pub fn check_browser_url(url: &str) -> (r: Result<(), String>)
    ensures
        r is Ok <==> (starts_with(url@, "http://"@) || starts_with(url@, "https://"@)),
        r matches Err(e) ==> e@ == "Only http/https URLs are supported"@,
{
    let v = chars_of(url);
    if starts_with_str(&v, "http://") || starts_with_str(&v, "https://") {
        Ok(())
    } else {
        Err(owned_str("Only http/https URLs are supported"))
    }
}

// ─── Generation state ─────────────────────────────────────────────────────

/// The active generation's cancellation handle, and the answer channels of
/// the tool calls awaiting approval, by request id. Only one generation
/// runs at a time: a new handle replaces the previous one.
pub struct GenerationState<T, S> {
    token: Option<T>,
    pending_approvals: KeyedStore<S>,
}

impl<T, S> GenerationState<T, S> {
    /// The stored cancellation handle.
    pub closed spec fn token_spec(&self) -> Option<T> {
        self.token
    }

    /// The pending approvals, by request id.
    pub closed spec fn approvals(&self) -> Map<Seq<char>, S> {
        self.pending_approvals.view()
    }

    /// No active generation, nothing pending.
    pub fn new() -> (g: Self)
        ensures
            g.token_spec() is None,
            g.approvals() == Map::<Seq<char>, S>::empty(),
    {
        GenerationState { token: None, pending_approvals: KeyedStore::new() }
    }

    /// Stores the handle of a new generation, replacing any previous one.
    pub fn set_token(&mut self, token: T)
        ensures
            final(self).token_spec() == Some(token),
            final(self).approvals() == old(self).approvals(),
    {
        self.token = Some(token);
    }

    /// Cancels the active generation: hands back its handle (to be
    /// signalled) and drops every pending approval, which the waiting
    /// tool loop then reads as a denial.
    pub fn cancel(&mut self) -> (t: Option<T>)
        ensures
            t == old(self).token_spec(),
            final(self).token_spec() is None,
            final(self).approvals() == Map::<Seq<char>, S>::empty(),
    {
        let mut t = None;
        std::mem::swap(&mut t, &mut self.token);
        self.pending_approvals.clear();
        t
    }

    /// Forgets the handle without signalling it (natural completion).
    pub fn clear_token(&mut self)
        ensures
            final(self).token_spec() is None,
            final(self).approvals() == old(self).approvals(),
    {
        self.token = None;
    }

    /// Registers the answer channel of approval request `id`.
    pub fn register_approval(&mut self, id: String, sender: S)
        ensures
            final(self).approvals() == old(self).approvals().insert(id@, sender),
            final(self).token_spec() == old(self).token_spec(),
    {
        let _ = self.pending_approvals.insert(id, sender);
    }

    /// Takes the answer channel of approval request `id`, if it is still
    /// pending; a stale id finds nothing.
    pub fn resolve_approval(&mut self, id: &str) -> (s: Option<S>)
        ensures
            final(self).approvals() == old(self).approvals().remove(id@),
            old(self).approvals().contains_key(id@) ==> (s matches Some(x) && x == old(
                self,
            ).approvals()[id@]),
            !old(self).approvals().contains_key(id@) ==> s is None,
            final(self).token_spec() == old(self).token_spec(),
    {
        self.pending_approvals.remove(id)
    }
}

/// An approval is answered at most once, and a cancel answers none: after
/// a request is resolved, or after the generation is cancelled, resolving
/// it again finds nothing.
pub proof fn law_approval_resolved_once<S>(approvals: Map<Seq<char>, S>, id: Seq<char>, sender: S)
    ensures
        approvals.insert(id, sender).contains_key(id),
        approvals.insert(id, sender)[id] == sender,
        !approvals.insert(id, sender).remove(id).contains_key(id),
        !Map::<Seq<char>, S>::empty().contains_key(id),
{
}

// ─── A token between plain text ───────────────────────────────────────────

/// An opening bracket: the first character of every special token.
pub open spec fn is_open_bracket(c: char) -> bool {
    c == '<' || c == '['
}

/// A closing bracket: the last character of every special token.
pub open spec fn is_close_bracket(c: char) -> bool {
    c == '>' || c == ']'
}

/// Plain text: no brackets and no unsafe control characters.
pub open spec fn plain_text(s: Seq<char>) -> bool {
    forall|i: int| 0 <= i < s.len() ==> !is_open_bracket(#[trigger] s[i]) && !is_close_bracket(s[i])
        && !is_unsafe_control(s[i])
}

/// Every special token opens with a bracket, closes with one, holds no
/// other bracket and no unsafe control character.
proof fn lemma_token_shape(k: int)
    requires
        0 <= k < STRIP_PATTERN_COUNT,
    ensures
        strip_pattern_spec(k).len() >= 2,
        is_open_bracket(strip_pattern_spec(k)[0]),
        is_close_bracket(strip_pattern_spec(k)[strip_pattern_spec(k).len() - 1]),
        forall|i: int| 0 < i < strip_pattern_spec(k).len() - 1 ==> !is_open_bracket(#[trigger] strip_pattern_spec(k)[i])
            && !is_close_bracket(strip_pattern_spec(k)[i]),
        forall|i: int| 0 <= i < strip_pattern_spec(k).len() ==> !is_unsafe_control(#[trigger] strip_pattern_spec(k)[i]),
{
    reveal_strlit("<|im_start|>");
    reveal_strlit("<|im_end|>");
    reveal_strlit("<|begin_of_text|>");
    reveal_strlit("<|end_of_text|>");
    reveal_strlit("<|start_header_id|>");
    reveal_strlit("<|end_header_id|>");
    reveal_strlit("<|eot_id|>");
    reveal_strlit("[INST]");
    reveal_strlit("[/INST]");
    reveal_strlit("<start_of_turn>");
    reveal_strlit("<end_of_turn>");
    reveal_strlit("<|endoftext|>");
    reveal_strlit("<|user|>");
    reveal_strlit("<|assistant|>");
    reveal_strlit("<|system|>");
    reveal_strlit("<think>");
    reveal_strlit("</think>");
    if k == 0 {
    } else if k == 1 {
    } else if k == 2 {
    } else if k == 3 {
    } else if k == 4 {
    } else if k == 5 {
    } else if k == 6 {
    } else if k == 7 {
    } else if k == 8 {
    } else if k == 9 {
    } else if k == 10 {
    } else if k == 11 {
    } else if k == 12 {
    } else if k == 13 {
    } else if k == 14 {
    } else if k == 15 {
    } else if k == 16 {
    }
}

/// Different special tokens of the same length differ somewhere.
proof fn lemma_tokens_distinct(j: int, k: int)
    requires
        0 <= j < STRIP_PATTERN_COUNT,
        0 <= k < STRIP_PATTERN_COUNT,
        j != k,
        strip_pattern_spec(j).len() == strip_pattern_spec(k).len(),
    ensures
        strip_pattern_spec(j) != strip_pattern_spec(k),
{
    reveal_strlit("<|im_start|>");
    reveal_strlit("<|im_end|>");
    reveal_strlit("<|begin_of_text|>");
    reveal_strlit("<|end_of_text|>");
    reveal_strlit("<|start_header_id|>");
    reveal_strlit("<|end_header_id|>");
    reveal_strlit("<|eot_id|>");
    reveal_strlit("[INST]");
    reveal_strlit("[/INST]");
    reveal_strlit("<start_of_turn>");
    reveal_strlit("<end_of_turn>");
    reveal_strlit("<|endoftext|>");
    reveal_strlit("<|user|>");
    reveal_strlit("<|assistant|>");
    reveal_strlit("<|system|>");
    reveal_strlit("<think>");
    reveal_strlit("</think>");
    assert(strip_pattern_spec(0).len() == 12);
    assert(strip_pattern_spec(1).len() == 10);
    assert(strip_pattern_spec(2).len() == 17);
    assert(strip_pattern_spec(3).len() == 15);
    assert(strip_pattern_spec(4).len() == 19);
    assert(strip_pattern_spec(5).len() == 17);
    assert(strip_pattern_spec(6).len() == 10);
    assert(strip_pattern_spec(7).len() == 6);
    assert(strip_pattern_spec(8).len() == 7);
    assert(strip_pattern_spec(9).len() == 15);
    assert(strip_pattern_spec(10).len() == 13);
    assert(strip_pattern_spec(11).len() == 13);
    assert(strip_pattern_spec(12).len() == 8);
    assert(strip_pattern_spec(13).len() == 13);
    assert(strip_pattern_spec(14).len() == 10);
    assert(strip_pattern_spec(15).len() == 7);
    assert(strip_pattern_spec(16).len() == 8);
    if (j == 1 && k == 6) || (j == 6 && k == 1) {
        assert(strip_pattern_spec(1)[2] != strip_pattern_spec(6)[2]);
    }
    if (j == 1 && k == 14) || (j == 14 && k == 1) {
        assert(strip_pattern_spec(1)[2] != strip_pattern_spec(14)[2]);
    }
    if (j == 2 && k == 5) || (j == 5 && k == 2) {
        assert(strip_pattern_spec(2)[2] != strip_pattern_spec(5)[2]);
    }
    if (j == 3 && k == 9) || (j == 9 && k == 3) {
        assert(strip_pattern_spec(3)[1] != strip_pattern_spec(9)[1]);
    }
    if (j == 6 && k == 14) || (j == 14 && k == 6) {
        assert(strip_pattern_spec(6)[2] != strip_pattern_spec(14)[2]);
    }
    if (j == 8 && k == 15) || (j == 15 && k == 8) {
        assert(strip_pattern_spec(8)[0] != strip_pattern_spec(15)[0]);
    }
    if (j == 10 && k == 11) || (j == 11 && k == 10) {
        assert(strip_pattern_spec(10)[1] != strip_pattern_spec(11)[1]);
    }
    if (j == 10 && k == 13) || (j == 13 && k == 10) {
        assert(strip_pattern_spec(10)[1] != strip_pattern_spec(13)[1]);
    }
    if (j == 11 && k == 13) || (j == 13 && k == 11) {
        assert(strip_pattern_spec(11)[2] != strip_pattern_spec(13)[2]);
    }
    if (j == 12 && k == 16) || (j == 16 && k == 12) {
        assert(strip_pattern_spec(12)[1] != strip_pattern_spec(16)[1]);
    }
}

/// In plain text around token `k`, a token occurs only as that token,
/// where it stands.
proof fn lemma_only_the_token_occurs(a: Seq<char>, b: Seq<char>, k: int, j: int, i: int)
    requires
        0 <= k < STRIP_PATTERN_COUNT,
        0 <= j < STRIP_PATTERN_COUNT,
        plain_text(a),
        plain_text(b),
        occurs_at(a + strip_pattern_spec(k) + b, strip_pattern_spec(j), i),
    ensures
        j == k,
        i == a.len(),
{
    let p = strip_pattern_spec(k);
    let q = strip_pattern_spec(j);
    let x = a + p + b;
    lemma_token_shape(k);
    lemma_token_shape(j);
    assert(x.subrange(i, i + q.len())[0] == q[0]);
    assert(x[i] == q[0]);
    let e = i + q.len() - 1;
    assert(x.subrange(i, i + q.len())[q.len() - 1] == q[q.len() - 1]);
    assert(x[e] == q[q.len() - 1]);
    if i < a.len() {
        assert(x[i] == a[i]);
    } else if i >= a.len() + p.len() {
        assert(x[i] == b[i - a.len() - p.len()]);
    } else if i > a.len() {
        assert(x[i] == p[i - a.len()]);
    }
    assert(i == a.len());
    if e < a.len() + p.len() - 1 {
        assert(x[e] == p[e - a.len()]);
        if e == a.len() {
            assert(q.len() == 1);
        }
    } else if e > a.len() + p.len() - 1 {
        assert(x[e] == b[e - a.len() - p.len()]);
    }
    assert(q.len() == p.len());
    assert(x.subrange(i, i + q.len()) =~= p);
    if j != k {
        lemma_tokens_distinct(j, k);
    }
}

/// Plain text holds no token.
proof fn lemma_plain_has_no_token(s: Seq<char>, j: int)
    requires
        0 <= j < STRIP_PATTERN_COUNT,
        plain_text(s),
    ensures
        !contains(s, strip_pattern_spec(j)),
{
    lemma_token_shape(j);
    let q = strip_pattern_spec(j);
    assert forall|i: int| !#[trigger] occurs_at(s, q, i) by {
        if occurs_at(s, q, i) {
            assert(s.subrange(i, i + q.len())[0] == q[0]);
            assert(s[i] == q[0]);
        }
    }
}

/// Removing a token from plain text around it leaves the text joined.
proof fn lemma_remove_token(a: Seq<char>, b: Seq<char>, k: int)
    requires
        0 <= k < STRIP_PATTERN_COUNT,
        plain_text(a),
        plain_text(b),
    ensures
        remove_all(a + strip_pattern_spec(k) + b, strip_pattern_spec(k)) == a + b,
    decreases a.len(),
{
    let p = strip_pattern_spec(k);
    lemma_token_shape(k);
    let x = a + p + b;
    if a.len() == 0 {
        assert(x =~= p + b);
        assert(x.take(p.len() as int) =~= p);
        assert(x.skip(p.len() as int) =~= b);
        lemma_plain_has_no_token(b, k);
        lemma_remove_all_absent(b, p);
        assert(a + b =~= b);
    } else {
        let a1 = a.skip(1);
        assert(plain_text(a1)) by {
            assert forall|i: int| 0 <= i < a1.len() implies !is_open_bracket(#[trigger] a1[i]) && !is_close_bracket(a1[i])
                && !is_unsafe_control(a1[i]) by {
                assert(a1[i] == a[i + 1]);
            }
        }
        assert(x.take(p.len() as int)[0] == a[0]);
        assert(x.take(p.len() as int) != p);
        assert(x.skip(1) =~= a1 + p + b);
        lemma_remove_token(a1, b, k);
        assert(a + b =~= seq![a[0]] + (a1 + b));
    }
}

/// Stripping the first `n` tokens from plain text around token `k`: the
/// text is untouched until token `k`, and joined after it.
proof fn lemma_strip_stages(a: Seq<char>, b: Seq<char>, k: int, n: nat)
    requires
        0 <= k < STRIP_PATTERN_COUNT,
        n <= STRIP_PATTERN_COUNT,
        plain_text(a),
        plain_text(b),
    ensures
        strip_patterns_upto(a + strip_pattern_spec(k) + b, n) == (if n <= k {
            a + strip_pattern_spec(k) + b
        } else {
            a + b
        }),
    decreases n,
{
    if n > 0 {
        lemma_strip_stages(a, b, k, (n - 1) as nat);
        let x = a + strip_pattern_spec(k) + b;
        let j = n - 1;
        if j < k {
            assert forall|i: int| !#[trigger] occurs_at(x, strip_pattern_spec(j), i) by {
                if occurs_at(x, strip_pattern_spec(j), i) {
                    lemma_only_the_token_occurs(a, b, k, j, i);
                }
            }
            lemma_remove_all_absent(x, strip_pattern_spec(j));
        } else if j == k {
            lemma_remove_token(a, b, k);
        } else {
            assert(plain_text(a + b)) by {
                assert forall|i: int| 0 <= i < (a + b).len() implies !is_open_bracket(#[trigger] (a + b)[i])
                    && !is_close_bracket((a + b)[i]) && !is_unsafe_control((a + b)[i]) by {
                    if i < a.len() {
                        assert((a + b)[i] == a[i]);
                    } else {
                        assert((a + b)[i] == b[i - a.len()]);
                    }
                }
            }
            lemma_plain_has_no_token(a + b, j);
            lemma_remove_all_absent(a + b, strip_pattern_spec(j));
        }
    }
}

/// A special token between plain text (no brackets, no unsafe control
/// characters) is removed, and the text around it comes back joined.
pub proof fn law_sanitize_removes_embedded_token(a: Seq<char>, b: Seq<char>, k: int)
    requires
        0 <= k < STRIP_PATTERN_COUNT,
        plain_text(a),
        plain_text(b),
    ensures
        sanitized(a + strip_pattern_spec(k) + b) == a + b,
{
    let p = strip_pattern_spec(k);
    let x = a + p + b;
    lemma_token_shape(k);
    assert forall|i: int| 0 <= i < x.len() implies !is_unsafe_control(#[trigger] x[i]) by {
        if i < a.len() {
            assert(x[i] == a[i]);
        } else if i < a.len() + p.len() {
            assert(x[i] == p[i - a.len()]);
        } else {
            assert(x[i] == b[i - a.len() - p.len()]);
        }
    }
    lemma_drop_unsafe_clean(x);
    lemma_strip_stages(a, b, k, STRIP_PATTERN_COUNT as nat);
    assert(strip_pass(x) == a + b);
    assert(plain_text(a + b)) by {
        assert forall|i: int| 0 <= i < (a + b).len() implies !is_open_bracket(#[trigger] (a + b)[i])
            && !is_close_bracket((a + b)[i]) && !is_unsafe_control((a + b)[i]) by {
            if i < a.len() {
                assert((a + b)[i] == a[i]);
            } else {
                assert((a + b)[i] == b[i - a.len()]);
            }
        }
    }
    assert forall|j: int| 0 <= j < STRIP_PATTERN_COUNT implies !contains(a + b, #[trigger] strip_pattern_spec(j)) by {
        lemma_plain_has_no_token(a + b, j);
    }
    lemma_strip_absent(a + b, STRIP_PATTERN_COUNT as nat);
    assert(strip_pass(a + b) == a + b);
    assert(strip_until_stable(a + b) == a + b);
}

} // verus!
