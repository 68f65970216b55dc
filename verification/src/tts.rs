//! Text-to-speech payload construction: voice-name validation, rate
//! clamping, the PowerShell scripts that drive SAPI and the parser for the
//! installed-voice listing.
use vstd::prelude::*;
use vstd::string::StringSliceAdditionalSpecFns;
use crate::text::{
    chars_of, decimal, decimal_exec, find, find_exec, lemma_find_sound, occurs_at, push_chars,
    push_str, replace_char, replace_char_exec, signed_decimal, signed_decimal_exec, slice_chars,
    string_of, trim, trim_exec, is_ws, lemma_find_first,
};

verus! {

broadcast use vstd::string::group_string_axioms;

/// Maximum SAPI voice name length accepted, in bytes.
pub const TTS_VOICE_NAME_MAX_LEN: usize = 128;

/// Hard cap on the text handed to SAPI, in characters.
pub const TTS_MAX_TEXT_BYTES: usize = 16_000;

/// One installed SAPI voice.
#[derive(Clone, Debug)]
pub struct InstalledVoice {
    /// Voice name as SAPI reports it, e.g. "Microsoft David Desktop".
    pub name: String,
    /// Display culture, e.g. "en-US"; empty when SAPI does not expose one.
    pub culture: String,
}

// ─── Voice-name validation ────────────────────────────────────────────────

/// `char::is_alphanumeric`: the Unicode `Alphabetic` or `Numeric`
/// property.
pub uninterp spec fn char_alphanumeric(c: char) -> bool;

/// ASCII letters and digits.
pub open spec fn ascii_alphanumeric(c: char) -> bool {
    ('a' <= c && c <= 'z') || ('A' <= c && c <= 'Z') || ('0' <= c && c <= '9')
}

/// Calls `char::is_alphanumeric`. Among ASCII characters exactly the
/// letters and digits carry the `Alphabetic` or `Numeric` property; for
/// other characters the Unicode tables are not restated.
#[verifier::external_body]
fn is_alphanumeric_exec(c: char) -> (b: bool)
    ensures
        b == char_alphanumeric(c),
        (c as u32) < 128 ==> (b <==> ascii_alphanumeric(c)),
{
    c.is_alphanumeric()
}

/// `format!("{:?}", c)`: the quoted, escaped debug form of a character.
pub uninterp spec fn char_debug(c: char) -> Seq<char>;

/// The debug form of `c` (std's `Debug` for `char`).
#[verifier::external_body]
fn char_debug_exec(c: char) -> (s: String)
    ensures
        s@ == char_debug(c),
{
    format!("{:?}", c)
}

/// Characters that may appear in a voice name: letters, digits, space,
/// `-`, `_` and `.`.
pub open spec fn voice_char_allowed(c: char) -> bool {
    char_alphanumeric(c) || c == ' ' || c == '-' || c == '_' || c == '.'
}

/// The ASCII characters allowed in a voice name: letters, digits, space,
/// `-`, `_` and `.`.
pub open spec fn ascii_voice_char(c: char) -> bool {
    ascii_alphanumeric(c) || c == ' ' || c == '-' || c == '_' || c == '.'
}

/// Characters that PowerShell gives a meaning to: quotes, backtick, `$`,
/// `;`, `|`, `&`, parentheses, angle brackets, slashes and line breaks.
pub open spec fn shell_meta(c: char) -> bool {
    c == '\'' || c == '"' || c == '`' || c == '$' || c == ';' || c == '|' || c == '&' || c == '(' || c == ')'
        || c == '<' || c == '>' || c == '/' || c == '\\' || c == '\n' || c == '\r'
}

/// Every character of `name` is allowed.
pub open spec fn voice_chars_allowed(name: Seq<char>) -> bool {
    forall|i: int| 0 <= i < name.len() ==> voice_char_allowed(#[trigger] name[i])
}

/// Validates that `name` looks like a plausible SAPI voice name. Empty
/// means "system default" and is accepted; otherwise the name must be at
/// most 128 bytes and consist of letters, digits, space, `-`, `_` and `.`
/// only, which rejects every PowerShell metacharacter.
pub fn validate_voice_name(name: &str) -> (r: Result<(), String>)
    ensures
        name@.len() == 0 ==> r is Ok,
        name@.len() > 0 && name.len() > TTS_VOICE_NAME_MAX_LEN ==> (r matches Err(e)
            && e@ == "voice name is too long ("@ + decimal(name.len() as nat) + " > "@
            + decimal(TTS_VOICE_NAME_MAX_LEN as nat) + " bytes)"@),
        name@.len() > 0 && name.len() <= TTS_VOICE_NAME_MAX_LEN ==> (r is Ok
            <==> voice_chars_allowed(name@)),
        name@.len() > 0 && name.len() <= TTS_VOICE_NAME_MAX_LEN ==> (r matches Err(e)
            ==> exists|i: int|
            0 <= i < name@.len() && !voice_char_allowed(#[trigger] name@[i]) && (forall|k: int|
                0 <= k < i ==> voice_char_allowed(name@[k])) && e@
                == "voice name contains illegal character "@ + char_debug(name@[i])),
        r is Ok ==> forall|i: int| 0 <= i < name@.len() && (name@[i] as u32) < 128 ==> ascii_voice_char(
            #[trigger] name@[i]),
        r is Ok ==> forall|i: int| 0 <= i < name@.len() ==> !shell_meta(#[trigger] name@[i]),
        name.len() <= TTS_VOICE_NAME_MAX_LEN && (forall|i: int| 0 <= i < name@.len() ==> ascii_voice_char(
            #[trigger] name@[i])) ==> r is Ok,
{
    if name.is_empty() {
        return Ok(());
    }
    let blen = name.len();
    if blen > TTS_VOICE_NAME_MAX_LEN {
        let mut out: Vec<char> = Vec::new();
        push_str(&mut out, "voice name is too long (");
        let a = decimal_exec(blen as u64);
        push_chars(&mut out, &a);
        push_str(&mut out, " > ");
        let b = decimal_exec(TTS_VOICE_NAME_MAX_LEN as u64);
        push_chars(&mut out, &b);
        push_str(&mut out, " bytes)");
        return Err(string_of(&out));
    }
    let v = chars_of(name);
    let mut i: usize = 0;
    while i < v.len()
        invariant
            i <= v@.len(),
            v@ == name@,
            blen == name.len(),
            blen <= TTS_VOICE_NAME_MAX_LEN,
            forall|k: int| 0 <= k < i ==> voice_char_allowed(#[trigger] v@[k]),
            forall|k: int| 0 <= k < i && (v@[k] as u32) < 128 ==> ascii_voice_char(#[trigger] v@[k]),
            forall|k: int| 0 <= k < i ==> !shell_meta(#[trigger] v@[k]),
        decreases v.len() - i,
    {
        let ch = v[i];
        assert(ascii_voice_char(ch) ==> (ch as u32) < 128);
        assert(shell_meta(ch) ==> (ch as u32) < 128 && !ascii_voice_char(ch));
        let allowed = is_alphanumeric_exec(ch) || ch == ' ' || ch == '-' || ch == '_' || ch == '.';
        if !allowed {
            let mut out: Vec<char> = Vec::new();
            push_str(&mut out, "voice name contains illegal character ");
            let d = char_debug_exec(ch);
            push_str(&mut out, d.as_str());
            let e = string_of(&out);
            assert(!voice_char_allowed(name@[i as int]));
            return Err(e);
        }
        i = i + 1;
    }
    Ok(())
}

// ─── Rate and scripts ─────────────────────────────────────────────────────

/// SAPI's documented rate range is `-10..=10`; anything outside maps to
/// the neutral rate 0.
pub open spec fn clamp_rate_spec(rate: i32) -> i32 {
    if -10 <= rate && rate <= 10 { rate } else { 0 }
}

/// Clamps `rate` to SAPI's `-10..=10` range; out-of-range maps to 0.
pub fn clamp_rate(rate: i32) -> (r: i32)
    ensures
        r == clamp_rate_spec(rate),
{
    if -10 <= rate && rate <= 10 {
        rate
    } else {
        0
    }
}

/// A PowerShell single-quoted literal body: every `'` doubled.
pub open spec fn ps_quote(s: Seq<char>) -> Seq<char> {
    replace_char(s, '\'', "''"@)
}

/// The script `build_speak_script` produces.
pub open spec fn speak_script_spec(text_path: Seq<char>, voice: Seq<char>, rate: i32) -> Seq<char> {
    "Add-Type -AssemblyName System.Speech; $s = New-Object System.Speech.Synthesis.SpeechSynthesizer; $s.Rate = "@
        + signed_decimal(clamp_rate_spec(rate) as int) + "; "@ + (if voice.len() == 0 {
        Seq::<char>::empty()
    } else {
        "$s.SelectVoice('"@ + ps_quote(voice) + "'); "@
    }) + "$t = Get-Content -Raw -Encoding UTF8 -LiteralPath '"@ + ps_quote(text_path)
        + "'; $s.Speak($t); $s.Dispose()"@
}

/// Builds the PowerShell script that speaks the text stored at
/// `text_path`. The utterance never appears on the command line; the voice
/// name and path are single-quoted literals with inner apostrophes
/// doubled, and the rate is clamped.
pub fn build_speak_script(text_path: &str, voice: &str, rate: i32) -> (r: String)
    ensures
        r@ == speak_script_spec(text_path@, voice@, rate),
{
    let rate = clamp_rate(rate);
    let mut out: Vec<char> = Vec::new();
    push_str(
        &mut out,
        "Add-Type -AssemblyName System.Speech; $s = New-Object System.Speech.Synthesis.SpeechSynthesizer; $s.Rate = ",
    );
    let rd = signed_decimal_exec(rate as i64);
    push_chars(&mut out, &rd);
    push_str(&mut out, "; ");
    let ghost mid = out@;
    if !voice.is_empty() {
        push_str(&mut out, "$s.SelectVoice('");
        let q = chars_of("''");
        let escaped = replace_char_exec(&chars_of(voice), '\'', &q);
        push_chars(&mut out, &escaped);
        push_str(&mut out, "'); ");
    }
    push_str(&mut out, "$t = Get-Content -Raw -Encoding UTF8 -LiteralPath '");
    let q2 = chars_of("''");
    let escaped_path = replace_char_exec(&chars_of(text_path), '\'', &q2);
    push_chars(&mut out, &escaped_path);
    push_str(&mut out, "'; $s.Speak($t); $s.Dispose()");
    proof {
        if voice@.len() == 0 {
            assert(mid + Seq::<char>::empty() =~= mid);
        }
    }
    assert(out@ =~= speak_script_spec(text_path@, voice@, rate));
    string_of(&out)
}

/// `p` occurs in `a + p + b`.
proof fn lemma_contains_middle(a: Seq<char>, p: Seq<char>, b: Seq<char>)
    ensures
        crate::text::contains(a + p + b, p),
{
    assert((a + p + b).subrange(a.len() as int, (a.len() + p.len()) as int) =~= p);
    assert(crate::text::occurs_at(a + p + b, p, a.len() as int));
}

/// The speech script sets the clamped rate, reads the text from the
/// quoted path, and selects the quoted voice when one is given; each
/// quoted value has its apostrophes doubled.
pub proof fn law_speak_script_parts(text_path: Seq<char>, voice: Seq<char>, rate: i32)
    ensures
        crate::text::contains(
            speak_script_spec(text_path, voice, rate),
            "$s.Rate = "@ + signed_decimal(clamp_rate_spec(rate) as int) + "; "@,
        ),
        crate::text::contains(
            speak_script_spec(text_path, voice, rate),
            "-LiteralPath '"@ + ps_quote(text_path) + "'; "@,
        ),
        voice.len() > 0 ==> crate::text::contains(
            speak_script_spec(text_path, voice, rate),
            "$s.SelectVoice('"@ + ps_quote(voice) + "'); "@,
        ),
{
    let s = speak_script_spec(text_path, voice, rate);
    let head = "Add-Type -AssemblyName System.Speech; $s = New-Object System.Speech.Synthesis.SpeechSynthesizer; "@;
    let rate_part = "$s.Rate = "@ + signed_decimal(clamp_rate_spec(rate) as int) + "; "@;
    let sel = if voice.len() == 0 {
        Seq::<char>::empty()
    } else {
        "$s.SelectVoice('"@ + ps_quote(voice) + "'); "@
    };
    let get = "$t = Get-Content -Raw -Encoding UTF8 "@;
    let path_part = "-LiteralPath '"@ + ps_quote(text_path) + "'; "@;
    let tail = "$s.Speak($t); $s.Dispose()"@;
    reveal_strlit("Add-Type -AssemblyName System.Speech; $s = New-Object System.Speech.Synthesis.SpeechSynthesizer; $s.Rate = ");
    reveal_strlit("Add-Type -AssemblyName System.Speech; $s = New-Object System.Speech.Synthesis.SpeechSynthesizer; ");
    reveal_strlit("$s.Rate = ");
    reveal_strlit("; ");
    reveal_strlit("$t = Get-Content -Raw -Encoding UTF8 -LiteralPath '");
    reveal_strlit("$t = Get-Content -Raw -Encoding UTF8 ");
    reveal_strlit("-LiteralPath '");
    reveal_strlit("'; $s.Speak($t); $s.Dispose()");
    reveal_strlit("'; ");
    reveal_strlit("$s.Speak($t); $s.Dispose()");
    assert(s =~= head + rate_part + (sel + get + path_part + tail));
    lemma_contains_middle(head, rate_part, sel + get + path_part + tail);
    assert(s =~= (head + rate_part + sel + get) + path_part + tail);
    lemma_contains_middle(head + rate_part + sel + get, path_part, tail);
    if voice.len() > 0 {
        assert(s =~= (head + rate_part) + sel + (get + path_part + tail));
        lemma_contains_middle(head + rate_part, sel, get + path_part + tail);
    }
}

/// The PowerShell script that prints installed SAPI voices as
/// `name|culture` lines.
pub open spec fn list_voices_script_spec() -> Seq<char> {
    "Add-Type -AssemblyName System.Speech; $s = New-Object System.Speech.Synthesis.SpeechSynthesizer; $s.GetInstalledVoices() | ForEach-Object { $i = $_.VoiceInfo; Write-Output (\"{0}|{1}\" -f $i.Name, $i.Culture) }; $s.Dispose()"@
}

/// Builds the PowerShell script that prints installed SAPI voices as
/// pipe-delimited `name|culture` lines on stdout.
pub fn build_list_voices_script() -> (r: String)
    ensures
        r@ == list_voices_script_spec(),
{
    crate::text::owned(
        "Add-Type -AssemblyName System.Speech; $s = New-Object System.Speech.Synthesis.SpeechSynthesizer; $s.GetInstalledVoices() | ForEach-Object { $i = $_.VoiceInfo; Write-Output (\"{0}|{1}\" -f $i.Name, $i.Culture) }; $s.Dispose()",
    )
}

// ─── Parsing the voice listing ────────────────────────────────────────────

/// `s` without its leading byte-order marks.
pub open spec fn trim_start_bom(s: Seq<char>) -> Seq<char>
    decreases s.len(),
{
    if s.len() > 0 && s[0] == '\u{feff}' {
        trim_start_bom(s.skip(1))
    } else {
        s
    }
}

/// A line without the `\r` of a `\r\n` ending.
pub open spec fn strip_cr(l: Seq<char>) -> Seq<char> {
    if l.len() > 0 && l.last() == '\r' { l.drop_last() } else { l }
}

/// The voice record (name, culture) a listing line yields, if any.
pub open spec fn voice_of_line(line: Seq<char>) -> Seq<(Seq<char>, Seq<char>)> {
    let l = trim(trim_start_bom(line));
    let (name, culture) = match find(l, seq!['|']) {
        Some(i) => (trim(l.take(i)), trim(l.skip(i + 1))),
        None => (trim(l), Seq::<char>::empty()),
    };
    if l.len() == 0 || name.len() == 0 {
        Seq::empty()
    } else {
        seq![(name, culture)]
    }
}

/// The voice records of a listing, line by line (`str::lines`: split at
/// `\n`, a `\r` before the `\n` dropped, no empty line after a final
/// `\n`).
pub open spec fn voices_spec(s: Seq<char>) -> Seq<(Seq<char>, Seq<char>)>
    decreases s.len(),
{
    if s.len() == 0 {
        Seq::empty()
    } else {
        match find(s, seq!['\n']) {
            Some(i) => if 0 <= i < s.len() {
                voice_of_line(strip_cr(s.take(i))) + voices_spec(s.skip(i + 1))
            } else {
                Seq::empty()
            },
            None => voice_of_line(s),
        }
    }
}

/// The abstract (name, culture) pair of a voice record.
pub open spec fn voice_view(v: InstalledVoice) -> (Seq<char>, Seq<char>) {
    (v.name@, v.culture@)
}

/// The voice record a single line yields.
fn voice_of_line_exec(line: &Vec<char>) -> (r: Option<InstalledVoice>)
    ensures
        r is None ==> voice_of_line(line@).len() == 0,
        r matches Some(v) ==> voice_of_line(line@) == seq![voice_view(v)],
{
    let mut i: usize = 0;
    assert(line@.skip(0) =~= line@);
    while i < line.len() && line[i] == '\u{feff}'
        invariant
            i <= line@.len(),
            trim_start_bom(line@.skip(i as int)) == trim_start_bom(line@),
        decreases line@.len() - i,
    {
        assert(line@.skip(i as int).skip(1) =~= line@.skip(i + 1));
        i = i + 1;
    }
    let rest = slice_chars(line, i, line.len());
    assert(rest@ =~= line@.skip(i as int));
    assert(trim_start_bom(rest@) == rest@);
    let l = trim_exec(&rest);
    if l.len() == 0 {
        return None;
    }
    let bar: Vec<char> = vec!['|'];
    assert(bar@ =~= seq!['|']);
    let (name, culture) = match find_exec(&l, &bar) {
        Some(k) => {
            proof { lemma_find_sound(l@, bar@); }
            let a = slice_chars(&l, 0, k);
            let b = slice_chars(&l, k + 1, l.len());
            assert(a@ =~= l@.take(k as int));
            assert(b@ =~= l@.skip(k + 1));
            (trim_exec(&a), trim_exec(&b))
        },
        None => (trim_exec(&l), Vec::new()),
    };
    if name.len() == 0 {
        return None;
    }
    let v = InstalledVoice { name: string_of(&name), culture: string_of(&culture) };
    Some(v)
}

/// Parses the voice listing into `InstalledVoice` records, tolerating
/// byte-order marks, blank lines and missing culture fields; lines with an
/// empty name are dropped.
pub fn parse_list_voices_output(stdout: &str) -> (r: Vec<InstalledVoice>)
    ensures
        r@.map_values(|v: InstalledVoice| voice_view(v)) == voices_spec(stdout@),
{
    let s = chars_of(stdout);
    let mut out: Vec<InstalledVoice> = Vec::new();
    let mut pos: usize = 0;
    let nl: Vec<char> = vec!['\n'];
    assert(nl@ =~= seq!['\n']);
    assert(s@.skip(0) =~= s@);
    while pos < s.len()
        invariant
            pos <= s@.len(),
            nl@ == seq!['\n'],
            out@.map_values(|v: InstalledVoice| voice_view(v)) + voices_spec(s@.skip(pos as int))
                == voices_spec(s@),
        decreases s@.len() - pos,
    {
        let rest = slice_chars(&s, pos, s.len());
        assert(rest@ =~= s@.skip(pos as int));
        let ghost before = out@.map_values(|v: InstalledVoice| voice_view(v));
        match find_exec(&rest, &nl) {
            Some(k) => {
                proof { lemma_find_sound(rest@, nl@); }
                let mut end = k;
                if end > 0 && rest[end - 1] == '\r' {
                    end = end - 1;
                }
                let line = slice_chars(&rest, 0, end);
                assert(line@ =~= strip_cr(rest@.take(k as int)));
                let one = voice_of_line_exec(&line);
                match one {
                    Some(v) => {
                        out.push(v);
                    },
                    None => {},
                }
                assert(rest@.skip(k + 1) =~= s@.skip(pos + k + 1));
                assert(out@.map_values(|v: InstalledVoice| voice_view(v)) =~= before + voice_of_line(
                    line@,
                ));
                pos = pos + k + 1;
            },
            None => {
                let one = voice_of_line_exec(&rest);
                match one {
                    Some(v) => {
                        out.push(v);
                    },
                    None => {},
                }
                assert(out@.map_values(|v: InstalledVoice| voice_view(v)) =~= before + voice_of_line(
                    rest@,
                ));
                assert(s@.skip(s@.len() as int) =~= Seq::<char>::empty());
                pos = s.len();
            },
        }
    }
    assert(s@.skip(pos as int) =~= Seq::<char>::empty());
    assert(out@.map_values(|v: InstalledVoice| voice_view(v)) + Seq::empty() =~= out@.map_values(
        |v: InstalledVoice| voice_view(v),
    ));
    out
}

/// The text actually spoken: the input trimmed, at most
/// `TTS_MAX_TEXT_BYTES` characters of it; `None` when nothing is left.
pub fn speech_payload(text: &str) -> (r: Option<String>)
    ensures
        crate::text::trim(text@).len() == 0 ==> r is None,
        crate::text::trim(text@).len() > 0 ==> (r matches Some(p) && p@ == crate::text::take_upto(
            crate::text::trim(text@),
            TTS_MAX_TEXT_BYTES as int,
        )),
{
    let t = crate::text::trim_exec(&crate::text::chars_of(text));
    if t.len() == 0 {
        return None;
    }
    let n = if t.len() > TTS_MAX_TEXT_BYTES { TTS_MAX_TEXT_BYTES } else { t.len() };
    let kept = crate::text::slice_chars(&t, 0, n);
    assert(kept@ =~= crate::text::take_upto(t@, TTS_MAX_TEXT_BYTES as int));
    Some(crate::text::string_of(&kept))
}

/// The error of the speech commands where speech is not available.
pub fn tts_unsupported_error() -> (e: String)
    ensures
        e@ == "text-to-speech is only supported on Windows"@,
{
    crate::text::owned("text-to-speech is only supported on Windows")
}

/// The voice listing round-trips a voice: the line `name|culture` that
/// the listing script prints for a voice whose name has no `|`, starts
/// with no byte-order mark, and neither starts nor ends with whitespace,
/// and whose culture neither starts nor ends with whitespace, is read back
/// as exactly that voice.
pub proof fn law_voice_line_round_trip(name: Seq<char>, culture: Seq<char>)
    requires
        name.len() > 0,
        name[0] != '\u{feff}',
        !is_ws(name[0]),
        !is_ws(name.last()),
        forall|i: int| 0 <= i < name.len() ==> name[i] != '|',
        culture.len() > 0 ==> !is_ws(culture[0]) && !is_ws(culture.last()),
    ensures
        voice_of_line(name + seq!['|'] + culture) == seq![(name, culture)],
{
    let line = name + seq!['|'] + culture;
    let i = name.len() as int;
    assert(line[0] == name[0]);
    assert(trim_start_bom(line) == line);
    assert(crate::text::trim_start(line) == line);
    if culture.len() > 0 {
        assert(line.last() == culture.last());
    } else {
        assert(line.last() == '|');
    }
    assert(crate::text::trim_end(line) == line);
    assert(trim(line) == line);
    assert(line.subrange(i, i + 1) =~= seq!['|']);
    assert forall|k: int| 0 <= k < i implies !occurs_at(line, seq!['|'], k) by {
        assert(line.subrange(k, k + 1)[0] == name[k]);
    }
    lemma_find_first(line, seq!['|'], i);
    assert(line.take(i) =~= name);
    assert(line.skip(i + 1) =~= culture);
    assert(crate::text::trim_start(name) == name);
    assert(crate::text::trim_end(name) == name);
    if culture.len() > 0 {
        assert(crate::text::trim_start(culture) == culture);
        assert(crate::text::trim_end(culture) == culture);
    } else {
        assert(trim(culture) =~= culture);
    }
}

/// What the listing script prints for one voice: `name|culture` and a
/// line break.
pub open spec fn voice_line(v: (Seq<char>, Seq<char>)) -> Seq<char> {
    v.0 + seq!['|'] + v.1 + seq!['\n']
}

/// The listing printed for `vs`, one line per voice.
pub open spec fn voice_listing(vs: Seq<(Seq<char>, Seq<char>)>) -> Seq<char>
    decreases vs.len(),
{
    if vs.len() == 0 {
        Seq::empty()
    } else {
        voice_line(vs[0]) + voice_listing(vs.skip(1))
    }
}

/// A voice that the listing format carries unchanged: a name that is
/// non-empty, has no `|` and no line break, starts with no byte-order
/// mark and neither starts nor ends with whitespace; a culture without
/// line breaks that neither starts nor ends with whitespace.
pub open spec fn listable_voice(v: (Seq<char>, Seq<char>)) -> bool {
    &&& v.0.len() > 0
    &&& v.0[0] != '\u{feff}'
    &&& !is_ws(v.0[0])
    &&& !is_ws(v.0.last())
    &&& forall|i: int| 0 <= i < v.0.len() ==> #[trigger] v.0[i] != '|' && v.0[i] != '\n' && v.0[i] != '\r'
    &&& forall|i: int| 0 <= i < v.1.len() ==> #[trigger] v.1[i] != '\n' && v.1[i] != '\r'
    &&& v.1.len() > 0 ==> !is_ws(v.1[0]) && !is_ws(v.1.last())
}

/// Listing voices and reading the listing back gives the same voices,
/// in order.
pub proof fn law_voice_listing_round_trip(vs: Seq<(Seq<char>, Seq<char>)>)
    requires
        forall|i: int| 0 <= i < vs.len() ==> listable_voice(#[trigger] vs[i]),
    ensures
        voices_spec(voice_listing(vs)) == vs,
    decreases vs.len(),
{
    if vs.len() > 0 {
        let v = vs[0];
        let rest = vs.skip(1);
        assert forall|i: int| 0 <= i < rest.len() implies listable_voice(#[trigger] rest[i]) by {
            assert(rest[i] == vs[i + 1]);
        }
        law_voice_listing_round_trip(rest);
        assert(listable_voice(v));
        let line = v.0 + seq!['|'] + v.1;
        let s = voice_listing(vs);
        let n = line.len() as int;
        assert(s =~= line + seq!['\n'] + voice_listing(rest));
        assert forall|k: int| 0 <= k < n implies #[trigger] line[k] != '\n' by {
            if k < v.0.len() {
            } else if k == v.0.len() {
            } else {
                assert(line[k] == v.1[k - v.0.len() - 1]);
            }
        }
        assert(s.subrange(n, n + 1) =~= seq!['\n']);
        assert forall|k: int| 0 <= k < n implies !occurs_at(s, seq!['\n'], k) by {
            assert(s.subrange(k, k + 1)[0] == line[k]);
        }
        lemma_find_first(s, seq!['\n'], n);
        assert(s.take(n) =~= line);
        assert(s.skip(n + 1) =~= voice_listing(rest));
        if v.1.len() > 0 {
            assert(line.last() == v.1.last());
        } else {
            assert(line.last() == '|');
        }
        assert(strip_cr(line) == line);
        law_voice_line_round_trip(v.0, v.1);
        assert(vs =~= seq![v] + rest);
    }
}

/// A prefix of `replace_char(u, c, r)` without `c` is the same prefix of
/// `u`, when `r` is made of `c` only.
proof fn lemma_replace_prefix(u: Seq<char>, c: char, r: Seq<char>, m: int)
    requires
        r.len() > 0,
        forall|k: int| 0 <= k < r.len() ==> #[trigger] r[k] == c,
        0 <= m <= replace_char(u, c, r).len(),
        forall|k: int| 0 <= k < m ==> #[trigger] replace_char(u, c, r)[k] != c,
    ensures
        m <= u.len(),
        u.take(m) == replace_char(u, c, r).take(m),
    decreases u.len(),
{
    if m > 0 {
        let h = if u[0] == c { r } else { seq![u[0]] };
        let rest = replace_char(u.skip(1), c, r);
        assert(replace_char(u, c, r) == h + rest);
        assert(replace_char(u, c, r)[0] == h[0]);
        if u[0] == c {
            assert(h[0] == c);
        }
        assert(u[0] != c);
        assert forall|k: int| 0 <= k < m - 1 implies #[trigger] rest[k] != c by {
            assert(replace_char(u, c, r)[k + 1] == rest[k]);
        }
        lemma_replace_prefix(u.skip(1), c, r, m - 1);
        assert(u.take(m) =~= seq![u[0]] + u.skip(1).take(m - 1));
        assert(replace_char(u, c, r).take(m) =~= seq![u[0]] + rest.take(m - 1));
    }
}

/// Text without `c` found in `replace_char(t, c, r)`, with `r` made of
/// `c` only, is found in `t`.
proof fn lemma_replace_keeps_absence(t: Seq<char>, c: char, r: Seq<char>, q: Seq<char>)
    requires
        r.len() > 0,
        forall|k: int| 0 <= k < r.len() ==> #[trigger] r[k] == c,
        q.len() > 0,
        forall|k: int| 0 <= k < q.len() ==> #[trigger] q[k] != c,
        crate::text::contains(replace_char(t, c, r), q),
    ensures
        crate::text::contains(t, q),
    decreases t.len(),
{
    let x = replace_char(t, c, r);
    let i = choose|i: int| occurs_at(x, q, i);
    assert(x.len() > 0);
    let h = if t[0] == c { r } else { seq![t[0]] };
    let rest = replace_char(t.skip(1), c, r);
    assert(x == h + rest);
    if i >= h.len() {
        assert(rest.subrange(i - h.len(), i - h.len() + q.len()) =~= x.subrange(i, i + q.len()));
        assert(occurs_at(rest, q, i - h.len()));
        lemma_replace_keeps_absence(t.skip(1), c, r, q);
        let i2 = choose|i2: int| occurs_at(t.skip(1), q, i2);
        crate::text::lemma_occurs_skip(t, q, i2 + 1, 1);
        assert(occurs_at(t, q, i2 + 1));
    } else {
        assert(x.subrange(i, i + q.len())[0] == q[0]);
        if t[0] == c {
            assert(x[i] == r[i]);
        }
        assert(t[0] != c && i == 0);
        assert forall|k: int| 0 <= k < q.len() implies #[trigger] x.take(q.len() as int)[k] != c by {
            assert(x.take(q.len() as int)[k] == x.subrange(0, q.len() as int)[k]);
        }
        assert forall|k: int| 0 <= k < q.len() implies #[trigger] x[k] != c by {
            assert(x.take(q.len() as int)[k] == x[k]);
        }
        lemma_replace_prefix(t, c, r, q.len() as int);
        assert(t.subrange(0, q.len() as int) =~= t.take(q.len() as int));
        assert(x.subrange(0, q.len() as int) =~= x.take(q.len() as int));
        assert(occurs_at(t, q, 0));
    }
}

/// The digits of a number.
proof fn lemma_decimal_digits(n: nat)
    ensures
        forall|k: int| 0 <= k < decimal(n).len() ==> '0' <= #[trigger] decimal(n)[k] && decimal(n)[k] <= '9',
    decreases n,
{
    if n < 10 {
        assert(crate::text::digit(n) as u32 == 48 + n);
    } else {
        lemma_decimal_digits(n / 10);
        assert(crate::text::digit(n % 10) as u32 == 48 + n % 10);
        let d = decimal(n / 10);
        assert(decimal(n) == d + seq![crate::text::digit(n % 10)]);
        assert forall|k: int| 0 <= k < decimal(n).len() implies '0' <= #[trigger] decimal(n)[k] && decimal(n)[k] <= '9' by {
            if k < d.len() {
                assert(decimal(n)[k] == d[k]);
            }
        }
    }
}

/// The speech script selects a voice exactly when one is given, as long
/// as the text path itself does not spell `SelectVoice`: the voice name
/// can only appear as the quoted argument of that call.
pub proof fn law_select_voice_only_with_voice(text_path: Seq<char>, voice: Seq<char>, rate: i32)
    requires
        !crate::text::contains(text_path, "SelectVoice"@),
    ensures
        crate::text::contains(speak_script_spec(text_path, voice, rate), "SelectVoice"@) == (voice.len() > 0),
{
    reveal_strlit("SelectVoice");
    let q = "SelectVoice"@;
    let s = speak_script_spec(text_path, voice, rate);
    if voice.len() > 0 {
        law_speak_script_parts(text_path, voice, rate);
        reveal_strlit("$s.SelectVoice('");
        reveal_strlit("'); ");
        let w = "$s.SelectVoice('"@ + ps_quote(voice) + "'); "@;
        let i = choose|i: int| occurs_at(s, w, i);
        assert(s.subrange(i + 3, i + 14) =~= w.subrange(3, 14));
        assert(w.subrange(3, 14) =~= q);
        assert(occurs_at(s, q, i + 3));
    } else {
        let head = "Add-Type -AssemblyName System.Speech; $s = New-Object System.Speech.Synthesis.SpeechSynthesizer; $s.Rate = "@;
        let get = "$t = Get-Content -Raw -Encoding UTF8 -LiteralPath '"@;
        let tail = "'; $s.Speak($t); $s.Dispose()"@;
        reveal_strlit("Add-Type -AssemblyName System.Speech; $s = New-Object System.Speech.Synthesis.SpeechSynthesizer; $s.Rate = ");
        reveal_strlit("$t = Get-Content -Raw -Encoding UTF8 -LiteralPath '");
        reveal_strlit("'; $s.Speak($t); $s.Dispose()");
        reveal_strlit("; ");
        reveal_strlit("''");
        let sd = signed_decimal(clamp_rate_spec(rate) as int);
        let l = head + sd + "; "@ + get;
        let qp = ps_quote(text_path);
        assert(s =~= l + qp + tail);
        // No `V` outside the quoted path.
        let r = clamp_rate_spec(rate) as int;
        if r < 0 {
            lemma_decimal_digits((-r) as nat);
        } else {
            lemma_decimal_digits(r as nat);
        }
        assert forall|k: int| 0 <= k < sd.len() implies #[trigger] sd[k] != 'V' by {
            if r < 0 {
                if k > 0 {
                    assert(sd[k] == decimal((-r) as nat)[k - 1]);
                }
            } else {
                assert(sd[k] == decimal(r as nat)[k]);
            }
        }
        assert forall|k: int| 0 <= k < head.len() implies #[trigger] head[k] != 'V' by {}
        assert forall|k: int| 0 <= k < get.len() implies #[trigger] get[k] != 'V' by {}
        assert forall|k: int| 0 <= k < tail.len() implies #[trigger] tail[k] != 'V' by {}
        assert forall|k: int| 0 <= k < l.len() implies #[trigger] l[k] != 'V' by {
            if k < head.len() {
                assert(l[k] == head[k]);
            } else if k < head.len() + sd.len() {
                assert(l[k] == sd[k - head.len()]);
            } else if k < head.len() + sd.len() + 2 {
            } else {
                assert(l[k] == get[k - head.len() - sd.len() - 2]);
            }
        }
        assert(l[l.len() - 1] == '\'');
        assert forall|k: int| 0 <= k < q.len() implies #[trigger] q[k] != '\'' by {}
        assert forall|i: int| !#[trigger] occurs_at(s, q, i) by {
            if occurs_at(s, q, i) {
                assert(s.subrange(i, i + 11)[6] == q[6]);
                assert(s[i + 6] == 'V');
                if i + 6 < l.len() {
                    assert(s[i + 6] == l[i + 6]);
                } else if i + 6 >= l.len() + qp.len() {
                    assert(s[i + 6] == tail[i + 6 - l.len() - qp.len()]);
                }
                if i < l.len() {
                    let k = l.len() - 1 - i;
                    assert(s.subrange(i, i + 11)[k] == q[k]);
                    assert(s[l.len() - 1] == l[l.len() - 1]);
                }
                if i + 11 > l.len() + qp.len() {
                    let k = l.len() + qp.len() - i;
                    assert(s.subrange(i, i + 11)[k] == q[k]);
                    assert(s[(l.len() + qp.len()) as int] == tail[0]);
                }
                assert(qp.subrange(i - l.len(), i - l.len() + 11) =~= s.subrange(i, i + 11));
                assert(occurs_at(qp, q, i - l.len()));
                assert forall|k: int| 0 <= k < "''"@.len() implies #[trigger] "''"@[k] == '\'' by {}
                lemma_replace_keeps_absence(text_path, '\'', "''"@, q);
            }
        }
    }
}

} // verus!
