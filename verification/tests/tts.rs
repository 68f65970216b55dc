use wren::tts::{
    build_list_voices_script, build_speak_script, clamp_rate, parse_list_voices_output, speech_payload,
    tts_unsupported_error, validate_voice_name, TTS_MAX_TEXT_BYTES, TTS_VOICE_NAME_MAX_LEN,
};

#[test]
fn voice_name_empty_is_allowed() {
    assert!(validate_voice_name("").is_ok());
}

#[test]
fn voice_name_realistic_names_are_allowed() {
    assert!(validate_voice_name("Microsoft David Desktop").is_ok());
    assert!(validate_voice_name("Microsoft Zira Desktop").is_ok());
    assert!(validate_voice_name("Microsoft Hazel Desktop").is_ok());
    assert!(validate_voice_name("en-US-AriaNeural").is_ok());
    assert!(validate_voice_name("Voice_2").is_ok());
    assert!(validate_voice_name("Vocalizer 5.0").is_ok());
}

#[test]
fn voice_name_rejects_powershell_metacharacters() {
    for bad in [
        "Microsoft;Drop",
        "$(Get-Process)",
        "`whoami`",
        "Voice|cmd",
        "Voice&calc",
        "Voice'\"x",
        "Voice<x>",
        "Voice/x",
        "Voice\\x",
        "Voice(x)",
        "Voice\nNew",
    ] {
        assert!(validate_voice_name(bad).is_err(), "expected reject for {bad:?}");
    }
}

#[test]
fn voice_name_rejects_oversized_input() {
    let big = "A".repeat(TTS_VOICE_NAME_MAX_LEN + 1);
    assert!(validate_voice_name(&big).is_err());
    let exact = "A".repeat(TTS_VOICE_NAME_MAX_LEN);
    assert!(validate_voice_name(&exact).is_ok());
}

#[test]
fn clamp_rate_passes_in_range() {
    for r in -10..=10 {
        assert_eq!(clamp_rate(r), r);
    }
}

#[test]
fn clamp_rate_resets_out_of_range() {
    assert_eq!(clamp_rate(-11), 0);
    assert_eq!(clamp_rate(11), 0);
    assert_eq!(clamp_rate(i32::MIN), 0);
    assert_eq!(clamp_rate(i32::MAX), 0);
}

#[test]
fn build_speak_script_no_voice_omits_select_call() {
    let s = build_speak_script("C:/tmp/x.txt", "", 0);
    assert!(s.contains("Add-Type -AssemblyName System.Speech"));
    assert!(s.contains("$s.Rate = 0"));
    assert!(!s.contains("SelectVoice"));
    assert!(s.contains("'C:/tmp/x.txt'"));
}

#[test]
fn build_speak_script_includes_voice_when_set() {
    let s = build_speak_script("C:/tmp/x.txt", "Microsoft David Desktop", -3);
    assert!(s.contains("$s.SelectVoice('Microsoft David Desktop')"));
    assert!(s.contains("$s.Rate = -3"));
}

#[test]
fn build_speak_script_clamps_rate() {
    let s = build_speak_script("C:/tmp/x.txt", "", 999);
    assert!(s.contains("$s.Rate = 0"));
    let s = build_speak_script("C:/tmp/x.txt", "", -50);
    assert!(s.contains("$s.Rate = 0"));
}

#[test]
fn build_speak_script_doubles_apostrophes_in_paths() {
    let s = build_speak_script("C:/tmp/it's.txt", "", 0);
    assert!(s.contains("'C:/tmp/it''s.txt'"));
}

#[test]
fn build_speak_script_doubles_apostrophes_in_voice() {
    let s = build_speak_script("C:/tmp/x.txt", "It's a Voice", 0);
    assert!(s.contains("$s.SelectVoice('It''s a Voice')"));
}

#[test]
fn list_voices_script_prints_name_and_culture() {
    let s = build_list_voices_script();
    assert!(s.starts_with("Add-Type -AssemblyName System.Speech;"));
    assert!(s.contains("\"{0}|{1}\" -f $i.Name, $i.Culture"));
}

#[test]
fn parse_voices_handles_normal_output() {
    let stdout = "Microsoft David Desktop|en-US\nMicrosoft Zira Desktop|en-US\n";
    let parsed = parse_list_voices_output(stdout);
    assert_eq!(parsed.len(), 2);
    assert_eq!(parsed[0].name, "Microsoft David Desktop");
    assert_eq!(parsed[0].culture, "en-US");
    assert_eq!(parsed[1].name, "Microsoft Zira Desktop");
}

#[test]
fn parse_voices_skips_blank_lines_and_bom() {
    let stdout = "\u{feff}Microsoft David Desktop|en-US\n\n  \nMicrosoft Hazel|en-GB\n";
    let parsed = parse_list_voices_output(stdout);
    assert_eq!(parsed.len(), 2);
    assert_eq!(parsed[0].name, "Microsoft David Desktop");
    assert_eq!(parsed[1].name, "Microsoft Hazel");
    assert_eq!(parsed[1].culture, "en-GB");
}

#[test]
fn parse_voices_tolerates_missing_culture() {
    let stdout = "Plain Voice\nAnother|de-DE\n";
    let parsed = parse_list_voices_output(stdout);
    assert_eq!(parsed.len(), 2);
    assert_eq!(parsed[0].name, "Plain Voice");
    assert_eq!(parsed[0].culture, "");
    assert_eq!(parsed[1].culture, "de-DE");
}

#[test]
fn parse_voices_drops_lines_with_empty_name() {
    let stdout = "|en-US\n  | en-US\nReal Voice|en-US\n";
    let parsed = parse_list_voices_output(stdout);
    assert_eq!(parsed.len(), 1);
    assert_eq!(parsed[0].name, "Real Voice");
}

#[test]
fn parse_voices_empty_input_yields_empty_vec() {
    assert!(parse_list_voices_output("").is_empty());
    assert!(parse_list_voices_output("\n  \n").is_empty());
}

#[test]
fn speech_payload_trims_and_bounds_text() {
    assert_eq!(speech_payload("   "), None);
    assert_eq!(speech_payload("  hello \n"), Some("hello".to_string()));
    let long = "é".repeat(TTS_MAX_TEXT_BYTES + 5);
    assert_eq!(speech_payload(&long).unwrap().chars().count(), TTS_MAX_TEXT_BYTES);
    assert_eq!(tts_unsupported_error(), "text-to-speech is only supported on Windows");
}

#[test]
fn voice_listing_round_trips() {
    let voices = [("Microsoft David Desktop", "en-US"), ("Vocalizer 5.0", ""), ("Zira", "en-US")];
    let listing: String = voices.iter().map(|(n, c)| format!("{n}|{c}\n")).collect();
    let parsed = parse_list_voices_output(&listing);
    assert_eq!(parsed.len(), 3);
    for (p, (n, c)) in parsed.iter().zip(voices.iter()) {
        assert_eq!(p.name, *n);
        assert_eq!(p.culture, *c);
    }
}

#[test]
fn voice_is_selected_only_when_given() {
    assert!(!build_speak_script("C:\\t\\it's.txt", "", 0).contains("SelectVoice"));
    assert!(build_speak_script("C:\\t.txt", "O'Brien", 3).contains("$s.SelectVoice('O''Brien'); "));
}
