use maolan_sampler::opcode_text::{
    format_sfz_opcode_text, parse_sfz_opcode_text, sanitize_sfz_opcode_key,
};

fn pair(k: &str, v: &str) -> (String, String) {
    (k.to_string(), v.to_string())
}

#[test]
fn format_skips_vendor_opcodes() {
    let ops = vec![pair("off_by", "7"), pair("script", "x.as"), pair("delay", "0.1"), pair("hint_foo", "1")];
    assert_eq!(format_sfz_opcode_text(&ops), "off_by=7 delay=0.1");
    assert_eq!(format_sfz_opcode_text(&[]), "");
    assert_eq!(format_sfz_opcode_text(&[pair("script", "x")]), "");
}

#[test]
fn parse_reads_key_value_words() {
    let ops = parse_sfz_opcode_text("  Off_By=7  script=foo Hint_x=1 noeq =5 de!lay=0.1=2 end= ");
    assert_eq!(
        ops,
        vec![pair("off_by", "7"), pair("delay", "0.1=2"), pair("end", "")]
    );
    assert!(parse_sfz_opcode_text("").is_empty());
}

#[test]
fn sanitize_keeps_key_characters() {
    assert_eq!(sanitize_sfz_opcode_key("Amp_VelTrack-1!"), "amp_veltrack-1");
    assert_eq!(sanitize_sfz_opcode_key("é="), "");
}

#[test]
fn formatted_text_reads_back() {
    let ops = vec![pair("off_by", "7"), pair("lochan", "2"), pair("locc1", "10")];
    assert_eq!(parse_sfz_opcode_text(&format_sfz_opcode_text(&ops)), ops);
}
