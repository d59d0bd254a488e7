use maolan_sampler::sfz_comments::strip_comments;
use maolan_sampler::sfz_directives::{split_lines, Preprocessor};
use maolan_sampler::sfz_handled::{group_extra_opcodes, zone_extra_opcodes};
use maolan_sampler::sfz_layout::layout_of_text;
use maolan_sampler::sfz_preprocess::{DefineTable, SfzError};
use maolan_sampler::sfz_tokenize::{tokenize, TokenKind};

fn opcode_is(kind: &TokenKind, key: &str, value: &str) -> bool {
    matches!(kind, TokenKind::Opcode(k, v) if k == key && v == value)
}

fn header_is(kind: &TokenKind, name: &str) -> bool {
    matches!(kind, TokenKind::Header(n) if n == name)
}

/// Runs the preprocessor over text that includes no other file.
fn preprocess(text: &str) -> Result<String, SfzError> {
    let stripped = strip_comments(text);
    let lines = split_lines(&stripped);
    let mut defines = DefineTable::new();
    let mut pre = Preprocessor::new();
    for (line_no, line) in lines.iter().enumerate() {
        if let Some(path) = pre.feed_line(&mut defines, line_no, line)? {
            panic!("unexpected include of {path}");
        }
    }
    pre.finish(lines.len())
}

#[test]
fn test_tokenize_basic() {
    let text = r#"
<global> volume=0
<group> volume=-6
<region> sample=test.wav key=60 lokey=58 hikey=62
"#;
    let tokens = tokenize(text);
    assert_eq!(tokens.len(), 9);
    assert!(header_is(&tokens[0].kind, "global"));
    assert!(opcode_is(&tokens[1].kind, "volume", "0"));
    assert!(header_is(&tokens[2].kind, "group"));
    assert!(opcode_is(&tokens[3].kind, "volume", "-6"));
    assert!(header_is(&tokens[4].kind, "region"));
    assert!(opcode_is(&tokens[5].kind, "sample", "test.wav"));
    assert!(opcode_is(&tokens[6].kind, "key", "60"));
    assert!(opcode_is(&tokens[7].kind, "lokey", "58"));
    assert!(opcode_is(&tokens[8].kind, "hikey", "62"));
}

#[test]
fn test_tokenize_block_comment() {
    let text = "/* comment */\n<region> sample=a.wav";
    let tokens = tokenize(&strip_comments(text));
    assert_eq!(tokens.len(), 2);
}

#[test]
fn test_tokenize_line_comment() {
    let text = "// comment\n<region> sample=a.wav";
    let tokens = tokenize(&strip_comments(text));
    assert_eq!(tokens.len(), 2);
}

#[test]
fn test_tokenize_escaped_path_value() {
    let text = r"<region> sample=Drums/Kick\ 01.wav key=36";
    let tokens = tokenize(text);
    assert_eq!(tokens.len(), 3);
    assert!(opcode_is(&tokens[1].kind, "sample", "Drums/Kick 01.wav"));
}

#[test]
fn test_tokenize_preserves_path_backslashes() {
    let text = r"<region> sample=C:\Samples\Kick.wav key=36";
    let tokens = tokenize(text);
    assert_eq!(tokens.len(), 3);
    assert!(opcode_is(&tokens[1].kind, "sample", r"C:\Samples\Kick.wav"));
}

#[test]
fn test_preprocess_define() {
    let text = r#"
#define ROOT 60
<region> sample=silent.wav key=ROOT
"#;
    let result = preprocess(text).unwrap();
    assert!(result.contains("key=60"));
}

#[test]
fn test_preprocess_if_else() {
    let text = r#"
#define USE_IT
#if USE_IT
<region> sample=a.wav key=60
#else
<region> sample=b.wav key=62
#end
"#;
    let result = preprocess(text).unwrap();
    assert!(result.contains("sample=a.wav"));
    assert!(!result.contains("sample=b.wav"));
}

#[test]
fn test_preprocess_comments_preserve_lines() {
    let text = "<global> volume=0 // ignored\n<region> sample=a.wav";
    let result = strip_comments(text);
    assert_eq!(result.lines().count(), 2);
    let tokens = tokenize(&result);
    assert_eq!(tokens.len(), 4);
}

#[test]
fn tokens_carry_their_line_numbers() {
    let tokens = tokenize("<group>\n\nlokey=1\n<region> sample=x.wav");
    assert_eq!(tokens.len(), 4);
    assert_eq!(tokens[0].line, 1);
    assert_eq!(tokens[1].line, 3);
    assert_eq!(tokens[2].line, 4);
    assert_eq!(tokens[3].line, 4);
}

#[test]
fn block_comment_keeps_newlines() {
    let out = strip_comments("a/* x\ny */b");
    assert_eq!(out.lines().count(), 2);
    assert!(!out.contains('x'));
    assert!(out.ends_with('b'));
    assert_eq!(out, "a    \n    b");
}

#[test]
fn block_comment_keeps_columns() {
    assert_eq!(strip_comments("/*x*/a"), "     a");
    assert_eq!(strip_comments("a/*x"), "a   ");
}

#[test]
fn preprocess_unclosed_if_is_an_error() {
    let err = preprocess("#if X\n<region> sample=a.wav\n").unwrap_err();
    assert_eq!(err.message, "Unclosed #if block");
    assert_eq!(err.line, 2);
}

#[test]
fn preprocess_else_without_if_is_an_error() {
    let err = preprocess("<group>\n#else\n").unwrap_err();
    assert_eq!(err.message, "#else without #if");
    assert_eq!(err.line, 2);
    assert_eq!(err.column, 1);
}

#[test]
fn preprocess_end_without_if_is_an_error() {
    let err = preprocess("#end\n").unwrap_err();
    assert_eq!(err.message, "#end without #if");
    assert_eq!(err.line, 1);
}

#[test]
fn preprocess_define_missing_name_is_an_error() {
    let err = preprocess("\n#define\n").unwrap_err();
    assert_eq!(err.message, "#define missing name");
    assert_eq!(err.line, 2);
}

#[test]
fn preprocess_negated_condition() {
    let result = preprocess("#if !MISSING\nsample=yes.wav\n#end\n").unwrap();
    assert!(result.contains("sample=yes.wav"));
}

#[test]
fn preprocess_dollar_variables() {
    let result = preprocess("#define $KEY 48\nkey=$KEY\n").unwrap();
    assert!(result.contains("key=48"));
}

#[test]
fn layout_groups_regions_with_group_opcodes() {
    let text = r#"
<global> volume=-1
<group> volume=-2
<region> sample=silent.wav key=60 lovel=1 hivel=127
<region> sample=silent.wav key=62 lovel=1 hivel=127 tune=12
"#;
    let layout = layout_of_text(text);
    assert_eq!(layout.groups.len(), 1);
    let group = &layout.groups[0];
    assert_eq!(group.regions.len(), 2);
    let r0 = &group.regions[0].opcodes;
    assert_eq!(r0.get_str("key"), Some(String::from("60")));
    assert_eq!(r0.get_str("volume"), Some(String::from("-2")));
    let r1 = &group.regions[1].opcodes;
    assert_eq!(r1.get_str("tune"), Some(String::from("12")));
    assert_eq!(layout.globals.len(), 1);
}

#[test]
fn layout_global_resets_master_state() {
    let text = r#"
<master> master_volume=-6
<global> global_volume=-2
<group>
<region> sample=silent.wav key=60
"#;
    let layout = layout_of_text(text);
    assert_eq!(layout.groups.len(), 1);
    assert!(layout.groups[0].master.is_none());
    assert_eq!(layout.globals[0].get_str("global_volume"), Some(String::from("-2")));
    assert_eq!(layout.groups[0].regions[0].opcodes.get_str("global_volume"), None);
}

#[test]
fn layout_master_applies_to_following_groups() {
    let text = r#"
<global> global_volume=-3
<master> master_volume=-3 master_pan=50 amp_veltrack=10
<group>
<region> sample=silent.wav key=60
<master> master_volume=-6
<group>
<region> sample=silent.wav key=61
"#;
    let layout = layout_of_text(text);
    assert_eq!(layout.groups.len(), 2);
    let a = layout.groups[0].master.as_ref().unwrap();
    assert_eq!(a.get_str("master_pan"), Some(String::from("50")));
    let b = layout.groups[1].master.as_ref().unwrap();
    assert_eq!(b.get_str("master_volume"), Some(String::from("-6")));
    assert_eq!(b.get_str("master_pan"), None);
    let ga = layout.groups[0].opcodes.as_ref().unwrap();
    assert_eq!(ga.get_str("amp_veltrack"), Some(String::from("10")));
    assert_eq!(ga.get_str("master_volume"), None);
}

#[test]
fn layout_skips_regions_without_a_sample() {
    let text = r#"
<group>
<region> sample=* key=60
<region> sample=*silence key=61
<region> sample=kick.wav key=62
<region> key=63
"#;
    let layout = layout_of_text(text);
    let regions = &layout.groups[0].regions;
    assert_eq!(regions.len(), 2);
    assert_eq!(regions[0].opcodes.get_str("key"), Some(String::from("61")));
    assert_eq!(regions[1].opcodes.get_str("sample"), Some(String::from("kick.wav")));
}

#[test]
fn layout_control_persists_across_global() {
    let text = "<control>\ndefault_path=../Samples/\n<global>\nloop_mode=one_shot\n<group>\n<region> sample=kick.flac key=36\n";
    let layout = layout_of_text(text);
    let region = &layout.groups[0].regions[0].opcodes;
    assert_eq!(region.get_str("default_path"), Some(String::from("../Samples/")));
    assert_eq!(region.get_str("loop_mode"), Some(String::from("one_shot")));
}

#[test]
fn layout_regions_outside_groups_get_an_implicit_group() {
    let layout = layout_of_text("<region> sample=a.wav\n<curve> curve_index=1 v000=0\n<region> sample=b.wav\n");
    assert_eq!(layout.groups.len(), 1);
    assert!(layout.groups[0].opcodes.is_none());
    assert_eq!(layout.groups[0].regions.len(), 2);
    assert_eq!(layout.groups[0].regions[0].curves_before, 0);
    assert_eq!(layout.groups[0].regions[1].curves_before, 1);
    assert_eq!(layout.curves.len(), 1);
}

#[test]
fn layout_global_closes_the_group_being_built() {
    let layout = layout_of_text("<group>\n<region> sample=a.wav\n<global>\n<region> sample=b.wav\n");
    assert_eq!(layout.groups.len(), 2);
    assert!(layout.groups[0].opcodes.is_some());
    assert_eq!(layout.groups[0].regions[0].opcodes.get_str("sample"), Some(String::from("a.wav")));
    assert!(layout.groups[1].opcodes.is_none());
    assert_eq!(layout.groups[1].regions[0].opcodes.get_str("sample"), Some(String::from("b.wav")));
}

#[test]
fn layout_preserves_non_vendor_extra_opcodes() {
    let text = r#"
<group> off_by=7 script=ignored.as delay=0.1
<region> sample=silent.wav key=60 locc1=10 hicc1=90 hint_foo=bar
"#;
    let layout = layout_of_text(text);
    let group = layout.groups[0].opcodes.as_ref().unwrap();
    let extras = group_extra_opcodes(group);
    assert!(extras.contains(&(String::from("off_by"), String::from("7"))));
    assert!(extras.contains(&(String::from("delay"), String::from("0.1"))));
    assert!(!extras.iter().any(|(key, _)| key == "script"));
    let region = &layout.groups[0].regions[0].opcodes;
    let zone_extras = zone_extra_opcodes(region);
    assert!(!zone_extras.iter().any(|(key, _)| key == "hint_foo"));
    assert!(!zone_extras.iter().any(|(key, _)| key == "locc1" || key == "hicc1"));
    assert!(!zone_extras.iter().any(|(key, _)| key == "delay" || key == "sample"));
    assert!(!zone_extras.iter().any(|(key, _)| key == "off_by"));
}

#[test]
fn preprocess_endif_closes_a_section() {
    let result = preprocess("#define A\n#if A\nx=1\n#endif\n").unwrap();
    assert!(result.contains("x=1"));
    let result = preprocess("#if B\nx=1\n#else\ny=2\n#endif\nz=3\n").unwrap();
    assert!(!result.contains("x=1"));
    assert!(result.contains("y=2"));
    assert!(result.contains("z=3"));
    let err = preprocess("#endif\n").unwrap_err();
    assert_eq!(err.message, "#endif without #if");
}

#[test]
fn layout_global_keeps_the_open_group() {
    let text = "<group>\n<region> sample=a.wav key=60\n<global>\n<group>\n<region> sample=b.wav key=61\n";
    let layout = layout_of_text(text);
    assert_eq!(layout.groups.len(), 2);
    assert_eq!(layout.groups[0].regions[0].opcodes.get_str("key"), Some(String::from("60")));
    assert_eq!(layout.groups[1].regions[0].opcodes.get_str("key"), Some(String::from("61")));
}
