use maolan_sampler::group::{Group, Zone};
use maolan_sampler::sfz_document::export_patch_text;
use maolan_sampler::sfz_export::export_key_mapping;

fn zone(key: u8) -> Zone {
    let mut z = Zone::default();
    z.key_low = key;
    z.key_high = key;
    z.root_key = key;
    z
}

#[test]
fn document_has_control_then_group_blocks() {
    let mut kick = Group::default();
    kick.name = String::from("Kick");
    kick.poly_limit = 2;
    let mut z = zone(36);
    z.extra_sfz_opcodes = vec![(String::from("amp_random"), String::from("1"))];
    kick.zones = vec![z.clone()];
    let empty = Group::default();
    let mut snare = Group::default();
    snare.zones = vec![zone(38)];
    let text = export_patch_text(
        &[kick, empty, snare],
        "kit_samples",
        &[vec![String::from("001_Kick_a.wav")], vec![], vec![String::from("002__b.wav")]],
    );
    let expected = format!(
        "// Exported by Maolan Sampler\n<control>\ndefault_path=kit_samples/\n\n\
         // group: Kick\n<group> polyphony=2\n<region> sample=001_Kick_a.wav{} amp_random=1\n\n\
         <group>\n<region> sample=002__b.wav{}\n\n",
        export_key_mapping(&z),
        export_key_mapping(&zone(38))
    );
    assert_eq!(text, expected);
    assert!(export_key_mapping(&z).starts_with(" key=36"));
}

#[test]
fn document_without_groups_is_the_control_header() {
    let text = export_patch_text(&[], "s", &[]);
    assert_eq!(text, "// Exported by Maolan Sampler\n<control>\ndefault_path=s/\n\n");
}
