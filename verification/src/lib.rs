//! Verified core of the Maolan sampler: modulation routing tables, parameter ids,
//! group activation rules, SFZ text processing and editor helpers.

pub mod mod_matrix;
pub mod params;
pub mod group;
pub mod text;
pub mod sfz_comments;
pub mod sfz_tokenize;
pub mod sfz_preprocess;
pub mod sfz_directives;
pub mod sfz_numbers;
pub mod sfz_opcodes;
pub mod sfz_opcode_map;
pub mod sfz_layout;
pub mod zone_modes;
pub mod editor_options;
pub mod zones;
pub mod sfz_values;
pub mod note_names;
pub mod editor_sync;
pub mod load_status;
pub mod file_kinds;
pub mod ariax;
pub mod opcode_text;
pub mod sfz_names;
pub mod zone_conditions;
pub mod sfz_handled;
pub mod browser;
pub mod zone_map;
pub mod zone_list;
pub mod sfz_export;
pub mod sfz_region;
pub mod voice_alloc;
pub mod sfz_build;
pub mod zone_lookup;
pub mod sfz_document;
