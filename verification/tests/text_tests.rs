use cadenza::infra::audio_select::{select_supported_config, ConfigCandidate};
use cadenza::infra::file_names::{
    export_stem, is_midi_extension, is_musicxml_extension, sanitize_file_stem,
};
use cadenza::infra::paths::strip_quotes;
use cadenza::ports::types::AudioConfig;
use cadenza::score::musicxml_read::{
    dynamics_tag_velocity, parse_beats, parse_pedal_value, parse_velocity,
};
use cadenza::score::mxl::{container_root_file, is_payload};
use cadenza::score::xml_doc::{XmlAttribute, XmlNode};
use cadenza::score::xml_tree::{
    attribute, children_elements, elements_below, elements_named, first_child, first_child_text,
    is_element_named, text_bytes,
};
use cadenza::text::{
    bytes_eq, contains, has_prefix, has_suffix, parse_decimal, parse_i32, parse_i64, parse_u8,
    pedal_down_from, tempo_from, to_lower, trim, velocity_from, Decimal,
};

#[test]
fn trim_takes_white_space_from_both_ends() {
    assert_eq!(trim(b"  ab c \n\t"), b"ab c");
    assert_eq!(trim(b"abc"), b"abc");
    assert_eq!(trim(b" \r\n "), b"");
    assert_eq!(trim(b""), b"");
}

#[test]
fn to_lower_changes_ascii_capitals_only() {
    assert_eq!(to_lower(b"Ped. A1 [Z]"), b"ped. a1 [z]".to_vec());
    assert_eq!(to_lower(&[0xc3, 0x84, b'@', b'`']), vec![0xc3, 0x84, b'@', b'`']);
}

#[test]
fn bytes_eq_compares_length_and_content() {
    assert!(bytes_eq(b"note", b"note"));
    assert!(!bytes_eq(b"note", b"notes"));
    assert!(!bytes_eq(b"note", b"nota"));
    assert!(bytes_eq(b"", b""));
}

#[test]
fn whole_numbers_are_read_within_their_bounds() {
    assert_eq!(parse_i64(b"-12"), Some(-12));
    assert_eq!(parse_i64(b"+7"), Some(7));
    assert_eq!(parse_i64(b"007"), Some(7));
    assert_eq!(parse_i64(b"9223372036854775807"), Some(i64::MAX));
    assert_eq!(parse_i64(b"-9223372036854775808"), Some(i64::MIN));
    assert_eq!(parse_i64(b"9223372036854775808"), None);
    assert_eq!(parse_i64(b"99999999999999999999999999999999999999999999"), None);
    assert_eq!(parse_i64(b""), None);
    assert_eq!(parse_i64(b"-"), None);
    assert_eq!(parse_i64(b" 12"), None);
    assert_eq!(parse_i64(b"12a"), None);
    assert_eq!(parse_i64(b"1.0"), None);

    assert_eq!(parse_i32(b"2147483647"), Some(i32::MAX));
    assert_eq!(parse_i32(b"2147483648"), None);
    assert_eq!(parse_i32(b"-2147483648"), Some(i32::MIN));

    assert_eq!(parse_u8(b"255"), Some(255));
    assert_eq!(parse_u8(b"+5"), Some(5));
    assert_eq!(parse_u8(b"256"), None);
    assert_eq!(parse_u8(b"-1"), None);
    assert_eq!(parse_u8(b"-0"), None);
}

#[test]
fn decimal_numbers_are_read_digit_by_digit() {
    assert_eq!(parse_decimal(b"1.5"), Some(Decimal { negative: false, digits: 15, scale: 1 }));
    assert_eq!(parse_decimal(b"-0.25"), Some(Decimal { negative: true, digits: 25, scale: 2 }));
    assert_eq!(parse_decimal(b"120"), Some(Decimal { negative: false, digits: 120, scale: 0 }));
    assert_eq!(parse_decimal(b".5"), Some(Decimal { negative: false, digits: 5, scale: 1 }));
    assert_eq!(parse_decimal(b"5."), Some(Decimal { negative: false, digits: 5, scale: 0 }));
    assert_eq!(parse_decimal(b"+3.10"), Some(Decimal { negative: false, digits: 310, scale: 2 }));
    assert_eq!(parse_decimal(b"."), None);
    assert_eq!(parse_decimal(b""), None);
    assert_eq!(parse_decimal(b"-"), None);
    assert_eq!(parse_decimal(b"1.2.3"), None);
    assert_eq!(parse_decimal(b"1e3"), None);
    assert_eq!(parse_decimal(b"12 "), None);
    assert_eq!(
        parse_decimal(b"123456789012345678901234567890"),
        Some(Decimal { negative: false, digits: 123456789012345678901234567890, scale: 0 })
    );
    assert_eq!(parse_decimal(b"1234567890123456789012345678901"), None);
}

#[test]
fn tempo_is_microseconds_per_quarter() {
    let of = |text: &[u8]| tempo_from(parse_decimal(text).expect("a number"));
    assert_eq!(of(b"120"), Some(500_000));
    assert_eq!(of(b"90"), Some(666_666));
    assert_eq!(of(b"62.5"), Some(960_000));
    assert_eq!(of(b"0"), None);
    assert_eq!(of(b"0.000"), None);
    assert_eq!(of(b"-60"), None);
    assert_eq!(of(b"0.001"), Some(u32::MAX));
}

#[test]
fn velocity_is_a_share_a_percentage_or_a_velocity() {
    let of = |text: &[u8]| velocity_from(parse_decimal(text).expect("a number"));
    assert_eq!(of(b"0.5"), 64);
    assert_eq!(of(b"1"), 127);
    assert_eq!(of(b"50"), 64);
    assert_eq!(of(b"80"), 102);
    assert_eq!(of(b"100"), 127);
    assert_eq!(of(b"101"), 101);
    assert_eq!(of(b"126.5"), 127);
    assert_eq!(of(b"200"), 127);
    assert_eq!(of(b"0"), 0);
    assert_eq!(of(b"-3"), 0);

    assert_eq!(parse_velocity(b" 80 "), Some(102));
    assert_eq!(parse_velocity(b""), None);
    assert_eq!(parse_velocity(b"   "), None);
    assert_eq!(parse_velocity(b"loud"), None);
}

#[test]
fn pedal_is_down_from_sixty_four() {
    let of = |text: &[u8]| pedal_down_from(parse_decimal(text).expect("a number"));
    assert!(of(b"64"));
    assert!(of(b"64.0"));
    assert!(of(b"127"));
    assert!(!of(b"63.99"));
    assert!(!of(b"-64"));

    assert_eq!(parse_pedal_value(b" 100 "), Some(true));
    assert_eq!(parse_pedal_value(b"0"), Some(false));
    assert_eq!(parse_pedal_value(b"Yes"), Some(true));
    assert_eq!(parse_pedal_value(b"true"), Some(true));
    assert_eq!(parse_pedal_value(b"ON"), Some(true));
    assert_eq!(parse_pedal_value(b"no"), Some(false));
    assert_eq!(parse_pedal_value(b"False"), Some(false));
    assert_eq!(parse_pedal_value(b"off"), Some(false));
    assert_eq!(parse_pedal_value(b"half"), None);
    assert_eq!(parse_pedal_value(b""), None);
}

#[test]
fn beats_may_be_a_sum() {
    assert_eq!(parse_beats(b"4"), Some(4));
    assert_eq!(parse_beats(b" 6 "), Some(6));
    assert_eq!(parse_beats(b"3+2"), Some(5));
    assert_eq!(parse_beats(b"3 + 2 + 2"), Some(7));
    assert_eq!(parse_beats(b"+4"), Some(4));
    assert_eq!(parse_beats(b"3+x"), Some(3));
    assert_eq!(parse_beats(b"x+y"), None);
    assert_eq!(parse_beats(b"+"), None);
    assert_eq!(parse_beats(b""), None);
    assert_eq!(parse_beats(b"four"), None);
    assert_eq!(parse_beats(b"9223372036854775807+1"), Some(i64::MAX));
}

#[test]
fn dynamics_marks_have_their_velocities() {
    assert_eq!(dynamics_tag_velocity(b"pppp"), Some(16));
    assert_eq!(dynamics_tag_velocity(b"ppp"), Some(24));
    assert_eq!(dynamics_tag_velocity(b"pp"), Some(34));
    assert_eq!(dynamics_tag_velocity(b"p"), Some(46));
    assert_eq!(dynamics_tag_velocity(b"mp"), Some(58));
    assert_eq!(dynamics_tag_velocity(b"mf"), Some(74));
    assert_eq!(dynamics_tag_velocity(b"f"), Some(92));
    assert_eq!(dynamics_tag_velocity(b"ff"), Some(108));
    assert_eq!(dynamics_tag_velocity(b"fff"), Some(120));
    assert_eq!(dynamics_tag_velocity(b"ffff"), Some(127));
    assert_eq!(dynamics_tag_velocity(b"sfz"), Some(112));
    assert_eq!(dynamics_tag_velocity(b"sf"), Some(112));
    assert_eq!(dynamics_tag_velocity(b"fz"), Some(112));
    assert_eq!(dynamics_tag_velocity(b" MF. "), Some(74));
    assert_eq!(dynamics_tag_velocity(b"cresc"), None);
    assert_eq!(dynamics_tag_velocity(b""), None);
}

#[test]
fn payload_of_an_archive_is_an_xml_file_outside_the_container() {
    assert!(is_payload(b"score.xml"));
    assert!(is_payload(b"music/score.xml"));
    assert!(is_payload(b".xml"));
    assert!(!is_payload(b"META-INF/container.xml"));
    assert!(!is_payload(b"score.mxl"));
    assert!(!is_payload(b"xml"));
    assert!(!is_payload(b""));
}

#[test]
fn container_names_the_score() {
    let container = "<?xml version=\"1.0\"?><container><rootfiles>\
                     <rootfile full-path=\"music/score.xml\" media-type=\"x\"/>\
                     <rootfile full-path=\"other.xml\"/></rootfiles></container>";
    assert_eq!(container_root_file(container), Some("music/score.xml".to_string()));
    assert_eq!(container_root_file("<container><rootfile/></container>"), None);
    assert_eq!(container_root_file("<container/>"), None);
    assert_eq!(container_root_file("<container>"), None);
}

fn element(parent: Option<usize>, tag: &str, text: Option<&str>) -> XmlNode {
    XmlNode {
        parent,
        is_element: true,
        tag: tag.as_bytes().to_vec(),
        text: text.map(|t| t.as_bytes().to_vec()),
        attributes: Vec::new(),
    }
}

fn text(parent: usize, content: &str) -> XmlNode {
    XmlNode {
        parent: Some(parent),
        is_element: false,
        tag: Vec::new(),
        text: Some(content.as_bytes().to_vec()),
        attributes: Vec::new(),
    }
}

// <a><b>x</b><c><b/><d><b>y</b></d></c><b>z</b></a> under the root.
fn small_document() -> Vec<XmlNode> {
    vec![
        XmlNode { parent: None, is_element: false, tag: Vec::new(), text: None, attributes: Vec::new() },
        element(Some(0), "a", None),
        element(Some(1), "b", Some("x")),
        text(2, "x"),
        element(Some(1), "c", None),
        element(Some(4), "b", None),
        element(Some(4), "d", None),
        element(Some(6), "b", Some("y")),
        text(7, "y"),
        element(Some(1), "b", Some("z")),
        text(9, "z"),
    ]
}

#[test]
fn children_and_descendants_are_found_in_document_order() {
    let nodes = small_document();
    assert_eq!(first_child(&nodes, 1, b"b"), Some(2));
    assert_eq!(first_child(&nodes, 1, b"c"), Some(4));
    assert_eq!(first_child(&nodes, 1, b"d"), None);
    assert_eq!(first_child(&nodes, 4, b"b"), Some(5));
    assert_eq!(first_child(&nodes, 10, b"b"), None);
    assert_eq!(first_child_text(&nodes, 1, b"b"), Some(&b"x"[..]));
    assert_eq!(first_child_text(&nodes, 4, b"b"), None);
    assert_eq!(first_child_text(&nodes, 6, b"b"), Some(&b"y"[..]));
    assert_eq!(children_elements(&nodes, 1), vec![2, 4, 9]);
    assert_eq!(children_elements(&nodes, 4), vec![5, 6]);
    assert_eq!(children_elements(&nodes, 2), Vec::<usize>::new());
    assert_eq!(children_elements(&nodes, 0), vec![1]);
    assert_eq!(elements_below(&nodes, 4, b"b"), vec![5, 7]);
    assert_eq!(elements_below(&nodes, 1, b"b"), vec![2, 5, 7, 9]);
    assert_eq!(elements_below(&nodes, 2, b"b"), Vec::<usize>::new());
    assert_eq!(elements_named(&nodes, b"b"), vec![2, 5, 7, 9]);
    assert_eq!(elements_named(&nodes, b"a"), vec![1]);
    assert_eq!(elements_named(&nodes, b"e"), Vec::<usize>::new());
    assert!(is_element_named(&nodes[1], b"a"));
    assert!(!is_element_named(&nodes[1], b"b"));
    assert!(!is_element_named(&nodes[3], b""));
    assert_eq!(text_bytes(&nodes[3]), Some(&b"x"[..]));
    assert_eq!(text_bytes(&nodes[1]), None);
}

#[test]
fn attribute_is_the_first_of_its_name() {
    let mut node = element(None, "pedal", None);
    node.attributes = vec![
        XmlAttribute { name: b"type".to_vec(), value: b"start".to_vec() },
        XmlAttribute { name: b"line".to_vec(), value: b"yes".to_vec() },
        XmlAttribute { name: b"type".to_vec(), value: b"stop".to_vec() },
    ];
    assert_eq!(attribute(&node, b"type"), Some(&b"start"[..]));
    assert_eq!(attribute(&node, b"line"), Some(&b"yes"[..]));
    assert_eq!(attribute(&node, b"sign"), None);
}

fn candidate(channels: u16, min: u32, max: u32, format_rank: u8) -> ConfigCandidate {
    ConfigCandidate { channels, min_sample_rate_hz: min, max_sample_rate_hz: max, format_rank }
}

#[test]
fn the_first_suitable_candidate_of_the_highest_rank_is_chosen() {
    let desired = AudioConfig { sample_rate_hz: 48_000, channels: 2, buffer_size_frames: None };
    let candidates = vec![
        candidate(1, 8_000, 96_000, 3),
        candidate(2, 44_100, 44_100, 3),
        candidate(2, 8_000, 48_000, 1),
        candidate(2, 48_000, 96_000, 2),
        candidate(2, 8_000, 192_000, 2),
    ];
    assert_eq!(select_supported_config(&candidates, desired), Some(3));
    assert_eq!(select_supported_config(&candidates[..3].to_vec(), desired), Some(2));
    assert_eq!(select_supported_config(&candidates[..2].to_vec(), desired), None);
    assert_eq!(select_supported_config(&Vec::new(), desired), None);
}

fn chars(text: &str) -> Vec<char> {
    text.chars().collect()
}

fn sanitized(text: &str) -> String {
    sanitize_file_stem(&chars(text)).into_iter().collect()
}

#[test]
fn file_stems_lose_what_a_file_name_must_not_hold() {
    assert_eq!(sanitized("Sonata No. 1"), "Sonata No. 1");
    assert_eq!(sanitized("a/b\\c:d*e?f\"g<h>i|j"), "a_b_c_d_e_f_g_h_i_j");
    assert_eq!(sanitized("tab\there"), "tab_here");
    assert_eq!(sanitized("\u{7f}x\u{85}"), "_x_");
    assert_eq!(sanitized("  ..name..  "), "name");
    assert_eq!(sanitized(". name ."), " name ");
    assert_eq!(sanitized("\u{a0}\u{3000}x\u{2003}"), "x");
    assert_eq!(sanitized("..."), "");
    assert_eq!(sanitized("   "), "");
    assert_eq!(sanitized(""), "");
    assert_eq!(sanitized("\n"), "_");
    assert_eq!(sanitized("Étude.op.10"), "Étude.op.10");
}

#[test]
fn exported_files_are_named_after_their_source_or_score() {
    let stem = |text: Option<&str>| -> String {
        let given = text.map(chars);
        export_stem(given.as_ref()).into_iter().collect()
    };
    assert_eq!(stem(Some("Prelude in C")), "Prelude in C");
    assert_eq!(stem(Some("a:b")), "a_b");
    assert_eq!(stem(Some(" .. ")), "score");
    assert_eq!(stem(Some("")), "score");
    assert_eq!(stem(None), "score");
}

#[test]
fn extensions_are_told_without_regard_to_case() {
    assert!(is_midi_extension(b"mid"));
    assert!(is_midi_extension(b"MIDI"));
    assert!(is_midi_extension(b"Mid"));
    assert!(!is_midi_extension(b"mi"));
    assert!(!is_midi_extension(b"midi2"));
    assert!(!is_midi_extension(b""));
    assert!(is_musicxml_extension(b"mxl"));
    assert!(is_musicxml_extension(b"XML"));
    assert!(!is_musicxml_extension(b"musicxml"));
    assert!(!is_musicxml_extension(b""));
}

#[test]
fn quotation_marks_around_a_path_are_taken_off() {
    assert_eq!(strip_quotes(b"\"/tmp/a b.mid\""), b"/tmp/a b.mid");
    assert_eq!(strip_quotes(b"'/tmp/a.mid'"), b"/tmp/a.mid");
    assert_eq!(strip_quotes(b"\"\""), b"");
    assert_eq!(strip_quotes(b"\"/tmp/a.mid'"), b"\"/tmp/a.mid'");
    assert_eq!(strip_quotes(b"\"/tmp/a.mid"), b"\"/tmp/a.mid");
    assert_eq!(strip_quotes(b"\""), b"\"");
    assert_eq!(strip_quotes(b"/tmp/a.mid"), b"/tmp/a.mid");
    assert_eq!(strip_quotes(b""), b"");
}

#[test]
fn beginnings_and_ends_of_texts_are_compared() {
    assert!(has_prefix(b"file:///a", b"file://"));
    assert!(has_prefix(b"abc", b""));
    assert!(has_prefix(b"abc", b"abc"));
    assert!(!has_prefix(b"abc", b"abcd"));
    assert!(!has_prefix(b"abc", b"bc"));
    assert!(has_suffix(b"score.xml", b".xml"));
    assert!(has_suffix(b"abc", b""));
    assert!(!has_suffix(b"xml", b".xml"));
    assert!(!has_suffix(b"score.xml ", b".xml"));
    assert!(contains(b"una corda ped.", b"ped"));
    assert!(contains(b"abc", b""));
    assert!(!contains(b"abc", b"abd"));
    assert!(!contains(b"ab", b"abc"));
}
