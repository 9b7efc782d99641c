use cadenza::ports::midi::MidiLikeEvent;
use cadenza::score::midi_header::has_timecode_overflow;
use cadenza::score::midi_import::{import_midi_bytes, MidiImportError};

fn chunk(id: &[u8; 4], declared: u32, content: &[u8]) -> Vec<u8> {
    let mut bytes = id.to_vec();
    bytes.extend_from_slice(&declared.to_be_bytes());
    bytes.extend_from_slice(content);
    bytes
}

fn header(timing: [u8; 2]) -> Vec<u8> {
    chunk(b"MThd", 6, &[0, 0, 0, 1, timing[0], timing[1]])
}

fn riff_chunk(id: &[u8; 4], content: &[u8]) -> Vec<u8> {
    let mut bytes = id.to_vec();
    bytes.extend_from_slice(&(content.len() as u32).to_le_bytes());
    bytes.extend_from_slice(content);
    if content.len() % 2 == 1 {
        bytes.push(0);
    }
    bytes
}

fn rmid(chunks: &[Vec<u8>]) -> Vec<u8> {
    let mut form = b"RMID".to_vec();
    for c in chunks {
        form.extend_from_slice(c);
    }
    riff_chunk(b"RIFF", &form)
}

fn refused(data: &[u8]) -> bool {
    matches!(import_midi_bytes(data), Err(MidiImportError::Parse(_)))
}

#[test]
fn a_header_of_minus_128_frames_is_refused() {
    let data = [0x4d, 0x54, 0x68, 0x64, 0, 0, 0, 6, 0, 0, 0, 1, 0x80, 0];
    assert!(has_timecode_overflow(&data));
    assert!(refused(&data));
    assert_eq!(header([0x80, 0]), data.to_vec());
}

#[test]
fn the_header_is_found_inside_a_riff_file() {
    let plain = rmid(&[riff_chunk(b"data", &header([0x80, 40]))]);
    assert!(has_timecode_overflow(&plain));
    assert!(refused(&plain));

    let behind_others = rmid(&[
        riff_chunk(b"LIST", b"odd"),
        riff_chunk(b"INFO", b"even"),
        riff_chunk(b"data", &header([0x80, 40])),
    ]);
    assert!(has_timecode_overflow(&behind_others));
    assert!(refused(&behind_others));

    let second_data = rmid(&[
        riff_chunk(b"data", &header([0x01, 0xe0])),
        riff_chunk(b"data", &header([0x80, 40])),
    ]);
    assert!(!has_timecode_overflow(&second_data));
    assert!(import_midi_bytes(&second_data).is_ok());

    let other_form = riff_chunk(b"RIFF", &[b"WAVE".to_vec(), riff_chunk(b"data", &header([0x80, 40]))].concat());
    assert!(!has_timecode_overflow(&other_form));
    assert!(refused(&other_form));
}

#[test]
fn a_later_header_is_read_too() {
    let mut data = header([0x01, 0xe0]);
    data.extend_from_slice(&chunk(b"MTrk", 4, &[0, 0xff, 0x2f, 0]));
    data.extend_from_slice(&chunk(b"junk", 3, &[1, 2, 3]));
    data.extend_from_slice(&header([0x80, 0]));
    assert!(has_timecode_overflow(&data));
    assert!(refused(&data));

    let mut declared_long = header([0x01, 0xe0]);
    declared_long.extend_from_slice(&chunk(b"MThd", u32::MAX, &[0, 2, 0, 0, 0x80, 7, 9]));
    assert!(has_timecode_overflow(&declared_long));
    assert!(refused(&declared_long));
}

#[test]
fn reading_ends_before_a_header_that_is_never_reached() {
    // A track that no header comes before ends the reading.
    let track_first = rmid(&[riff_chunk(
        b"data",
        &[chunk(b"MTrk", 0, &[]), header([0x80, 0])].concat(),
    )]);
    assert!(!has_timecode_overflow(&track_first));
    assert!(refused(&track_first));

    // So does a header that is refused: no such format, no such frame rate,
    // or too short.
    let bad_format = [chunk(b"MThd", 6, &[0, 3, 0, 1, 0x80, 0]), header([0x80, 0])].concat();
    assert!(!has_timecode_overflow(&bad_format));
    assert!(refused(&bad_format));

    let bad_rate = [header([0x81, 0]), header([0x80, 0])].concat();
    assert!(!has_timecode_overflow(&bad_rate));
    assert!(refused(&bad_rate));

    let short = [chunk(b"MThd", 4, &[0, 0, 0, 1]), vec![0x80, 0]].concat();
    assert!(!has_timecode_overflow(&short));
    assert!(refused(&short));

    let cut_off = [header([0x01, 0xe0]), b"MThd".to_vec(), vec![0, 0, 0]].concat();
    assert!(!has_timecode_overflow(&cut_off));
    assert!(import_midi_bytes(&cut_off).is_ok());

    assert!(!has_timecode_overflow(b""));
    assert!(!has_timecode_overflow(b"MTh"));
    assert!(refused(b"MTh"));
}

#[test]
fn a_time_code_that_exists_is_read() {
    let mut data = header([0xe7, 40]);
    data.extend_from_slice(&chunk(
        b"MTrk",
        12,
        &[0, 0x90, 60, 100, 0x64, 0x80, 60, 0, 0, 0xff, 0x2f, 0],
    ));
    assert!(!has_timecode_overflow(&data));
    let score = import_midi_bytes(&data).expect("the file is read");
    assert_eq!(score.ppq, 1000);
    let events: Vec<(i64, MidiLikeEvent)> =
        score.tracks[0].playback_events.iter().map(|e| (e.tick, e.event)).collect();
    assert_eq!(
        events,
        vec![
            (0, MidiLikeEvent::NoteOn { note: 60, velocity: 100 }),
            (100, MidiLikeEvent::NoteOff { note: 60 }),
        ]
    );

    for rate in [0xe8u8, 0xe7, 0xe3, 0xe2] {
        assert!(import_midi_bytes(&header([rate, 1])).is_ok());
    }
    for rate in [0x81u8, 0xc0, 0xe4, 0xff] {
        assert!(refused(&header([rate, 1])));
    }
}
