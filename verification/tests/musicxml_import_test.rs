use cadenza::ports::midi::MidiLikeEvent;
use cadenza::score::model::{Score, ScoreSource};
use cadenza::score::musicxml_import::MusicXmlImportError;
use cadenza::score::musicxml_read::import_musicxml_str;

fn note_on_ticks(score: &Score) -> Vec<(i64, u8)> {
    let track = score.tracks.first().expect("track");
    track
        .playback_events
        .iter()
        .filter_map(|e| match e.event {
            MidiLikeEvent::NoteOn { note, .. } => Some((e.tick, note)),
            _ => None,
        })
        .collect()
}

fn note_off_ticks(score: &Score) -> Vec<(i64, u8)> {
    let track = score.tracks.first().expect("track");
    track
        .playback_events
        .iter()
        .filter_map(|e| match e.event {
            MidiLikeEvent::NoteOff { note } => Some((e.tick, note)),
            _ => None,
        })
        .collect()
}

#[test]
fn musicxml_chord_notes_share_start_tick() {
    let xml = r#"
<score-partwise version="3.1">
  <part-list>
    <score-part id="P1"><part-name>Piano</part-name></score-part>
  </part-list>
  <part id="P1">
    <measure number="1">
      <attributes>
        <divisions>1</divisions>
        <time><beats>4</beats><beat-type>4</beat-type></time>
      </attributes>
      <note>
        <pitch><step>C</step><octave>4</octave></pitch>
        <duration>1</duration>
        <staff>1</staff>
      </note>
      <note>
        <chord/>
        <pitch><step>E</step><octave>4</octave></pitch>
        <duration>1</duration>
        <staff>1</staff>
      </note>
    </measure>
  </part>
</score-partwise>
"#;

    let score = import_musicxml_str(xml).expect("import ok");
    let track = score.tracks.first().expect("track");
    assert_eq!(track.targets.len(), 1);
    assert_eq!(track.targets[0].tick, 0);
    assert_eq!(track.targets[0].notes, vec![60, 64]);

    let mut ons = note_on_ticks(&score);
    ons.sort();
    assert_eq!(ons, vec![(0, 60), (0, 64)]);

    let mut offs = note_off_ticks(&score);
    offs.sort();
    assert_eq!(offs, vec![(480, 60), (480, 64)]);
}

#[test]
fn musicxml_backup_keeps_voices_aligned() {
    let xml = r#"
<score-partwise version="3.1">
  <part-list>
    <score-part id="P1"><part-name>Piano</part-name></score-part>
  </part-list>
  <part id="P1">
    <measure number="1">
      <attributes>
        <divisions>1</divisions>
        <time><beats>4</beats><beat-type>4</beat-type></time>
      </attributes>
      <note>
        <pitch><step>C</step><octave>4</octave></pitch>
        <duration>2</duration>
        <voice>1</voice>
        <staff>1</staff>
      </note>
      <backup><duration>2</duration></backup>
      <note>
        <pitch><step>E</step><octave>4</octave></pitch>
        <duration>2</duration>
        <voice>2</voice>
        <staff>1</staff>
      </note>
    </measure>
  </part>
</score-partwise>
"#;

    let score = import_musicxml_str(xml).expect("import ok");
    let track = score.tracks.first().expect("track");
    assert_eq!(track.targets.len(), 1);
    assert_eq!(track.targets[0].tick, 0);
    assert_eq!(track.targets[0].notes, vec![60, 64]);
}

#[test]
fn musicxml_ties_merge_into_single_note() {
    let xml = r#"
<score-partwise version="3.1">
  <part-list>
    <score-part id="P1"><part-name>Piano</part-name></score-part>
  </part-list>
  <part id="P1">
    <measure number="1">
      <attributes>
        <divisions>1</divisions>
        <time><beats>4</beats><beat-type>4</beat-type></time>
      </attributes>
      <note><rest/><duration>3</duration></note>
      <note>
        <pitch><step>C</step><octave>4</octave></pitch>
        <duration>1</duration>
        <tie type="start"/>
        <staff>1</staff>
      </note>
    </measure>
    <measure number="2">
      <note>
        <pitch><step>C</step><octave>4</octave></pitch>
        <duration>1</duration>
        <tie type="stop"/>
        <staff>1</staff>
      </note>
    </measure>
  </part>
</score-partwise>
"#;

    let score = import_musicxml_str(xml).expect("import ok");
    let track = score.tracks.first().expect("track");

    assert_eq!(track.targets.len(), 1);
    assert_eq!(track.targets[0].tick, 1440);
    assert_eq!(track.targets[0].notes, vec![60]);

    let ons = note_on_ticks(&score);
    assert!(ons.iter().any(|(t, n)| *t == 1440 && *n == 60));
    assert!(!ons.iter().any(|(t, n)| *t == 1920 && *n == 60));

    let offs = note_off_ticks(&score);
    assert!(offs.iter().any(|(t, n)| *t == 2400 && *n == 60));
}

#[test]
fn musicxml_clamps_notes_to_measure_end_without_tie() {
    let xml = r#"
<score-partwise version="3.1">
  <part-list>
    <score-part id="P1"><part-name>Piano</part-name></score-part>
  </part-list>
  <part id="P1">
    <measure number="1">
      <attributes>
        <divisions>1</divisions>
        <time><beats>4</beats><beat-type>4</beat-type></time>
      </attributes>
      <note><rest/><duration>3</duration></note>
      <note>
        <pitch><step>C</step><octave>4</octave></pitch>
        <duration>4</duration>
        <staff>1</staff>
      </note>
    </measure>
  </part>
</score-partwise>
"#;

    let score = import_musicxml_str(xml).expect("import ok");
    let offs = note_off_ticks(&score);
    assert!(offs.iter().any(|(t, n)| *t == 1920 && *n == 60));
}

#[test]
fn musicxml_pickup_measure_does_not_pad_to_time_signature() {
    let xml = r#"
<score-partwise version="3.1">
  <part-list>
    <score-part id="P1"><part-name>Piano</part-name></score-part>
  </part-list>
  <part id="P1">
    <measure number="1" implicit="yes">
      <attributes>
        <divisions>1</divisions>
        <time><beats>4</beats><beat-type>4</beat-type></time>
      </attributes>
      <note>
        <pitch><step>C</step><octave>4</octave></pitch>
        <duration>1</duration>
        <staff>1</staff>
      </note>
    </measure>
    <measure number="2">
      <note>
        <pitch><step>D</step><octave>4</octave></pitch>
        <duration>1</duration>
        <staff>1</staff>
      </note>
    </measure>
  </part>
</score-partwise>
"#;

    let score = import_musicxml_str(xml).expect("import ok");
    let mut ons = note_on_ticks(&score);
    ons.sort();
    assert!(ons.contains(&(0, 60)));
    assert!(ons.contains(&(480, 62)));
}

#[test]
fn musicxml_infers_duration_from_type_when_missing() {
    let xml = r#"
<score-partwise version="3.1">
  <part-list>
    <score-part id="P1"><part-name>Piano</part-name></score-part>
  </part-list>
  <part id="P1">
    <measure number="1">
      <attributes>
        <divisions>1</divisions>
        <time><beats>4</beats><beat-type>4</beat-type></time>
      </attributes>
      <note>
        <pitch><step>C</step><octave>4</octave></pitch>
        <type>quarter</type>
        <staff>1</staff>
      </note>
      <note>
        <pitch><step>D</step><octave>4</octave></pitch>
        <type>quarter</type>
        <staff>1</staff>
      </note>
    </measure>
  </part>
</score-partwise>
"#;

    let score = import_musicxml_str(xml).expect("import ok");
    let mut ons = note_on_ticks(&score);
    ons.sort();
    assert_eq!(ons, vec![(0, 60), (480, 62)]);

    let mut offs = note_off_ticks(&score);
    offs.sort();
    assert_eq!(offs, vec![(480, 60), (960, 62)]);
}

fn one_measure(body: &str) -> String {
    format!(
        "<score-partwise><work><work-title>Study in C</work-title></work>\
         <part id=\"piano\"><measure number=\"1\"><attributes><divisions>1</divisions>\
         <time><beats>4</beats><beat-type>4</beat-type></time></attributes>{body}</measure></part>\
         </score-partwise>"
    )
}

fn note_on_velocities(score: &Score) -> Vec<(i64, u8, u8)> {
    score.tracks[0]
        .playback_events
        .iter()
        .filter_map(|e| match e.event {
            MidiLikeEvent::NoteOn { note, velocity } => Some((e.tick, note, velocity)),
            _ => None,
        })
        .collect()
}

fn pedal_values(score: &Score) -> Vec<(i64, u8)> {
    score.tracks[0]
        .playback_events
        .iter()
        .filter_map(|e| match e.event {
            MidiLikeEvent::Cc64 { value } => Some((e.tick, value)),
            _ => None,
        })
        .collect()
}

const C4: &str = "<note><pitch><step>C</step><octave>4</octave></pitch><duration>1</duration></note>";

#[test]
fn musicxml_text_that_is_no_document_is_refused() {
    let broken = import_musicxml_str("<score-partwise><part></score-partwise>");
    assert!(matches!(broken, Err(MusicXmlImportError::Parse(_))));
    let empty = import_musicxml_str("");
    assert!(matches!(empty, Err(MusicXmlImportError::Parse(_))));
}

#[test]
fn musicxml_title_and_source_are_read() {
    let score = import_musicxml_str(&one_measure(C4)).expect("import ok");
    assert_eq!(score.meta.title.as_deref(), Some("Study in C"));
    assert_eq!(score.meta.source, ScoreSource::MusicXml);
    assert_eq!(score.ppq, 480);
    assert_eq!(score.tracks.len(), 1);
    assert_eq!(score.tracks[0].name, "Merged");
}

#[test]
fn musicxml_document_without_title_or_tempo_gets_defaults() {
    let score = import_musicxml_str("<score-partwise><part><measure/></part></score-partwise>")
        .expect("import ok");
    assert_eq!(score.meta.title, None);
    assert_eq!(score.tempo_map.len(), 1);
    assert_eq!(score.tempo_map[0].tick, 0);
    assert_eq!(score.tempo_map[0].us_per_quarter, 500_000);
    assert!(score.tracks[0].targets.is_empty());
    assert!(score.tracks[0].playback_events.is_empty());
}

#[test]
fn musicxml_dynamics_set_the_velocity_of_later_notes() {
    let body = format!(
        "{C4}<direction><direction-type><dynamics><ff/></dynamics></direction-type></direction>{C4}"
    );
    let score = import_musicxml_str(&one_measure(&body)).expect("import ok");
    assert_eq!(note_on_velocities(&score), vec![(0, 60, 90), (480, 60, 108)]);
}

#[test]
fn musicxml_sound_tempo_enters_the_tempo_map() {
    let body = format!("<direction><sound tempo=\"90\"/></direction>{C4}");
    let score = import_musicxml_str(&one_measure(&body)).expect("import ok");
    assert_eq!(score.tempo_map.len(), 1);
    assert_eq!(score.tempo_map[0].tick, 0);
    assert_eq!(score.tempo_map[0].us_per_quarter, 666_666);
}

#[test]
fn musicxml_pedal_marks_become_sustain_changes() {
    let body = format!(
        "<direction><direction-type><pedal type=\"start\"/></direction-type></direction>{C4}\
         <direction><direction-type><pedal type=\"stop\"/></direction-type></direction>"
    );
    let score = import_musicxml_str(&one_measure(&body)).expect("import ok");
    assert_eq!(pedal_values(&score), vec![(0, 127), (480, 0)]);
}

#[test]
fn musicxml_altered_pitch_and_second_staff() {
    let body = "<note><pitch><step>F</step><alter>1</alter><octave>3</octave></pitch>\
                <duration>2</duration><staff>2</staff></note>";
    let score = import_musicxml_str(&one_measure(body)).expect("import ok");
    let track = &score.tracks[0];
    assert_eq!(track.targets.len(), 1);
    assert_eq!(track.targets[0].notes, vec![54]);
    assert_eq!(note_on_ticks(&score), vec![(0, 54)]);
    assert_eq!(note_off_ticks(&score), vec![(960, 54)]);
}

#[test]
fn musicxml_grace_notes_and_rests_sound_nothing() {
    let body = "<note><grace/><pitch><step>D</step><octave>4</octave></pitch></note>\
                <note><rest/><duration>1</duration></note>";
    let score = import_musicxml_str(&one_measure(body)).expect("import ok");
    assert!(note_on_ticks(&score).is_empty());
    assert!(score.tracks[0].targets.is_empty());
}

#[test]
fn musicxml_tied_notations_merge_like_tie_elements() {
    let body = "<note><pitch><step>C</step><octave>4</octave></pitch><duration>1</duration>\
                <notations><tied type=\"start\"/></notations></note>\
                <note><pitch><step>C</step><octave>4</octave></pitch><duration>1</duration>\
                <notations><tied type=\"stop\"/></notations></note>";
    let score = import_musicxml_str(&one_measure(body)).expect("import ok");
    assert_eq!(note_on_ticks(&score), vec![(0, 60)]);
    assert_eq!(note_off_ticks(&score), vec![(960, 60)]);
}

#[test]
fn musicxml_attributes_are_found_by_local_name_as_the_parser_finds_them() {
    let pedal = "<direction><direction-type>\
                 <pedal xmlns:x=\"http://example.org/x\" x:type=\"start\"/>\
                 </direction-type></direction>";
    let body = format!("{pedal}{C4}");
    let text = one_measure(&body);

    // The parser itself finds the attribute by its local name.
    let doc = roxmltree::Document::parse(&text).expect("well-formed");
    let node = doc.descendants().find(|n| n.has_tag_name("pedal")).expect("a pedal");
    assert_eq!(node.attribute("type"), Some("start"));
    assert_eq!(node.attributes().next().map(|a| a.name()), Some("type"));

    // So does the import: the pedal goes down, and up at the end of the
    // part.
    let score = import_musicxml_str(&text).expect("import ok");
    assert_eq!(pedal_values(&score), vec![(0, 127), (1920, 0)]);
    let without = import_musicxml_str(&one_measure(C4)).expect("import ok");
    assert!(pedal_values(&without).is_empty());
}

#[test]
fn musicxml_elements_are_found_by_local_name_as_the_parser_finds_them() {
    let text = "<m:score-partwise xmlns:m=\"http://example.org/m\"><m:part><m:measure>\
                <m:attributes><m:divisions>1</m:divisions></m:attributes>\
                <m:note><m:pitch><m:step>C</m:step><m:octave>4</m:octave></m:pitch>\
                <m:duration>1</m:duration></m:note></m:measure></m:part></m:score-partwise>";
    let doc = roxmltree::Document::parse(text).expect("well-formed");
    assert_eq!(doc.descendants().filter(|n| n.has_tag_name("note")).count(), 1);
    let score = import_musicxml_str(text).expect("import ok");
    assert_eq!(note_on_ticks(&score), vec![(0, 60)]);
}
