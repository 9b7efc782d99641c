//! What the elements of a MusicXML document say: the attributes of a
//! measure, directions, notes, and from them measures and parts.

use crate::score::model::Score;
use crate::score::musicxml_import::{midi_note, midi_note_spec, MusicXmlImportError, NoteType};
use crate::score::musicxml_walk::{
    is_musicxml_score, part_views, score_from_parts, AttributesItem, DirectionItem, DirectionView, MeasureItem, MeasureItemView, MeasureItems,
    MeasureView, NoteItem, PartItems, PartView, PedalMark, PedalWord, TimeSignature,
    WrittenLength,
};
use crate::text::{
    bytes_eq, contains, contains_bytes, decimal_of, i32_of, i64_of, is_pedal_down, lowered,
    parse_decimal, parse_i32, parse_i64, parse_u8, pedal_down_from, tempo_from, tempo_of, to_lower,
    trim, trimmed, u8_of, velocity_from, velocity_of,
};
use crate::score::xml_doc::{
    node_views, parse_document, read_nodes, text_of, utf8_text, xml_document, XmlNode, XmlNodeView,
};
use crate::score::xml_tree::{
    attribute, attribute_of, child_text, children_elements, element_children, elements_below,
    elements_below_from, elements_named, elements_named_from, find_child, first_child,
    first_child_text, has_tag, is_element_named, text_bytes,
};
use vstd::prelude::*;
use vstd::string::StringSliceAdditionalSpecFns;

verus! {

pub open spec fn sat_add_i64(a: i64, b: i64) -> i64 {
    if a + b > i64::MAX {
        i64::MAX
    } else if a + b < i64::MIN {
        i64::MIN
    } else {
        (a + b) as i64
    }
}

/// The sum of the whole numbers between the plus signs of `s` from `start`
/// on, where `i` is the place that is looked at and `sum` what is added up
/// so far; nothing where there is no number at all.
pub open spec fn plus_sum(s: Seq<u8>, start: int, i: int, sum: i64, any: bool) -> Option<i64>
    decreases s.len() - i,
{
    if i < 0 || start < 0 || start > i || i > s.len() {
        None
    } else if i == s.len() || s[i] == 0x2b {
        let part = trimmed(s.subrange(start, i));
        let (sum, any) = match i64_of(part) {
            Some(v) => (sat_add_i64(sum, v), true),
            None => (sum, any),
        };
        if i == s.len() {
            if any {
                Some(sum)
            } else {
                None
            }
        } else {
            plus_sum(s, i + 1, i + 1, sum, any)
        }
    } else {
        plus_sum(s, start, i + 1, sum, any)
    }
}

/// The beats of a time signature: a whole number, or the sum of the whole
/// numbers between plus signs.
pub open spec fn beats_of(text: Seq<u8>) -> Option<i64> {
    let t = trimmed(text);
    if t.len() == 0 {
        None
    } else if !contains_bytes(t, "+".spec_bytes()) {
        i64_of(t)
    } else {
        plus_sum(t, 0, 0, 0, false)
    }
}

pub fn parse_beats(text: &[u8]) -> (beats: Option<i64>)
    ensures
        beats == beats_of(text@),
{
    let t = trim(text);
    if t.len() == 0 {
        return None;
    }
    if !contains(t, "+".as_bytes()) {
        return parse_i64(t);
    }
    let mut sum: i64 = 0;
    let mut any = false;
    let mut start: usize = 0;
    let mut i: usize = 0;
    while i < t.len()
        invariant
            start <= i <= t@.len(),
            plus_sum(t@, 0, 0, 0, false) == plus_sum(t@, start as int, i as int, sum, any),
        decreases t@.len() - i,
    {
        if t[i] == 0x2b {
            let part = trim(vstd::slice::slice_subrange(t, start, i));
            match parse_i64(part) {
                Some(v) => {
                    let wide: i128 = sum as i128 + v as i128;
                    sum = if wide > i64::MAX as i128 {
                        i64::MAX
                    } else if wide < i64::MIN as i128 {
                        i64::MIN
                    } else {
                        wide as i64
                    };
                    any = true;
                },
                None => {},
            }
            start = i + 1;
        }
        i = i + 1;
    }
    let part = trim(vstd::slice::slice_subrange(t, start, i));
    match parse_i64(part) {
        Some(v) => {
            let wide: i128 = sum as i128 + v as i128;
            sum = if wide > i64::MAX as i128 {
                i64::MAX
            } else if wide < i64::MIN as i128 {
                i64::MIN
            } else {
                wide as i64
            };
            any = true;
        },
        None => {},
    }
    if any {
        Some(sum)
    } else {
        None
    }
}

/// The number of a text without the white space at its ends.
pub open spec fn trimmed_i64(text: Option<Seq<u8>>) -> Option<i64> {
    match text {
        Some(t) => i64_of(trimmed(t)),
        None => None,
    }
}

/// What an `attributes` element says: the divisions, 1 where they are
/// not a number; and the time signature where beats and beat type are both
/// numbers.
pub open spec fn attributes_of(nodes: Seq<XmlNodeView>, e: int) -> AttributesItem {
    AttributesItem {
        divisions: match child_text(nodes, e, "divisions".spec_bytes()) {
            Some(t) => Some(
                match i64_of(t) {
                    Some(d) => d,
                    None => 1,
                },
            ),
            None => None,
        },
        time: match find_child(nodes, e, "time".spec_bytes()) {
            Some(t) => {
                let beats = match child_text(nodes, t, "beats".spec_bytes()) {
                    Some(text) => beats_of(text),
                    None => None,
                };
                let beat_type = trimmed_i64(child_text(nodes, t, "beat-type".spec_bytes()));
                if beats is Some && beat_type is Some {
                    Some(TimeSignature { beats: beats.unwrap(), beat_type: beat_type.unwrap() })
                } else {
                    None
                }
            },
            None => None,
        },
    }
}

pub fn read_attributes(nodes: &Vec<XmlNode>, e: usize) -> (item: AttributesItem)
    requires
        e < nodes@.len(),
    ensures
        item == attributes_of(node_views(nodes@), e as int),
{
    let divisions = match first_child_text(nodes, e, "divisions".as_bytes()) {
        Some(t) => Some(
            match parse_i64(t) {
                Some(d) => d,
                None => 1,
            },
        ),
        None => None,
    };
    let time = match first_child(nodes, e, "time".as_bytes()) {
        Some(t) => {
            let beats = match first_child_text(nodes, t, "beats".as_bytes()) {
                Some(text) => parse_beats(text),
                None => None,
            };
            let beat_type = match first_child_text(nodes, t, "beat-type".as_bytes()) {
                Some(text) => parse_i64(trim(text)),
                None => None,
            };
            match (beats, beat_type) {
                (Some(beats), Some(beat_type)) => Some(TimeSignature { beats, beat_type }),
                _ => None,
            }
        },
        None => None,
    };
    AttributesItem { divisions, time }
}

/// The duration that an element gives in a `duration` child, 0 where it
/// gives none.
pub open spec fn duration_of(nodes: Seq<XmlNodeView>, e: int) -> i64 {
    match child_text(nodes, e, "duration".spec_bytes()) {
        Some(t) => match i64_of(t) {
            Some(d) => d,
            None => 0,
        },
        None => 0,
    }
}

pub fn read_duration(nodes: &Vec<XmlNode>, e: usize) -> (duration: i64)
    requires
        e < nodes@.len(),
    ensures
        duration == duration_of(node_views(nodes@), e as int),
{
    match first_child_text(nodes, e, "duration".as_bytes()) {
        Some(t) => match parse_i64(t) {
            Some(d) => d,
            None => 0,
        },
        None => 0,
    }
}

/// The text without full stops at its end.
pub open spec fn without_stops(s: Seq<u8>, j: int) -> Seq<u8>
    decreases j,
{
    if 0 < j <= s.len() && s[j - 1] == 0x2e {
        without_stops(s, j - 1)
    } else if 0 <= j <= s.len() {
        s.subrange(0, j)
    } else {
        Seq::empty()
    }
}

/// The velocity of a dynamics mark by its name, from pppp to ffff and the
/// accents.
pub open spec fn dynamics_velocity(tag: Seq<u8>) -> Option<u8> {
    let t = trimmed(tag);
    let name = lowered(without_stops(t, t.len() as int));
    if name == "pppp".spec_bytes() {
        Some(16u8)
    } else if name == "ppp".spec_bytes() {
        Some(24u8)
    } else if name == "pp".spec_bytes() {
        Some(34u8)
    } else if name == "p".spec_bytes() {
        Some(46u8)
    } else if name == "mp".spec_bytes() {
        Some(58u8)
    } else if name == "mf".spec_bytes() {
        Some(74u8)
    } else if name == "f".spec_bytes() {
        Some(92u8)
    } else if name == "ff".spec_bytes() {
        Some(108u8)
    } else if name == "fff".spec_bytes() {
        Some(120u8)
    } else if name == "ffff".spec_bytes() {
        Some(127u8)
    } else if name == "sfz".spec_bytes() || name == "sf".spec_bytes() || name == "fz".spec_bytes() {
        Some(112u8)
    } else {
        None
    }
}

pub fn dynamics_tag_velocity(tag: &[u8]) -> (velocity: Option<u8>)
    ensures
        velocity == dynamics_velocity(tag@),
{
    let t = trim(tag);
    let mut j: usize = t.len();
    while j > 0 && t[j - 1] == 0x2e
        invariant
            j <= t@.len(),
            without_stops(t@, t@.len() as int) == without_stops(t@, j as int),
        decreases j,
    {
        j = j - 1;
    }
    let name = to_lower(vstd::slice::slice_subrange(t, 0, j));
    let name = name.as_slice();
    if bytes_eq(name, "pppp".as_bytes()) {
        Some(16)
    } else if bytes_eq(name, "ppp".as_bytes()) {
        Some(24)
    } else if bytes_eq(name, "pp".as_bytes()) {
        Some(34)
    } else if bytes_eq(name, "p".as_bytes()) {
        Some(46)
    } else if bytes_eq(name, "mp".as_bytes()) {
        Some(58)
    } else if bytes_eq(name, "mf".as_bytes()) {
        Some(74)
    } else if bytes_eq(name, "f".as_bytes()) {
        Some(92)
    } else if bytes_eq(name, "ff".as_bytes()) {
        Some(108)
    } else if bytes_eq(name, "fff".as_bytes()) {
        Some(120)
    } else if bytes_eq(name, "ffff".as_bytes()) {
        Some(127)
    } else if bytes_eq(name, "sfz".as_bytes()) || bytes_eq(name, "sf".as_bytes()) || bytes_eq(name, "fz".as_bytes()) {
        Some(112)
    } else {
        None
    }
}

/// The velocity that the `dynamics` attribute of a sound gives.
pub open spec fn sound_velocity_of(value: Seq<u8>) -> Option<u8> {
    let v = trimmed(value);
    if v.len() == 0 {
        None
    } else {
        match decimal_of(v) {
            Some(d) => Some(velocity_of(d)),
            None => None,
        }
    }
}

pub fn parse_velocity(value: &[u8]) -> (velocity: Option<u8>)
    ensures
        velocity == sound_velocity_of(value@),
{
    let v = trim(value);
    if v.len() == 0 {
        return None;
    }
    match parse_decimal(v) {
        Some(d) => Some(velocity_from(d)),
        None => None,
    }
}

/// What the pedal attribute of a sound says: a number from 64 on, or one of
/// the words yes, true and on, for down; a lesser number, or one of the
/// words no, false and off, for up.
pub open spec fn sound_pedal_of(value: Seq<u8>) -> Option<bool> {
    let v = trimmed(value);
    match decimal_of(v) {
        Some(d) => Some(is_pedal_down(d)),
        None => {
            let word = lowered(v);
            if word == "yes".spec_bytes() || word == "true".spec_bytes() || word == "on".spec_bytes() {
                Some(true)
            } else if word == "no".spec_bytes() || word == "false".spec_bytes() || word == "off".spec_bytes() {
                Some(false)
            } else {
                None
            }
        },
    }
}

pub fn parse_pedal_value(value: &[u8]) -> (down: Option<bool>)
    ensures
        down == sound_pedal_of(value@),
{
    let v = trim(value);
    match parse_decimal(v) {
        Some(d) => Some(pedal_down_from(d)),
        None => {
            let word = to_lower(v);
            let word = word.as_slice();
            if bytes_eq(word, "yes".as_bytes()) || bytes_eq(word, "true".as_bytes()) || bytes_eq(word, "on".as_bytes()) {
                Some(true)
            } else if bytes_eq(word, "no".as_bytes()) || bytes_eq(word, "false".as_bytes()) || bytes_eq(word, "off".as_bytes()) {
                Some(false)
            } else {
                None
            }
        },
    }
}

/// The tempo that the `tempo` attribute of a sound gives, in microseconds
/// per quarter note.
pub open spec fn sound_tempo_of(value: Option<Seq<u8>>) -> Option<u32> {
    match value {
        Some(v) => match decimal_of(v) {
            Some(d) => tempo_of(d),
            None => None,
        },
        None => None,
    }
}

/// A pedal mark by its `type` attribute.
pub open spec fn pedal_mark_of(n: XmlNodeView) -> PedalMark {
    let kind = match attribute_of(n, "type".spec_bytes()) {
        Some(v) => trimmed(v),
        None => Seq::empty(),
    };
    if kind == "start".spec_bytes() {
        PedalMark::Start
    } else if kind == "stop".spec_bytes() {
        PedalMark::Stop
    } else if kind == "change".spec_bytes() {
        PedalMark::Change
    } else {
        PedalMark::Other
    }
}

fn read_pedal_mark(node: &XmlNode) -> (mark: PedalMark)
    ensures
        mark == pedal_mark_of(node@),
{
    let empty: [u8; 0] = [];
    let kind: &[u8] = match attribute(node, "type".as_bytes()) {
        Some(v) => trim(v),
        None => {
            assert(empty@ =~= Seq::<u8>::empty());
            empty.as_slice()
        },
    };
    if bytes_eq(kind, "start".as_bytes()) {
        PedalMark::Start
    } else if bytes_eq(kind, "stop".as_bytes()) {
        PedalMark::Stop
    } else if bytes_eq(kind, "change".as_bytes()) {
        PedalMark::Change
    } else {
        PedalMark::Other
    }
}

/// What words say of the pedal.
pub open spec fn pedal_word_of(text: Option<Seq<u8>>) -> PedalWord {
    match text {
        None => PedalWord::Other,
        Some(t) => {
            let raw = trimmed(t);
            let word = lowered(raw);
            if raw.len() == 0 {
                PedalWord::Other
            } else if contains_bytes(word, "ped".spec_bytes()) {
                PedalWord::Press
            } else if contains_bytes(word, "*".spec_bytes()) || contains_bytes(word, "release".spec_bytes()) {
                PedalWord::Release
            } else if word == "simile".spec_bytes() {
                PedalWord::Simile
            } else {
                PedalWord::Other
            }
        },
    }
}

fn read_pedal_word(node: &XmlNode) -> (word: PedalWord)
    ensures
        word == pedal_word_of(node@.text),
{
    match text_bytes(node) {
        None => PedalWord::Other,
        Some(t) => {
            let raw = trim(t);
            if raw.len() == 0 {
                return PedalWord::Other;
            }
            let word = to_lower(raw);
            let word = word.as_slice();
            if contains(word, "ped".as_bytes()) {
                PedalWord::Press
            } else if contains(word, "*".as_bytes()) || contains(word, "release".as_bytes()) {
                PedalWord::Release
            } else if bytes_eq(word, "simile".as_bytes()) {
                PedalWord::Simile
            } else {
                PedalWord::Other
            }
        },
    }
}

/// The velocity of the first of the children `children` of a `dynamics`
/// element, from the `k`-th on, that names a dynamics mark.
pub open spec fn first_mark_velocity(nodes: Seq<XmlNodeView>, children: Seq<int>, k: int)
    -> Option<u8>
    decreases children.len() - k,
{
    if k < 0 || k >= children.len() {
        None
    } else {
        let c = nodes[children[k]];
        let here = if c.tag == "other-dynamics".spec_bytes() {
            match c.text {
                Some(t) => dynamics_velocity(trimmed(t)),
                None => None,
            }
        } else {
            dynamics_velocity(c.tag)
        };
        if here is Some {
            here
        } else {
            first_mark_velocity(nodes, children, k + 1)
        }
    }
}

/// The velocity of the first of the `words` among `children`, from the
/// `k`-th on, that names a dynamics mark.
pub open spec fn first_words_velocity(nodes: Seq<XmlNodeView>, children: Seq<int>, k: int)
    -> Option<u8>
    decreases children.len() - k,
{
    if k < 0 || k >= children.len() {
        None
    } else {
        let c = nodes[children[k]];
        let here = if has_tag(c, "words".spec_bytes()) {
            match c.text {
                Some(t) => if trimmed(t).len() == 0 {
                    None
                } else {
                    dynamics_velocity(trimmed(t))
                },
                None => None,
            }
        } else {
            None
        };
        if here is Some {
            here
        } else {
            first_words_velocity(nodes, children, k + 1)
        }
    }
}

/// The pedal marks among `children` from the `k`-th on.
pub open spec fn pedal_marks_from(nodes: Seq<XmlNodeView>, children: Seq<int>, k: int) -> Seq<
    PedalMark,
>
    decreases children.len() - k,
{
    if k < 0 || k >= children.len() {
        Seq::empty()
    } else if has_tag(nodes[children[k]], "pedal".spec_bytes()) {
        seq![pedal_mark_of(nodes[children[k]])] + pedal_marks_from(nodes, children, k + 1)
    } else {
        pedal_marks_from(nodes, children, k + 1)
    }
}

/// What the `words` among `children` from the `k`-th on say of the pedal.
pub open spec fn pedal_words_from(nodes: Seq<XmlNodeView>, children: Seq<int>, k: int) -> Seq<
    PedalWord,
>
    decreases children.len() - k,
{
    if k < 0 || k >= children.len() {
        Seq::empty()
    } else if has_tag(nodes[children[k]], "words".spec_bytes()) {
        seq![pedal_word_of(nodes[children[k]].text)] + pedal_words_from(nodes, children, k + 1)
    } else {
        pedal_words_from(nodes, children, k + 1)
    }
}

/// The velocity that the dynamics mark of a direction type gives.
pub open spec fn mark_velocity_of(nodes: Seq<XmlNodeView>, dt: int) -> Option<u8> {
    let mark = match find_child(nodes, dt, "dynamics".spec_bytes()) {
        Some(d) => first_mark_velocity(nodes, element_children(nodes, d), 0),
        None => None,
    };
    if mark is Some {
        mark
    } else {
        first_words_velocity(nodes, element_children(nodes, dt), 0)
    }
}

/// What a `direction` element says.
pub open spec fn direction_of(nodes: Seq<XmlNodeView>, e: int) -> DirectionView {
    let sound = find_child(nodes, e, "sound".spec_bytes());
    let dt = find_child(nodes, e, "direction-type".spec_bytes());
    DirectionView {
        tempo: match sound {
            Some(s) => sound_tempo_of(attribute_of(nodes[s], "tempo".spec_bytes())),
            None => None,
        },
        sound_velocity: match sound {
            Some(s) => match attribute_of(nodes[s], "dynamics".spec_bytes()) {
                Some(v) => sound_velocity_of(v),
                None => None,
            },
            None => None,
        },
        sound_pedal: match sound {
            Some(s) => {
                let value = if attribute_of(nodes[s], "damper-pedal".spec_bytes()) is Some {
                    attribute_of(nodes[s], "damper-pedal".spec_bytes())
                } else {
                    attribute_of(nodes[s], "pedal".spec_bytes())
                };
                match value {
                    Some(v) => sound_pedal_of(v),
                    None => None,
                }
            },
            None => None,
        },
        mark_velocity: match dt {
            Some(d) => mark_velocity_of(nodes, d),
            None => None,
        },
        pedal_marks: match dt {
            Some(d) => pedal_marks_from(nodes, element_children(nodes, d), 0),
            None => Seq::empty(),
        },
        pedal_words: match dt {
            Some(d) => pedal_words_from(nodes, element_children(nodes, d), 0),
            None => Seq::empty(),
        },
    }
}

/// The places `found` are the places `places`, within the nodes.
pub open spec fn are_places(found: Seq<usize>, places: Seq<int>, len: int) -> bool {
    &&& found.len() == places.len()
    &&& forall|k: int| 0 <= k < found.len() ==> (#[trigger] found[k]) == places[k] && found[k] < len
}

fn read_first_mark(nodes: &Vec<XmlNode>, d: usize) -> (velocity: Option<u8>)
    requires
        d < nodes@.len(),
    ensures
        velocity == first_mark_velocity(node_views(nodes@), element_children(node_views(nodes@), d as int), 0),
{
    let children = children_elements(nodes, d);
    let ghost places = element_children(node_views(nodes@), d as int);
    let mut k: usize = 0;
    while k < children.len()
        invariant
            k <= children@.len(),
            are_places(children@, places, nodes@.len() as int),
            places == element_children(node_views(nodes@), d as int),
            first_mark_velocity(node_views(nodes@), places, 0) == first_mark_velocity(
                node_views(nodes@),
                places,
                k as int,
            ),
        decreases children@.len() - k,
    {
        assert(children@[k as int] == places[k as int]);
        let c = &nodes[children[k]];
        assert(c@ == node_views(nodes@)[places[k as int]]);
        let here = if bytes_eq(c.tag.as_slice(), "other-dynamics".as_bytes()) {
            match text_bytes(c) {
                Some(t) => dynamics_tag_velocity(trim(t)),
                None => None,
            }
        } else {
            dynamics_tag_velocity(c.tag.as_slice())
        };
        if here.is_some() {
            assert(first_mark_velocity(node_views(nodes@), places, k as int) == here);
            return here;
        }
        assert(first_mark_velocity(node_views(nodes@), places, k as int) == first_mark_velocity(
            node_views(nodes@),
            places,
            k + 1,
        ));
        k = k + 1;
    }
    None
}

fn read_first_words(nodes: &Vec<XmlNode>, dt: usize) -> (velocity: Option<u8>)
    requires
        dt < nodes@.len(),
    ensures
        velocity == first_words_velocity(
            node_views(nodes@),
            element_children(node_views(nodes@), dt as int),
            0,
        ),
{
    let children = children_elements(nodes, dt);
    let ghost places = element_children(node_views(nodes@), dt as int);
    let mut k: usize = 0;
    while k < children.len()
        invariant
            k <= children@.len(),
            are_places(children@, places, nodes@.len() as int),
            places == element_children(node_views(nodes@), dt as int),
            first_words_velocity(node_views(nodes@), places, 0) == first_words_velocity(
                node_views(nodes@),
                places,
                k as int,
            ),
        decreases children@.len() - k,
    {
        assert(children@[k as int] == places[k as int]);
        let c = &nodes[children[k]];
        assert(c@ == node_views(nodes@)[places[k as int]]);
        if is_element_named(c, "words".as_bytes()) {
            match text_bytes(c) {
                Some(t) => {
                    let trimmed_text = trim(t);
                    if trimmed_text.len() > 0 {
                        let here = dynamics_tag_velocity(trimmed_text);
                        if here.is_some() {
                            assert(first_words_velocity(node_views(nodes@), places, k as int) == here);
                            return here;
                        }
                    }
                },
                None => {},
            }
        }
        k = k + 1;
    }
    None
}

fn read_mark_velocity(nodes: &Vec<XmlNode>, dt: usize) -> (velocity: Option<u8>)
    requires
        dt < nodes@.len(),
    ensures
        velocity == mark_velocity_of(node_views(nodes@), dt as int),
{
    let mark = match first_child(nodes, dt, "dynamics".as_bytes()) {
        Some(d) => read_first_mark(nodes, d),
        None => None,
    };
    if mark.is_some() {
        mark
    } else {
        read_first_words(nodes, dt)
    }
}

pub fn read_direction(nodes: &Vec<XmlNode>, e: usize) -> (item: DirectionItem)
    requires
        e < nodes@.len(),
    ensures
        item@ == direction_of(node_views(nodes@), e as int),
{
    let mut item = DirectionItem {
        tempo: None,
        sound_velocity: None,
        sound_pedal: None,
        mark_velocity: None,
        pedal_marks: Vec::new(),
        pedal_words: Vec::new(),
    };
    match first_child(nodes, e, "sound".as_bytes()) {
        Some(s) => {
            let sound = &nodes[s];
            item.tempo = match attribute(sound, "tempo".as_bytes()) {
                Some(v) => match parse_decimal(v) {
                    Some(d) => tempo_from(d),
                    None => None,
                },
                None => None,
            };
            item.sound_velocity = match attribute(sound, "dynamics".as_bytes()) {
                Some(v) => parse_velocity(v),
                None => None,
            };
            let pedal = match attribute(sound, "damper-pedal".as_bytes()) {
                Some(v) => Some(v),
                None => attribute(sound, "pedal".as_bytes()),
            };
            item.sound_pedal = match pedal {
                Some(v) => parse_pedal_value(v),
                None => None,
            };
        },
        None => {},
    }
    match first_child(nodes, e, "direction-type".as_bytes()) {
        Some(d) => {
            item.mark_velocity = read_mark_velocity(nodes, d);
            let children = children_elements(nodes, d);
            let ghost places = element_children(node_views(nodes@), d as int);
            let mut marks: Vec<PedalMark> = Vec::new();
            let mut words: Vec<PedalWord> = Vec::new();
            let mut k: usize = 0;
            assert(marks@ + pedal_marks_from(node_views(nodes@), places, 0) =~= pedal_marks_from(
                node_views(nodes@),
                places,
                0,
            ));
            assert(words@ + pedal_words_from(node_views(nodes@), places, 0) =~= pedal_words_from(
                node_views(nodes@),
                places,
                0,
            ));
            while k < children.len()
                invariant
                    k <= children@.len(),
                    are_places(children@, places, nodes@.len() as int),
                    marks@ + pedal_marks_from(node_views(nodes@), places, k as int) == pedal_marks_from(
                        node_views(nodes@),
                        places,
                        0,
                    ),
                    words@ + pedal_words_from(node_views(nodes@), places, k as int) == pedal_words_from(
                        node_views(nodes@),
                        places,
                        0,
                    ),
                decreases children@.len() - k,
            {
                assert(children@[k as int] == places[k as int]);
                let c = &nodes[children[k]];
                assert(c@ == node_views(nodes@)[places[k as int]]);
                let ghost marks_before = marks@;
                let ghost words_before = words@;
                if is_element_named(c, "pedal".as_bytes()) {
                    marks.push(read_pedal_mark(c));
                    proof {
                        let rest = pedal_marks_from(node_views(nodes@), places, k + 1);
                        assert(marks_before + (seq![pedal_mark_of(c@)] + rest) =~= marks@ + rest);
                    }
                }
                if is_element_named(c, "words".as_bytes()) {
                    words.push(read_pedal_word(c));
                    proof {
                        let rest = pedal_words_from(node_views(nodes@), places, k + 1);
                        assert(words_before + (seq![pedal_word_of(c@.text)] + rest) =~= words@
                            + rest);
                    }
                }
                k = k + 1;
            }
            proof {
                assert(marks@ + Seq::<PedalMark>::empty() =~= marks@);
                assert(words@ + Seq::<PedalWord>::empty() =~= words@);
            }
            item.pedal_marks = marks;
            item.pedal_words = words;
        },
        None => {},
    }
    item
}


/// The kind of note that a `type` element names.
pub open spec fn note_kind_of(text: Seq<u8>) -> Option<NoteType> {
    let name = lowered(trimmed(text));
    if name == "breve".spec_bytes() {
        Some(NoteType::Breve)
    } else if name == "whole".spec_bytes() {
        Some(NoteType::Whole)
    } else if name == "half".spec_bytes() {
        Some(NoteType::Half)
    } else if name == "quarter".spec_bytes() {
        Some(NoteType::Quarter)
    } else if name == "eighth".spec_bytes() {
        Some(NoteType::Eighth)
    } else if name == "16th".spec_bytes() {
        Some(NoteType::N16th)
    } else if name == "32nd".spec_bytes() {
        Some(NoteType::N32nd)
    } else if name == "64th".spec_bytes() {
        Some(NoteType::N64th)
    } else if name == "128th".spec_bytes() {
        Some(NoteType::N128th)
    } else if name == "256th".spec_bytes() {
        Some(NoteType::N256th)
    } else {
        None
    }
}

fn read_note_kind(text: &[u8]) -> (kind: Option<NoteType>)
    ensures
        kind == note_kind_of(text@),
{
    let name = to_lower(trim(text));
    let name = name.as_slice();
    if bytes_eq(name, "breve".as_bytes()) {
        Some(NoteType::Breve)
    } else if bytes_eq(name, "whole".as_bytes()) {
        Some(NoteType::Whole)
    } else if bytes_eq(name, "half".as_bytes()) {
        Some(NoteType::Half)
    } else if bytes_eq(name, "quarter".as_bytes()) {
        Some(NoteType::Quarter)
    } else if bytes_eq(name, "eighth".as_bytes()) {
        Some(NoteType::Eighth)
    } else if bytes_eq(name, "16th".as_bytes()) {
        Some(NoteType::N16th)
    } else if bytes_eq(name, "32nd".as_bytes()) {
        Some(NoteType::N32nd)
    } else if bytes_eq(name, "64th".as_bytes()) {
        Some(NoteType::N64th)
    } else if bytes_eq(name, "128th".as_bytes()) {
        Some(NoteType::N128th)
    } else if bytes_eq(name, "256th".as_bytes()) {
        Some(NoteType::N256th)
    } else {
        None
    }
}

/// The number of the elements of the name `name` among `children` from the
/// `k`-th on.
pub open spec fn count_named(nodes: Seq<XmlNodeView>, children: Seq<int>, name: Seq<u8>, k: int)
    -> nat
    decreases children.len() - k,
{
    if k < 0 || k >= children.len() {
        0
    } else if has_tag(nodes[children[k]], name) {
        1 + count_named(nodes, children, name, k + 1)
    } else {
        count_named(nodes, children, name, k + 1)
    }
}

/// A number of a tuplet, 0 where it is not written.
pub open spec fn tuplet_number(nodes: Seq<XmlNodeView>, tm: int, name: Seq<u8>) -> i64 {
    match trimmed_i64(child_text(nodes, tm, name)) {
        Some(v) => v,
        None => 0,
    }
}

/// The length of a note as it is written by type, dots and tuplet.
pub open spec fn written_of(nodes: Seq<XmlNodeView>, e: int) -> Option<WrittenLength> {
    match child_text(nodes, e, "type".spec_bytes()) {
        None => None,
        Some(t) => match note_kind_of(t) {
            None => None,
            Some(kind) => {
                let dots = count_named(nodes, element_children(nodes, e), "dot".spec_bytes(), 0);
                let tm = find_child(nodes, e, "time-modification".spec_bytes());
                Some(
                    WrittenLength {
                        kind,
                        dots: dots as usize,
                        actual: match tm {
                            Some(m) => tuplet_number(nodes, m, "actual-notes".spec_bytes()),
                            None => 0,
                        },
                        normal: match tm {
                            Some(m) => tuplet_number(nodes, m, "normal-notes".spec_bytes()),
                            None => 0,
                        },
                    },
                )
            },
        },
    }
}

fn read_tuplet_number(nodes: &Vec<XmlNode>, tm: usize, name: &[u8]) -> (v: i64)
    requires
        tm < nodes@.len(),
    ensures
        v == tuplet_number(node_views(nodes@), tm as int, name@),
{
    match first_child_text(nodes, tm, name) {
        Some(t) => match parse_i64(trim(t)) {
            Some(v) => v,
            None => 0,
        },
        None => 0,
    }
}

fn read_written(nodes: &Vec<XmlNode>, e: usize) -> (written: Option<WrittenLength>)
    requires
        e < nodes@.len(),
    ensures
        written == written_of(node_views(nodes@), e as int),
{
    let kind = match first_child_text(nodes, e, "type".as_bytes()) {
        None => {
            return None;
        },
        Some(t) => match read_note_kind(t) {
            None => {
                return None;
            },
            Some(kind) => kind,
        },
    };
    let children = children_elements(nodes, e);
    let ghost places = element_children(node_views(nodes@), e as int);
    let mut dots: usize = 0;
    let mut k: usize = 0;
    while k < children.len()
        invariant
            k <= children@.len(),
            dots <= k,
            are_places(children@, places, nodes@.len() as int),
            dots + count_named(node_views(nodes@), places, "dot".spec_bytes(), k as int) == count_named(
                node_views(nodes@),
                places,
                "dot".spec_bytes(),
                0,
            ),
        decreases children@.len() - k,
    {
        assert(children@[k as int] == places[k as int]);
        if is_element_named(&nodes[children[k]], "dot".as_bytes()) {
            dots = dots + 1;
        }
        k = k + 1;
    }
    let (actual, normal) = match first_child(nodes, e, "time-modification".as_bytes()) {
        Some(m) => (
            read_tuplet_number(nodes, m, "actual-notes".as_bytes()),
            read_tuplet_number(nodes, m, "normal-notes".as_bytes()),
        ),
        None => (0, 0),
    };
    Some(WrittenLength { kind, dots, actual, normal })
}

/// The pitch that a note names by step, octave and alteration.
pub open spec fn pitch_of(nodes: Seq<XmlNodeView>, e: int) -> Option<u8> {
    match find_child(nodes, e, "pitch".spec_bytes()) {
        None => None,
        Some(p) => match child_text(nodes, p, "step".spec_bytes()) {
            None => None,
            Some(step) => match child_text(nodes, p, "octave".spec_bytes()) {
                None => None,
                Some(octave_text) => match i32_of(octave_text) {
                    None => None,
                    Some(octave) => {
                        let alter = match child_text(nodes, p, "alter".spec_bytes()) {
                            Some(a) => match i32_of(a) {
                                Some(v) => v,
                                None => 0,
                            },
                            None => 0,
                        };
                        if step.len() == 1 {
                            midi_note_spec(step[0], octave, alter)
                        } else {
                            None
                        }
                    },
                },
            },
        },
    }
}

fn read_pitch(nodes: &Vec<XmlNode>, e: usize) -> (pitch: Option<u8>)
    requires
        e < nodes@.len(),
    ensures
        pitch == pitch_of(node_views(nodes@), e as int),
{
    let p = match first_child(nodes, e, "pitch".as_bytes()) {
        Some(p) => p,
        None => {
            return None;
        },
    };
    let step = match first_child_text(nodes, p, "step".as_bytes()) {
        Some(step) => step,
        None => {
            return None;
        },
    };
    let octave = match first_child_text(nodes, p, "octave".as_bytes()) {
        Some(t) => match parse_i32(t) {
            Some(octave) => octave,
            None => {
                return None;
            },
        },
        None => {
            return None;
        },
    };
    let alter = match first_child_text(nodes, p, "alter".as_bytes()) {
        Some(a) => match parse_i32(a) {
            Some(v) => v,
            None => 0,
        },
        None => 0,
    };
    if step.len() == 1 {
        midi_note(step[0], octave, alter)
    } else {
        None
    }
}

/// The `type` attribute of the node, without white space at its ends, is
/// `want`.
pub open spec fn type_is(n: XmlNodeView, want: Seq<u8>) -> bool {
    attribute_of(n, "type".spec_bytes()) matches Some(v) && trimmed(v) == want
}

fn has_type(node: &XmlNode, want: &[u8]) -> (r: bool)
    ensures
        r == type_is(node@, want@),
{
    match attribute(node, "type".as_bytes()) {
        Some(v) => bytes_eq(trim(v), want),
        None => false,
    }
}

/// The node is a tie of the type `want`.
pub open spec fn is_tie(n: XmlNodeView, want: Seq<u8>) -> bool {
    (has_tag(n, "tie".spec_bytes()) || has_tag(n, "tied".spec_bytes())) && type_is(n, want)
}

/// One of the nodes at `places` is a `tied` element of the type `want`.
pub open spec fn any_tied(nodes: Seq<XmlNodeView>, places: Seq<int>, want: Seq<u8>) -> bool {
    exists|k: int| 0 <= k < places.len() && type_is(#[trigger] nodes[places[k]], want)
}

/// A note is tied with the type `want`: by a `tie` or `tied` child, or by
/// a `tied` element among its notations.
pub open spec fn tied_with(nodes: Seq<XmlNodeView>, e: int, want: Seq<u8>) -> bool {
    let children = element_children(nodes, e);
    exists|k: int|
        0 <= k < children.len() && (is_tie(#[trigger] nodes[children[k]], want) || (has_tag(
            nodes[children[k]],
            "notations".spec_bytes(),
        ) && any_tied(
            nodes,
            elements_below_from(nodes, children[k], "tied".spec_bytes(), children[k] + 1),
            want,
        )))
}

fn read_any_tied(nodes: &Vec<XmlNode>, c: usize, want: &[u8]) -> (r: bool)
    requires
        c < nodes@.len(),
    ensures
        r == any_tied(
            node_views(nodes@),
            elements_below_from(node_views(nodes@), c as int, "tied".spec_bytes(), c + 1),
            want@,
        ),
{
    let tied = elements_below(nodes, c, "tied".as_bytes());
    let ghost places = elements_below_from(node_views(nodes@), c as int, "tied".spec_bytes(), c + 1);
    let mut k: usize = 0;
    while k < tied.len()
        invariant
            k <= tied@.len(),
            are_places(tied@, places, nodes@.len() as int),
            places == elements_below_from(node_views(nodes@), c as int, "tied".spec_bytes(), c + 1),
            forall|i: int| 0 <= i < k ==> !type_is(#[trigger] node_views(nodes@)[places[i]], want@),
        decreases tied@.len() - k,
    {
        assert(tied@[k as int] == places[k as int]);
        if has_type(&nodes[tied[k]], want) {
            assert(type_is(node_views(nodes@)[places[k as int]], want@));
            return true;
        }
        k = k + 1;
    }
    false
}

fn read_tied_with(nodes: &Vec<XmlNode>, e: usize, want: &[u8]) -> (r: bool)
    requires
        e < nodes@.len(),
    ensures
        r == tied_with(node_views(nodes@), e as int, want@),
{
    let children = children_elements(nodes, e);
    let ghost places = element_children(node_views(nodes@), e as int);
    let mut k: usize = 0;
    while k < children.len()
        invariant
            k <= children@.len(),
            are_places(children@, places, nodes@.len() as int),
            places == element_children(node_views(nodes@), e as int),
            forall|i: int|
                0 <= i < k ==> !(is_tie(#[trigger] node_views(nodes@)[places[i]], want@) || (has_tag(
                    node_views(nodes@)[places[i]],
                    "notations".spec_bytes(),
                ) && any_tied(
                    node_views(nodes@),
                    elements_below_from(
                        node_views(nodes@),
                        places[i],
                        "tied".spec_bytes(),
                        places[i] + 1,
                    ),
                    want@,
                ))),
        decreases children@.len() - k,
    {
        assert(children@[k as int] == places[k as int]);
        let c = children[k];
        let node = &nodes[c];
        assert(node@ == node_views(nodes@)[places[k as int]]);
        let tie = (is_element_named(node, "tie".as_bytes()) || is_element_named(
            node,
            "tied".as_bytes(),
        )) && has_type(node, want);
        let noted = is_element_named(node, "notations".as_bytes()) && read_any_tied(nodes, c, want);
        if tie || noted {
            return true;
        }
        k = k + 1;
    }
    false
}

/// What a `note` element says.
pub open spec fn note_of(nodes: Seq<XmlNodeView>, e: int) -> NoteItem {
    NoteItem {
        is_chord: find_child(nodes, e, "chord".spec_bytes()) is Some,
        is_rest: find_child(nodes, e, "rest".spec_bytes()) is Some,
        is_grace: find_child(nodes, e, "grace".spec_bytes()) is Some,
        duration: duration_of(nodes, e),
        written: written_of(nodes, e),
        pitch: pitch_of(nodes, e),
        staff: match child_text(nodes, e, "staff".spec_bytes()) {
            Some(t) => u8_of(t),
            None => None,
        },
        tie_start: tied_with(nodes, e, "start".spec_bytes()),
        tie_stop: tied_with(nodes, e, "stop".spec_bytes()),
    }
}

pub fn read_note(nodes: &Vec<XmlNode>, e: usize) -> (item: NoteItem)
    requires
        e < nodes@.len(),
    ensures
        item == note_of(node_views(nodes@), e as int),
{
    NoteItem {
        is_chord: first_child(nodes, e, "chord".as_bytes()).is_some(),
        is_rest: first_child(nodes, e, "rest".as_bytes()).is_some(),
        is_grace: first_child(nodes, e, "grace".as_bytes()).is_some(),
        duration: read_duration(nodes, e),
        written: read_written(nodes, e),
        pitch: read_pitch(nodes, e),
        staff: match first_child_text(nodes, e, "staff".as_bytes()) {
            Some(t) => parse_u8(t),
            None => None,
        },
        tie_start: read_tied_with(nodes, e, "start".as_bytes()),
        tie_stop: read_tied_with(nodes, e, "stop".as_bytes()),
    }
}

/// What an element of a measure says, if it is one that the walk takes.
pub open spec fn item_of(nodes: Seq<XmlNodeView>, c: int) -> Option<MeasureItemView> {
    let n = nodes[c];
    if has_tag(n, "attributes".spec_bytes()) {
        Some(MeasureItemView::Attributes(attributes_of(nodes, c)))
    } else if has_tag(n, "direction".spec_bytes()) {
        Some(MeasureItemView::Direction(direction_of(nodes, c)))
    } else if has_tag(n, "backup".spec_bytes()) {
        Some(MeasureItemView::Backup(duration_of(nodes, c)))
    } else if has_tag(n, "forward".spec_bytes()) {
        Some(MeasureItemView::Forward(duration_of(nodes, c)))
    } else if has_tag(n, "note".spec_bytes()) {
        Some(MeasureItemView::Note(note_of(nodes, c)))
    } else {
        None
    }
}

/// The items of the elements at `places` from the `k`-th on.
pub open spec fn items_from(nodes: Seq<XmlNodeView>, places: Seq<int>, k: int) -> Seq<
    MeasureItemView,
>
    decreases places.len() - k,
{
    if k < 0 || k >= places.len() {
        Seq::empty()
    } else {
        match item_of(nodes, places[k]) {
            Some(item) => seq![item] + items_from(nodes, places, k + 1),
            None => items_from(nodes, places, k + 1),
        }
    }
}

/// A measure is a pickup where its `implicit` attribute says yes or true.
pub open spec fn is_implicit(n: XmlNodeView) -> bool {
    match attribute_of(n, "implicit".spec_bytes()) {
        Some(v) => lowered(trimmed(v)) == "yes".spec_bytes() || lowered(trimmed(v))
            == "true".spec_bytes(),
        None => false,
    }
}

/// What a `measure` element holds.
pub open spec fn measure_of(nodes: Seq<XmlNodeView>, m: int) -> MeasureView {
    MeasureView {
        implicit: is_implicit(nodes[m]),
        items: items_from(nodes, element_children(nodes, m), 0),
    }
}

fn read_item(nodes: &Vec<XmlNode>, c: usize) -> (item: Option<MeasureItem>)
    requires
        c < nodes@.len(),
    ensures
        match item {
            Some(i) => item_of(node_views(nodes@), c as int) == Some(i@),
            None => item_of(node_views(nodes@), c as int) is None,
        },
{
    let node = &nodes[c];
    if is_element_named(node, "attributes".as_bytes()) {
        Some(MeasureItem::Attributes(read_attributes(nodes, c)))
    } else if is_element_named(node, "direction".as_bytes()) {
        Some(MeasureItem::Direction(read_direction(nodes, c)))
    } else if is_element_named(node, "backup".as_bytes()) {
        Some(MeasureItem::Backup(read_duration(nodes, c)))
    } else if is_element_named(node, "forward".as_bytes()) {
        Some(MeasureItem::Forward(read_duration(nodes, c)))
    } else if is_element_named(node, "note".as_bytes()) {
        Some(MeasureItem::Note(read_note(nodes, c)))
    } else {
        None
    }
}

pub fn read_measure(nodes: &Vec<XmlNode>, m: usize) -> (measure: MeasureItems)
    requires
        m < nodes@.len(),
    ensures
        measure@ == measure_of(node_views(nodes@), m as int),
{
    let implicit = match attribute(&nodes[m], "implicit".as_bytes()) {
        Some(v) => {
            let word = to_lower(trim(v));
            bytes_eq(word.as_slice(), "yes".as_bytes()) || bytes_eq(
                word.as_slice(),
                "true".as_bytes(),
            )
        },
        None => false,
    };
    let children = children_elements(nodes, m);
    let ghost places = element_children(node_views(nodes@), m as int);
    let ghost all = items_from(node_views(nodes@), places, 0);
    let mut items: Vec<MeasureItem> = Vec::new();
    let ghost mut sofar: Seq<MeasureItemView> = Seq::empty();
    let mut k: usize = 0;
    assert(sofar + items_from(node_views(nodes@), places, 0) =~= all);
    while k < children.len()
        invariant
            k <= children@.len(),
            are_places(children@, places, nodes@.len() as int),
            items@.len() == sofar.len(),
            forall|i: int| 0 <= i < items@.len() ==> (#[trigger] items@[i])@ == sofar[i],
            sofar + items_from(node_views(nodes@), places, k as int) == all,
        decreases children@.len() - k,
    {
        assert(children@[k as int] == places[k as int]);
        match read_item(nodes, children[k]) {
            Some(item) => {
                proof {
                    let rest = items_from(node_views(nodes@), places, k + 1);
                    assert(sofar + (seq![item@] + rest) =~= sofar.push(item@) + rest);
                    sofar = sofar.push(item@);
                }
                items.push(item);
            },
            None => {},
        }
        k = k + 1;
    }
    let measure = MeasureItems { implicit, items };
    proof {
        assert(sofar + Seq::<MeasureItemView>::empty() =~= sofar);
        assert(measure@.items =~= all);
    }
    measure
}

/// The measures at `places` from the `k`-th on.
pub open spec fn measures_from(nodes: Seq<XmlNodeView>, places: Seq<int>, k: int) -> Seq<
    MeasureView,
>
    decreases places.len() - k,
{
    if k < 0 || k >= places.len() {
        Seq::empty()
    } else if has_tag(nodes[places[k]], "measure".spec_bytes()) {
        seq![measure_of(nodes, places[k])] + measures_from(nodes, places, k + 1)
    } else {
        measures_from(nodes, places, k + 1)
    }
}

/// What a `part` element holds: its measures.
pub open spec fn part_of(nodes: Seq<XmlNodeView>, p: int) -> PartView {
    PartView { measures: measures_from(nodes, element_children(nodes, p), 0) }
}

pub fn read_part(nodes: &Vec<XmlNode>, p: usize) -> (part: PartItems)
    requires
        p < nodes@.len(),
    ensures
        part@ == part_of(node_views(nodes@), p as int),
{
    let children = children_elements(nodes, p);
    let ghost places = element_children(node_views(nodes@), p as int);
    let ghost all = measures_from(node_views(nodes@), places, 0);
    let mut measures: Vec<MeasureItems> = Vec::new();
    let ghost mut sofar: Seq<MeasureView> = Seq::empty();
    let mut k: usize = 0;
    assert(sofar + measures_from(node_views(nodes@), places, 0) =~= all);
    while k < children.len()
        invariant
            k <= children@.len(),
            are_places(children@, places, nodes@.len() as int),
            measures@.len() == sofar.len(),
            forall|i: int| 0 <= i < measures@.len() ==> (#[trigger] measures@[i])@ == sofar[i],
            sofar + measures_from(node_views(nodes@), places, k as int) == all,
        decreases children@.len() - k,
    {
        assert(children@[k as int] == places[k as int]);
        if is_element_named(&nodes[children[k]], "measure".as_bytes()) {
            let measure = read_measure(nodes, children[k]);
            proof {
                let rest = measures_from(node_views(nodes@), places, k + 1);
                assert(sofar + (seq![measure@] + rest) =~= sofar.push(measure@) + rest);
                sofar = sofar.push(measure@);
            }
            measures.push(measure);
        }
        k = k + 1;
    }
    let part = PartItems { measures };
    proof {
        assert(sofar + Seq::<MeasureView>::empty() =~= sofar);
        assert(part@.measures =~= all);
    }
    part
}

/// The parts at `places`.
pub open spec fn parts_at(nodes: Seq<XmlNodeView>, places: Seq<int>) -> Seq<PartView> {
    Seq::new(places.len(), |k: int| part_of(nodes, places[k]))
}

/// The parts of a document: its `part` elements, wherever they stand, in
/// document order.
pub open spec fn parts_of(nodes: Seq<XmlNodeView>) -> Seq<PartView> {
    parts_at(nodes, elements_named_from(nodes, "part".spec_bytes(), 0))
}

/// The title of a document: the text of its first `work-title` element.
pub open spec fn title_of(nodes: Seq<XmlNodeView>) -> Option<Seq<u8>> {
    let titles = elements_named_from(nodes, "work-title".spec_bytes(), 0);
    if titles.len() > 0 {
        nodes[titles[0]].text
    } else {
        None
    }
}

pub fn read_parts(nodes: &Vec<XmlNode>) -> (parts: Vec<PartItems>)
    ensures
        part_views(parts@) == parts_of(node_views(nodes@)),
{
    let found = elements_named(nodes, "part".as_bytes());
    let ghost places = elements_named_from(node_views(nodes@), "part".spec_bytes(), 0);
    let mut parts: Vec<PartItems> = Vec::new();
    let mut k: usize = 0;
    while k < found.len()
        invariant
            k <= found@.len(),
            are_places(found@, places, nodes@.len() as int),
            parts@.len() == k,
            forall|i: int|
                0 <= i < k ==> (#[trigger] parts@[i])@ == part_of(node_views(nodes@), places[i]),
        decreases found@.len() - k,
    {
        assert(found@[k as int] == places[k as int]);
        parts.push(read_part(nodes, found[k]));
        k = k + 1;
    }
    assert(part_views(parts@) =~= parts_of(node_views(nodes@)));
    parts
}

pub fn read_title(nodes: &Vec<XmlNode>) -> (title: Option<&[u8]>)
    ensures
        match title {
            Some(t) => title_of(node_views(nodes@)) == Some(t@),
            None => title_of(node_views(nodes@)) is None,
        },
{
    let found = elements_named(nodes, "work-title".as_bytes());
    if found.len() > 0 {
        text_bytes(&nodes[found[0]])
    } else {
        None
    }
}


/// The score `score` is what the document with the nodes `nodes` says: the
/// title is the text of its first `work-title` element, and the rest is
/// the walk over its parts.
pub open spec fn is_score_of_document(score: Score, nodes: Seq<XmlNodeView>) -> bool {
    &&& is_musicxml_score(score, score.meta.title, parts_of(nodes))
    &&& match title_of(nodes) {
        Some(bytes) => score.meta.title matches Some(title) && title@ == utf8_text(bytes),
        None => score.meta.title is None,
    }
}

/// Reads a MusicXML text into a score. A text that is no well-formed XML
/// document is refused; every other text gives a score.
pub fn import_musicxml_str(xml: &str) -> (imported: Result<Score, MusicXmlImportError>)
    ensures
        match xml_document(xml@) {
            Some(nodes) => imported matches Ok(score) && is_score_of_document(score, nodes),
            None => imported matches Err(MusicXmlImportError::Parse(_)),
        },
{
    let doc = match parse_document(xml) {
        Ok(doc) => doc,
        Err(message) => {
            return Err(MusicXmlImportError::Parse(message));
        },
    };
    let nodes = read_nodes(&doc);
    let title = match read_title(&nodes) {
        Some(bytes) => Some(text_of(bytes)),
        None => None,
    };
    let parts = read_parts(&nodes);
    Ok(score_from_parts(title, &parts))
}

} // verus!
