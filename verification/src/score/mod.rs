//! The score as the core sees it: tempo points, tracks, targets and the
//! playback event list, together with the rules that derive them.

pub mod midi_export;
pub mod midi_file;
pub mod midi_header;
pub mod midi_import;
pub mod midi_write;
pub mod model;
pub mod musicxml_import;
pub mod musicxml_read;
pub mod musicxml_walk;
pub mod mxl;
pub mod xml_doc;
pub mod xml_tree;
