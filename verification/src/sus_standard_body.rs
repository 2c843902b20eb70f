//! The note part of a standard SUS document: the lines of each note in
//! their order, with the speed group and attribute switches between them.

use vstd::prelude::*;

use crate::sus_xlair_body::{push_switches, switches, text_views};

verus! {

/// A note as the standard writer lays it out: its speed group, its
/// attribute set as an index into a list of attribute texts (`None` for no
/// attributes), and its lines, or `None` where it cannot be written.
#[derive(Debug)]
pub struct StandardEntry {
    pub speed_group: Option<u32>,
    pub attributes: Option<usize>,
    pub lines: Option<Vec<String>>,
}

/// The lines, each followed by a line break.
pub open spec fn joined_lines(lines: Seq<Seq<char>>) -> Seq<char>
    decreases lines.len(),
{
    if lines.len() == 0 {
        Seq::empty()
    } else {
        joined_lines(lines.drop_last()) + lines.last() + "\n"@
    }
}

/// The text of a note's lines; nothing for a note that cannot be written.
#[verifier::opaque]
pub open spec fn entry_lines(entry: StandardEntry) -> Seq<char> {
    match entry.lines {
        Some(lines) => joined_lines(text_views(lines@)),
        None => Seq::empty(),
    }
}

/// What has been written after some notes: the text, the speed group and
/// attribute set in force, the next attribute id, and whether every
/// attribute id needed had two base-36 digits.
pub struct StandardState {
    pub text: Seq<char>,
    pub speed: Option<u32>,
    pub attributes: Option<usize>,
    pub next_id: nat,
    pub ids_fit: bool,
}

/// The state after a note is written: a change of speed group or attribute
/// set is written first, whether or not the note itself can be; a new
/// attribute set under the next id.
pub open spec fn standard_step(texts: Seq<Seq<char>>, state: StandardState, entry: StandardEntry) -> StandardState {
    let (added, next_id, fits) = switches(
        texts,
        state.speed,
        state.attributes,
        state.next_id,
        entry.speed_group,
        entry.attributes,
    );
    StandardState {
        text: state.text + added + entry_lines(entry),
        speed: entry.speed_group,
        attributes: entry.attributes,
        next_id,
        ids_fit: state.ids_fit && fits,
    }
}

/// The state after the first `k` notes are written.
pub open spec fn standard_upto(texts: Seq<Seq<char>>, entries: Seq<StandardEntry>, k: nat) -> StandardState
    decreases k,
{
    if k == 0 {
        StandardState { text: Seq::empty(), speed: None, attributes: None, next_id: 0, ids_fit: true }
    } else {
        standard_step(texts, standard_upto(texts, entries, (k - 1) as nat), entries[k - 1])
    }
}

/// Appends each line followed by a line break.
fn push_lines(out: &mut String, lines: &Vec<String>)
    ensures
        final(out)@ == old(out)@ + joined_lines(text_views(lines@)),
{
    let mut i: usize = 0;
    while i < lines.len()
        invariant
            i <= lines@.len(),
            out@ == old(out)@ + joined_lines(text_views(lines@.take(i as int))),
        decreases lines@.len() - i,
    {
        out.append(lines[i].as_str());
        out.append("\n");
        i += 1;
        proof {
            assert(lines@.take(i as int).drop_last() =~= lines@.take(i - 1));
            assert(text_views(lines@.take(i as int)).drop_last() =~= text_views(lines@.take(i - 1)));
        }
    }
    proof {
        assert(lines@.take(i as int) =~= lines@);
    }
}

/// Lays out the notes of a standard SUS document in the order given. Before
/// a note whose speed group differs from the last one comes `#HISPEED` or
/// `#NOSPEED`; before one whose attribute set differs comes `#NOATTRIBUTE`,
/// or a new `#ATR` definition under the next two-digit id and `#ATTRIBUTE`;
/// then the note's lines. `None` where more attribute sets are switched to
/// than two base-36 digits can number.
#[verifier::spinoff_prover]
pub fn standard_body(entries: &Vec<StandardEntry>, attribute_texts: &Vec<String>) -> (result: Option<String>)
    requires
        forall|i: int| 0 <= i < entries@.len() ==> match (#[trigger] entries@[i]).attributes {
            Some(a) => a < attribute_texts@.len(),
            None => true,
        },
        forall|i: int| 0 <= i < entries@.len() ==> match (#[trigger] entries@[i]).speed_group {
            Some(g) => g < 36 * 36,
            None => true,
        },
    ensures
        ({
            let state = standard_upto(text_views(attribute_texts@), entries@, entries@.len());
            match result {
                Some(text) => state.ids_fit && text@ == state.text,
                None => !state.ids_fit,
            }
        }),
{
    let ghost texts = text_views(attribute_texts@);
    let mut text = String::new();
    let mut speed: Option<u32> = None;
    let mut attributes: Option<usize> = None;
    let mut next_id: u32 = 0;
    let mut k: usize = 0;
    while k < entries.len()
        invariant
            k <= entries@.len(),
            texts == text_views(attribute_texts@),
            forall|i: int| 0 <= i < entries@.len() ==> match (#[trigger] entries@[i]).attributes {
                Some(a) => a < attribute_texts@.len(),
                None => true,
            },
            forall|i: int| 0 <= i < entries@.len() ==> match (#[trigger] entries@[i]).speed_group {
                Some(g) => g < 36 * 36,
                None => true,
            },
            ({
                let state = standard_upto(texts, entries@, k as nat);
                &&& state.ids_fit
                &&& text@ == state.text
                &&& speed == state.speed
                &&& attributes == state.attributes
                &&& next_id == state.next_id
                &&& next_id <= 36 * 36
            }),
        decreases entries@.len() - k,
    {
        let entry = &entries[k];
        match push_switches(&mut text, attribute_texts, speed, attributes, next_id, entry.speed_group, entry.attributes) {
            Some(id) => {
                next_id = id;
            },
            None => {
                proof {
                    lemma_standard_ids_stay_spent(texts, entries@, (k + 1) as nat);
                }
                return None;
            },
        }
        speed = entry.speed_group;
        attributes = entry.attributes;
        let ghost after_attributes = text@;
        match &entry.lines {
            Some(lines) => {
                push_lines(&mut text, lines);
                proof {
                    reveal(entry_lines);
                }
            },
            None => {
                proof {
                    reveal(entry_lines);
                }
            },
        }
        proof {
            assert(text@ =~= after_attributes + entry_lines(entries@[k as int]));
        }
        k += 1;
        proof {
            assert(text@ =~= standard_upto(texts, entries@, k as nat).text);
        }
    }
    Some(text)
}

/// Once an attribute id does not fit, the ids stay spent for the rest of
/// the notes.
proof fn lemma_standard_ids_stay_spent(texts: Seq<Seq<char>>, entries: Seq<StandardEntry>, k: nat)
    requires
        k <= entries.len(),
        !standard_upto(texts, entries, k).ids_fit,
    ensures
        !standard_upto(texts, entries, entries.len()).ids_fit,
    decreases entries.len() - k,
{
    if k < entries.len() {
        lemma_standard_ids_stay_spent(texts, entries, k + 1);
    }
}

} // verus!
