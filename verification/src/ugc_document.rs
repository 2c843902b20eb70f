//! A UGC document put together: its header, its tempo and speed records in
//! time order, and its note records in their order with the speed group
//! switches between them.

use vstd::prelude::*;

use crate::position::Position;
use crate::record_order::{indices, key_order, key_views, record_order};
use crate::text::{ascii_chars, digits_of, push_digits};
use crate::ugc::UgcError;

verus! {

/// A header record (a tempo or a speed change) and where it stands.
#[derive(Debug)]
pub struct HeadRecord {
    pub measure: u32,
    pub tick: u64,
    pub text: String,
}

/// A note record and what it is ordered by: where it stands, the order of
/// its parent's kind, whether it is an AIR note and its own kind's order;
/// with the speed group its note follows.
#[derive(Debug)]
pub struct NoteRecord {
    pub measure: u32,
    pub tick: u64,
    pub parent_order: u32,
    pub is_air: bool,
    pub order: u32,
    pub speed_group: Option<u32>,
    pub text: String,
}

/// `n` in decimal.
pub open spec fn decimal_text(n: nat) -> Seq<char> {
    ascii_chars(digits_of(n, 10))
}

/// What header records are ordered by: measure, then tick.
pub open spec fn head_key(record: HeadRecord) -> Seq<u64> {
    seq![record.measure as u64, record.tick]
}

/// What note records are ordered by.
pub open spec fn note_key(record: NoteRecord) -> Seq<u64> {
    seq![
        record.measure as u64,
        record.tick,
        record.parent_order as u64,
        if record.is_air { 1u64 } else { 0u64 },
        record.order as u64,
    ]
}

/// The texts of the header records in time order, records at one time in
/// their given order.
pub open spec fn head_text(records: Seq<HeadRecord>) -> Seq<char> {
    let order = key_order(records.map_values(|r: HeadRecord| head_key(r)), records.len());
    texts_in_order(records, order, order.len())
}

/// The texts of the first `k` records of `order`, one after another.
pub open spec fn texts_in_order(records: Seq<HeadRecord>, order: Seq<int>, k: nat) -> Seq<char>
    decreases k,
{
    if k == 0 {
        Seq::empty()
    } else {
        texts_in_order(records, order, (k - 1) as nat) + records[order[k - 1]].text@
    }
}

/// The line that switches to a speed group, or back to none.
pub open spec fn use_til(group: Option<u32>) -> Seq<char> {
    match group {
        Some(g) => "@USETIL\t"@ + decimal_text(g as nat) + "\n"@,
        None => "@USETIL\t0\n"@,
    }
}

/// The text of the first `k` note records of `order` and the speed group in
/// force after them; a change of group is written before a record.
pub open spec fn notes_upto(records: Seq<NoteRecord>, order: Seq<int>, k: nat) -> (Seq<char>, Option<u32>)
    decreases k,
{
    if k == 0 {
        (Seq::empty(), None)
    } else {
        let (text, speed) = notes_upto(records, order, (k - 1) as nat);
        let record = records[order[k - 1]];
        let switch = if record.speed_group != speed {
            use_til(record.speed_group)
        } else {
            Seq::empty()
        };
        (text + switch + record.text@, record.speed_group)
    }
}

/// The note part of a document: the records sorted by measure, tick,
/// parent order, AIR or not and own order, records with equal keys in their
/// given order.
pub open spec fn note_text(records: Seq<NoteRecord>) -> Seq<char> {
    let order = key_order(records.map_values(|r: NoteRecord| note_key(r)), records.len());
    notes_upto(records, order, order.len()).0
}

/// The `@BEAT` line of a measure length change: measure, numerator, and
/// four times the denominator.
pub open spec fn beat_line(measure: u32, length: Position) -> Seq<char> {
    "@BEAT\t"@ + decimal_text(measure as nat) + "\t"@ + decimal_text(length.num() as nat) + "\t"@
        + decimal_text((length.den() * 4) as nat) + "\n"@
}

/// The `@BEAT` lines of the first `k` length changes.
pub open spec fn beat_lines(lengths: Seq<(u32, Position)>, k: nat) -> Seq<char>
    decreases k,
{
    if k == 0 {
        Seq::empty()
    } else {
        beat_lines(lengths, (k - 1) as nat) + beat_line(lengths[k - 1].0, lengths[k - 1].1)
    }
}

/// Some length change's denominator times four does not fit 64 bits.
pub open spec fn beat_overflows(lengths: Seq<(u32, Position)>) -> bool {
    exists|i: int| 0 <= i < lengths.len() && #[trigger] lengths[i].1.den() * 4 > u64::MAX
}

/// The whole document: version and resolution, the main tempo if there is
/// one, the measure lengths (a four-four bar from measure zero where none
/// is given), the tempo then the speed records, the end of the header, then
/// the notes.
pub open spec fn ugc_document_spec(
    main_bpm: Option<Seq<char>>,
    lengths: Seq<(u32, Position)>,
    tempos: Seq<HeadRecord>,
    speeds: Seq<HeadRecord>,
    notes: Seq<NoteRecord>,
) -> Seq<char> {
    "@VER\t8\n@EXVER\t1\n@TICKS\t480\n"@ + match main_bpm {
        Some(bpm) => "@MAINBPM\t"@ + bpm + "\n"@,
        None => Seq::empty(),
    } + if lengths.len() == 0 {
        "@BEAT\t0\t4\t4\n"@
    } else {
        beat_lines(lengths, lengths.len())
    } + head_text(tempos) + head_text(speeds) + "@ENDHEAD\n"@ + note_text(notes)
}

/// The texts of header records in time order.
pub fn head_records_text(records: &Vec<HeadRecord>) -> (text: String)
    ensures
        text@ == head_text(records@),
{
    let ghost keys_spec = records@.map_values(|r: HeadRecord| head_key(r));
    let mut keys: Vec<Vec<u64>> = Vec::new();
    let mut i: usize = 0;
    while i < records.len()
        invariant
            i <= records@.len(),
            keys_spec == records@.map_values(|r: HeadRecord| head_key(r)),
            keys@.len() == i,
            forall|j: int| 0 <= j < i ==> (#[trigger] keys@[j])@ == keys_spec[j],
        decreases records@.len() - i,
    {
        let mut key: Vec<u64> = Vec::new();
        key.push(records[i].measure as u64);
        key.push(records[i].tick);
        proof {
            assert(key@ =~= head_key(records@[i as int]));
        }
        keys.push(key);
        i += 1;
    }
    proof {
        assert(key_views(keys@) =~= keys_spec);
    }
    let order = record_order(&keys);
    let ghost spec_order = key_order(keys_spec, records@.len());
    let mut text = String::new();
    let mut k: usize = 0;
    while k < order.len()
        invariant
            k <= order@.len(),
            indices(order@) == spec_order,
            spec_order == key_order(keys_spec, records@.len()),
            keys_spec == records@.map_values(|r: HeadRecord| head_key(r)),
            forall|j: int| 0 <= j < order@.len() ==> #[trigger] order@[j] < keys@.len(),
            keys@.len() == records@.len(),
            text@ == texts_in_order(records@, spec_order, k as nat),
        decreases order@.len() - k,
    {
        let index = order[k];
        proof {
            assert(spec_order[k as int] == index as int);
        }
        text.append(records[index].text.as_str());
        k += 1;
    }
    proof {
        assert(order@.len() == spec_order.len());
    }
    text
}

/// The note part of a document: the records in their order, `@USETIL`
/// before each record whose speed group differs from the last one.
pub fn note_records_text(records: &Vec<NoteRecord>) -> (text: String)
    ensures
        text@ == note_text(records@),
{
    let ghost keys_spec = records@.map_values(|r: NoteRecord| note_key(r));
    let mut keys: Vec<Vec<u64>> = Vec::new();
    let mut i: usize = 0;
    while i < records.len()
        invariant
            i <= records@.len(),
            keys_spec == records@.map_values(|r: NoteRecord| note_key(r)),
            keys@.len() == i,
            forall|j: int| 0 <= j < i ==> (#[trigger] keys@[j])@ == keys_spec[j],
        decreases records@.len() - i,
    {
        let record = &records[i];
        let mut key: Vec<u64> = Vec::new();
        key.push(record.measure as u64);
        key.push(record.tick);
        key.push(record.parent_order as u64);
        key.push(if record.is_air { 1 } else { 0 });
        key.push(record.order as u64);
        proof {
            assert(key@ =~= note_key(records@[i as int]));
        }
        keys.push(key);
        i += 1;
    }
    proof {
        assert(key_views(keys@) =~= keys_spec);
    }
    let order = record_order(&keys);
    let ghost spec_order = key_order(keys_spec, records@.len());
    let mut text = String::new();
    let mut speed: Option<u32> = None;
    let mut k: usize = 0;
    while k < order.len()
        invariant
            k <= order@.len(),
            indices(order@) == spec_order,
            spec_order == key_order(keys_spec, records@.len()),
            keys_spec == records@.map_values(|r: NoteRecord| note_key(r)),
            forall|j: int| 0 <= j < order@.len() ==> #[trigger] order@[j] < keys@.len(),
            keys@.len() == records@.len(),
            (text@, speed) == notes_upto(records@, spec_order, k as nat),
        decreases order@.len() - k,
    {
        let index = order[k];
        proof {
            assert(spec_order[k as int] == index as int);
        }
        let record = &records[index];
        if record.speed_group != speed {
            match record.speed_group {
                Some(group) => {
                    text.append("@USETIL\t");
                    push_digits(&mut text, group as u64, 10);
                    text.append("\n");
                },
                None => {
                    text.append("@USETIL\t0\n");
                },
            }
            speed = record.speed_group;
        }
        text.append(record.text.as_str());
        k += 1;
        proof {
            assert(text@ =~= notes_upto(records@, spec_order, k as nat).0);
        }
    }
    proof {
        assert(order@.len() == spec_order.len());
    }
    text
}

/// Puts a UGC document together; fails where a measure length's
/// denominator times four does not fit 64 bits.
pub fn ugc_document(
    main_bpm: Option<String>,
    lengths: &Vec<(u32, Position)>,
    tempos: &Vec<HeadRecord>,
    speeds: &Vec<HeadRecord>,
    notes: &Vec<NoteRecord>,
) -> (result: Result<String, UgcError>)
    ensures
        beat_overflows(lengths@) ==> result == Err::<String, UgcError>(UgcError::UnrepresentablePosition),
        !beat_overflows(lengths@) ==> (result matches Ok(text) && text@ == ugc_document_spec(
            match main_bpm {
                Some(bpm) => Some(bpm@),
                None => None,
            },
            lengths@,
            tempos@,
            speeds@,
            notes@,
        )),
{
    let mut text = String::new();
    text.append("@VER\t8\n@EXVER\t1\n@TICKS\t480\n");
    match &main_bpm {
        Some(bpm) => {
            text.append("@MAINBPM\t");
            text.append(bpm.as_str());
            text.append("\n");
        },
        None => {},
    }
    let ghost start = text@;
    if lengths.len() == 0 {
        text.append("@BEAT\t0\t4\t4\n");
    } else {
        let mut i: usize = 0;
        while i < lengths.len()
            invariant
                i <= lengths@.len(),
                text@ == start + beat_lines(lengths@, i as nat),
                forall|j: int| 0 <= j < i ==> #[trigger] lengths@[j].1.den() * 4 <= u64::MAX,
            decreases lengths@.len() - i,
        {
            let (measure, length) = lengths[i];
            let denominator = match length.denominator().checked_mul(4) {
                Some(d) => d,
                None => {
                    return Err(UgcError::UnrepresentablePosition);
                },
            };
            text.append("@BEAT\t");
            push_digits(&mut text, measure as u64, 10);
            text.append("\t");
            push_digits(&mut text, length.numerator(), 10);
            text.append("\t");
            push_digits(&mut text, denominator, 10);
            text.append("\n");
            i += 1;
            proof {
                assert(text@ =~= start + beat_lines(lengths@, i as nat));
            }
        }
        proof {
            assert(!beat_overflows(lengths@));
        }
    }
    let tempo_text = head_records_text(tempos);
    text.append(tempo_text.as_str());
    let speed_text = head_records_text(speeds);
    text.append(speed_text.as_str());
    text.append("@ENDHEAD\n");
    let note_text = note_records_text(notes);
    text.append(note_text.as_str());
    proof {
        let bpm_view = match main_bpm {
            Some(bpm) => Some(bpm@),
            None => None,
        };
        assert(text@ =~= ugc_document_spec(bpm_view, lengths@, tempos@, speeds@, notes@));
    }
    Ok(text)
}

} // verus!
