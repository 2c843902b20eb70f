//! The data part of an XLAIR SUS document: its records in their order, with
//! the speed group and attribute switches between them.

use vstd::prelude::*;

use crate::record_order::{indices, key_order, key_views, record_order};
use crate::sus::{format_record, group_text, record_line, speed_group_text};
use crate::timeline::MeasureTimeline;

verus! {

/// A record of an XLAIR SUS document as the writer collects it: where it
/// stands, its channel key and token, the speed group of its note and the
/// attribute set of its note, given as an index into a list of attribute
/// texts (`None` for a note without attributes).
#[derive(Debug)]
pub struct BodyRecord {
    pub measure: u32,
    pub tick: u64,
    pub key: String,
    pub token: String,
    pub speed_group: Option<u32>,
    pub attributes: Option<usize>,
}

/// The data part of a document and the records that could not be written
/// in it, by their index in the list given.
#[derive(Debug)]
pub struct XlairBody {
    pub text: String,
    pub lost: Vec<usize>,
}

/// Where records of the same position and key ending go: starts, then relay
/// points, then the rest, by the first character of the token.
pub open spec fn token_rank(token: Seq<char>) -> u64 {
    if token.len() == 0 {
        0
    } else if token[0] == '1' {
        0
    } else if '3' <= token[0] <= '5' {
        1
    } else if token[0] == '2' {
        2
    } else {
        0
    }
}

/// The last character of a key as a number, 0 for an empty key.
pub open spec fn last_code(key: Seq<char>) -> u64 {
    if key.len() == 0 {
        0
    } else {
        key.last() as u64
    }
}

/// The numbers that records are ordered by: measure, tick, the last
/// character of the key, the token's rank, then the key's characters.
pub open spec fn body_sort_key(record: BodyRecord) -> Seq<u64> {
    seq![record.measure as u64, record.tick, last_code(record.key@), token_rank(record.token@)]
        + record.key@.map_values(|c: char| c as u64)
}

/// The sort keys of all records.
pub open spec fn body_sort_keys(records: Seq<BodyRecord>) -> Seq<Seq<u64>> {
    records.map_values(|record: BodyRecord| body_sort_key(record))
}

/// What has been written after some records: the text, the records lost,
/// the speed group and attribute set in force, the next attribute id, and
/// whether every attribute id needed had two base-36 digits.
pub struct BodyState {
    pub text: Seq<char>,
    pub lost: Seq<int>,
    pub speed: Option<u32>,
    pub attributes: Option<usize>,
    pub next_id: nat,
    pub ids_fit: bool,
}

/// The line a record is written as, if its tick lies in its measure.
#[verifier::opaque]
pub open spec fn record_text(timeline: MeasureTimeline, ticks_per_beat: nat, record: BodyRecord) -> Option<Seq<char>> {
    match timeline.ticks_spec(record.measure as nat, ticks_per_beat) {
        Ok(slots) => if record.tick + 1 <= slots {
            Some(record_line(record.measure as nat, record.key@, record.tick as nat, record.token@, slots) + "\n"@)
        } else {
            None
        },
        Err(_) => None,
    }
}

/// The line that switches to a speed group, or back to none.
pub open spec fn speed_switch(group: Option<u32>) -> Seq<char> {
    match group {
        Some(g) => "#HISPEED "@ + group_text(g as nat) + "\n"@,
        None => "#NOSPEED\n"@,
    }
}

/// The lines that define attribute set `id` with the text given and switch
/// to it.
pub open spec fn attribute_switch(id: nat, text: Seq<char>) -> Seq<char> {
    "#ATR"@ + group_text(id) + ": \""@ + text + "\"\n#ATTRIBUTE "@ + group_text(id) + "\n"@
}

/// What is written before an item whose speed group and attribute set are
/// `new_speed` and `new_attributes`, where `speed` and `attributes` are in
/// force and `next_id` is the next attribute id: `#HISPEED` or `#NOSPEED`
/// where the speed group changes, then `#NOATTRIBUTE` or a new attribute
/// set where that changes. Also the next id after it, and whether the id
/// it needs, if any, has two base-36 digits.
pub open spec fn switches(
    texts: Seq<Seq<char>>,
    speed: Option<u32>,
    attributes: Option<usize>,
    next_id: nat,
    new_speed: Option<u32>,
    new_attributes: Option<usize>,
) -> (Seq<char>, nat, bool) {
    let speed_text = if new_speed != speed {
        speed_switch(new_speed)
    } else {
        Seq::empty()
    };
    if new_attributes != attributes {
        match new_attributes {
            None => (speed_text + "#NOATTRIBUTE\n"@, next_id, true),
            Some(a) => (speed_text + attribute_switch(next_id, texts[a as int]), next_id + 1, next_id < 36 * 36),
        }
    } else {
        (speed_text, next_id, true)
    }
}

/// Appends what is written before an item whose speed group and attribute
/// set are `new_speed` and `new_attributes`, and gives the next attribute
/// id; `None`, with nothing promised of `text`, where the id needed does
/// not have two base-36 digits.
pub fn push_switches(
    text: &mut String,
    attribute_texts: &Vec<String>,
    speed: Option<u32>,
    attributes: Option<usize>,
    next_id: u32,
    new_speed: Option<u32>,
    new_attributes: Option<usize>,
) -> (result: Option<u32>)
    requires
        next_id <= 36 * 36,
        new_speed matches Some(g) ==> g < 36 * 36,
        new_attributes matches Some(a) ==> a < attribute_texts@.len(),
    ensures
        ({
            let (added, id, fits) = switches(
                text_views(attribute_texts@),
                speed,
                attributes,
                next_id as nat,
                new_speed,
                new_attributes,
            );
            &&& fits ==> result == Some(id as u32) && final(text)@ == old(text)@ + added && id <= 36 * 36
            &&& !fits ==> result is None
        }),
{
    let ghost start = text@;
    if new_speed != speed {
        match new_speed {
            Some(group) => {
                text.append("#HISPEED ");
                let group_digits = speed_group_text(group);
                text.append(group_digits.as_str());
                text.append("\n");
            },
            None => {
                text.append("#NOSPEED\n");
            },
        }
    }
    let ghost after_speed = text@;
    proof {
        let speed_text = if new_speed != speed {
            speed_switch(new_speed)
        } else {
            Seq::empty()
        };
        assert(after_speed =~= start + speed_text);
    }
    if new_attributes != attributes {
        match new_attributes {
            None => {
                text.append("#NOATTRIBUTE\n");
                proof {
                    assert(text@ =~= after_speed + "#NOATTRIBUTE\n"@);
                }
                Some(next_id)
            },
            Some(a) => {
                if next_id >= 36 * 36 {
                    return None;
                }
                let id = speed_group_text(next_id);
                text.append("#ATR");
                text.append(id.as_str());
                text.append(": \"");
                text.append(attribute_texts[a].as_str());
                text.append("\"\n#ATTRIBUTE ");
                text.append(id.as_str());
                text.append("\n");
                proof {
                    assert(text@ =~= after_speed + attribute_switch(next_id as nat, attribute_texts@[a as int]@));
                }
                Some(next_id + 1)
            },
        }
    } else {
        Some(next_id)
    }
}

/// The state after the record at `index` is written: a record whose tick
/// lies outside its measure is lost; otherwise a change of speed group or
/// attribute set is written before its line, a new attribute set under the
/// next id.
pub open spec fn body_step(
    timeline: MeasureTimeline,
    ticks_per_beat: nat,
    texts: Seq<Seq<char>>,
    state: BodyState,
    index: int,
    record: BodyRecord,
) -> BodyState {
    match record_text(timeline, ticks_per_beat, record) {
        None => BodyState { lost: state.lost.push(index), ..state },
        Some(line) => {
            let (added, next_id, fits) = switches(
                texts,
                state.speed,
                state.attributes,
                state.next_id,
                record.speed_group,
                record.attributes,
            );
            BodyState {
                text: state.text + added + line,
                lost: state.lost,
                speed: record.speed_group,
                attributes: record.attributes,
                next_id,
                ids_fit: state.ids_fit && fits,
            }
        },
    }
}

/// The state after the first `k` records of `order` are written.
pub open spec fn body_upto(
    timeline: MeasureTimeline,
    ticks_per_beat: nat,
    records: Seq<BodyRecord>,
    texts: Seq<Seq<char>>,
    order: Seq<int>,
    k: nat,
) -> BodyState
    decreases k,
{
    if k == 0 {
        BodyState {
            text: Seq::empty(),
            lost: Seq::empty(),
            speed: None,
            attributes: None,
            next_id: 0,
            ids_fit: true,
        }
    } else {
        let i = order[k - 1];
        body_step(
            timeline,
            ticks_per_beat,
            texts,
            body_upto(timeline, ticks_per_beat, records, texts, order, (k - 1) as nat),
            i,
            records[i],
        )
    }
}

/// The order in which the records are written.
pub open spec fn body_order(records: Seq<BodyRecord>) -> Seq<int> {
    key_order(body_sort_keys(records), records.len())
}

/// The state after all records are written in their order.
pub open spec fn body_spec(
    timeline: MeasureTimeline,
    ticks_per_beat: nat,
    records: Seq<BodyRecord>,
    texts: Seq<Seq<char>>,
) -> BodyState {
    let order = body_order(records);
    body_upto(timeline, ticks_per_beat, records, texts, order, order.len())
}

/// The views of a list of strings.
pub open spec fn text_views(texts: Seq<String>) -> Seq<Seq<char>> {
    texts.map_values(|t: String| t@)
}

/// The sort key of one record.
fn sort_key(record: &BodyRecord) -> (key: Vec<u64>)
    ensures
        key@ == body_sort_key(*record),
{
    let key_text = record.key.as_str();
    let token_text = record.token.as_str();
    let key_len = key_text.unicode_len();
    let last: u64 = if key_len == 0 {
        0
    } else {
        key_text.get_char(key_len - 1) as u64
    };
    let rank: u64 = if token_text.unicode_len() == 0 {
        0
    } else {
        let first = token_text.get_char(0);
        if first == '1' {
            0
        } else if '3' <= first && first <= '5' {
            1
        } else if first == '2' {
            2
        } else {
            0
        }
    };
    let mut key: Vec<u64> = Vec::new();
    key.push(record.measure as u64);
    key.push(record.tick);
    key.push(last);
    key.push(rank);
    let mut i: usize = 0;
    while i < key_len
        invariant
            key_len == record.key@.len(),
            key_text@ == record.key@,
            i <= key_len,
            key@ == seq![record.measure as u64, record.tick, last_code(record.key@), token_rank(record.token@)]
                + record.key@.take(i as int).map_values(|c: char| c as u64),
        decreases key_len - i,
    {
        let c = key_text.get_char(i);
        key.push(c as u64);
        i += 1;
        proof {
            assert(record.key@.take(i as int) =~= record.key@.take(i - 1).push(c));
            assert(record.key@.take(i as int).map_values(|c: char| c as u64) =~= record.key@.take(i - 1).map_values(
                |c: char| c as u64,
            ).push(c as u64));
        }
    }
    proof {
        assert(record.key@.take(key_len as int) =~= record.key@);
    }
    key
}

/// The sort keys of the records, in their order.
pub fn body_keys(records: &Vec<BodyRecord>) -> (keys: Vec<Vec<u64>>)
    ensures
        key_views(keys@) == body_sort_keys(records@),
{
    let mut keys: Vec<Vec<u64>> = Vec::new();
    let mut i: usize = 0;
    while i < records.len()
        invariant
            i <= records@.len(),
            key_views(keys@) == body_sort_keys(records@.take(i as int)),
        decreases records@.len() - i,
    {
        let key = sort_key(&records[i]);
        let ghost old_keys = keys@;
        keys.push(key);
        i += 1;
        proof {
            assert(records@.take(i as int) =~= records@.take(i - 1).push(records@[i - 1]));
            assert(keys@ =~= old_keys.push(key));
            assert(key_views(keys@) =~= key_views(old_keys).push(key@));
            assert(body_sort_keys(records@.take(i as int)) =~= body_sort_keys(records@.take(i - 1)).push(
                body_sort_key(records@[i - 1]),
            ));
        }
    }
    proof {
        assert(records@.take(records@.len() as int) =~= records@);
    }
    keys
}

/// Lays out the records of an XLAIR SUS document: sorted by measure, tick,
/// the last character of the key, the kind of token and the key, records
/// with equal keys in their given order. Each record whose tick lies outside
/// its measure is left out and listed as lost. Before a record whose speed
/// group differs from the last one written comes `#HISPEED` or `#NOSPEED`;
/// before one whose attribute set differs comes `#NOATTRIBUTE`, or a new
/// `#ATR` definition under the next two-digit id and `#ATTRIBUTE`.
/// `None` where more attribute sets are switched to than two base-36 digits
/// can number.
#[verifier::spinoff_prover]
pub fn xlair_body(
    timeline: &MeasureTimeline,
    ticks_per_beat: u64,
    records: &Vec<BodyRecord>,
    attribute_texts: &Vec<String>,
) -> (result: Option<XlairBody>)
    requires
        forall|i: int| 0 <= i < records@.len() ==> match (#[trigger] records@[i]).attributes {
            Some(a) => a < attribute_texts@.len(),
            None => true,
        },
        forall|i: int| 0 <= i < records@.len() ==> match (#[trigger] records@[i]).speed_group {
            Some(g) => g < 36 * 36,
            None => true,
        },
    ensures
        ({
            let state = body_spec(*timeline, ticks_per_beat as nat, records@, text_views(attribute_texts@));
            match result {
                Some(body) => state.ids_fit && body.text@ == state.text && indices(body.lost@) == state.lost,
                None => !state.ids_fit,
            }
        }),
{
    let keys = body_keys(records);
    let order = record_order(&keys);
    let ghost texts = text_views(attribute_texts@);
    let ghost spec_order = body_order(records@);
    proof {
        assert(key_views(keys@).len() == keys@.len());
        assert(body_sort_keys(records@).len() == records@.len());
        assert(indices(order@) == spec_order);
        assert(order@.len() == spec_order.len());
    }
    let mut text = String::new();
    let mut lost: Vec<usize> = Vec::new();
    let mut speed: Option<u32> = None;
    let mut attributes: Option<usize> = None;
    let mut next_id: u32 = 0;
    let mut k: usize = 0;
    while k < order.len()
        invariant
            k <= order@.len(),
            order@.len() == spec_order.len(),
            indices(order@) == spec_order,
            spec_order == body_order(records@),
            texts == text_views(attribute_texts@),
            forall|j: int| 0 <= j < order@.len() ==> #[trigger] order@[j] < records@.len(),
            forall|i: int| 0 <= i < records@.len() ==> match (#[trigger] records@[i]).attributes {
                Some(a) => a < attribute_texts@.len(),
                None => true,
            },
            forall|i: int| 0 <= i < records@.len() ==> match (#[trigger] records@[i]).speed_group {
                Some(g) => g < 36 * 36,
                None => true,
            },
            ({
                let state = body_upto(*timeline, ticks_per_beat as nat, records@, texts, spec_order, k as nat);
                &&& state.ids_fit
                &&& text@ == state.text
                &&& indices(lost@) == state.lost
                &&& speed == state.speed
                &&& attributes == state.attributes
                &&& next_id == state.next_id
                &&& next_id <= 36 * 36
            }),
        decreases order@.len() - k,
    {
        let index = order[k];
        let ghost before = body_upto(*timeline, ticks_per_beat as nat, records@, texts, spec_order, k as nat);
        proof {
            assert(spec_order[k as int] == index as int);
        }
        let record = &records[index];
        let formatted = format_record(
            timeline,
            ticks_per_beat,
            record.measure,
            record.tick,
            record.key.as_str(),
            record.token.as_str(),
        );
        proof {
            reveal(record_text);
        }
        match formatted {
            Err(_) => {
                lost.push(index);
                proof {
                    assert(indices(lost@) =~= before.lost.push(index as int));
                }
            },
            Ok(line) => {
                match push_switches(
                    &mut text,
                    attribute_texts,
                    speed,
                    attributes,
                    next_id,
                    record.speed_group,
                    record.attributes,
                ) {
                    Some(id) => {
                        next_id = id;
                    },
                    None => {
                        proof {
                            lemma_ids_stay_spent(
                                timeline,
                                ticks_per_beat as nat,
                                records@,
                                texts,
                                spec_order,
                                (k + 1) as nat,
                            );
                        }
                        return None;
                    },
                }
                speed = record.speed_group;
                attributes = record.attributes;
                text.append(line.as_str());
            },
        }
        k += 1;
        proof {
            assert(text@ =~= body_upto(*timeline, ticks_per_beat as nat, records@, texts, spec_order, k as nat).text);
        }
    }
    Some(XlairBody { text, lost })
}

/// Once an attribute id does not fit, the ids stay spent for the rest of
/// the document.
proof fn lemma_ids_stay_spent(
    timeline: &MeasureTimeline,
    ticks_per_beat: nat,
    records: Seq<BodyRecord>,
    texts: Seq<Seq<char>>,
    order: Seq<int>,
    k: nat,
)
    requires
        k <= order.len(),
        !body_upto(*timeline, ticks_per_beat, records, texts, order, k).ids_fit,
    ensures
        !body_upto(*timeline, ticks_per_beat, records, texts, order, order.len()).ids_fit,
    decreases order.len() - k,
{
    if k < order.len() {
        lemma_ids_stay_spent(timeline, ticks_per_beat, records, texts, order, k + 1);
    }
}

} // verus!
