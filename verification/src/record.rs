//! Reading one record: the steps of a layout, taken in order.

use crate::error::DecodeError;
use crate::item::{Item, ItemView, TextField};
use crate::plan::{layout, spec_layout, Entry, Step, BASE_LEN, LAYOUT_LEN};
use crate::reader::{
    lemma_span_cut, lemma_string_cut, read_string, read_u16, read_u32, read_uint, skip, span_at,
    string_at, uint_at, Reader,
};
use vstd::prelude::*;

verus! {

/// The item as far as it has been read, and where the next field begins.
pub struct Progress {
    pub item: ItemView,
    pub at: int,
}

/// Where one step leads from `p`.
pub open spec fn step_at(step: Step, bytes: Seq<u8>, p: Progress) -> Result<Progress, DecodeError> {
    match step {
        Step::Byte(field) => match uint_at(bytes, p.at, 1) {
            Ok((raw, end)) => Ok(
                Progress { item: p.item.with_byte(field, field.spec_decode(raw as u64)), at: end },
            ),
            Err(e) => Err(e),
        },
        Step::Short(field) => match uint_at(bytes, p.at, 2) {
            Ok((raw, end)) => Ok(Progress { item: p.item.with_short(field, raw as u16), at: end }),
            Err(e) => Err(e),
        },
        Step::Long(field) => match uint_at(bytes, p.at, 4) {
            Ok((raw, end)) => Ok(Progress { item: p.item.with_long(field, raw as u32), at: end }),
            Err(e) => Err(e),
        },
        Step::Text(field) => match string_at(bytes, p.at, None) {
            Ok((text, end)) => Ok(Progress { item: p.item.with_text(field, text), at: end }),
            Err(e) => Err(e),
        },
        Step::Hidden(field) => match string_at(bytes, p.at, Some(p.item.item_id)) {
            Ok((text, end)) => Ok(Progress { item: p.item.with_text(field, text), at: end }),
            Err(e) => Err(e),
        },
        Step::Skip(count) => match span_at(bytes, p.at, count as int) {
            Ok((_, end)) => Ok(Progress { item: p.item, at: end }),
            Err(e) => Err(e),
        },
    }
}

/// Where the first `n` entries of `plan` lead from a blank item at `start`.
/// An entry that the version does not have yet changes nothing.
pub open spec fn fields_at(
    bytes: Seq<u8>,
    start: int,
    plan: Seq<Entry>,
    version: u16,
    n: nat,
) -> Result<Progress, DecodeError>
    decreases n,
{
    if n == 0 {
        Ok(Progress { item: ItemView::blank(), at: start })
    } else {
        match fields_at(bytes, start, plan, version, (n - 1) as nat) {
            Err(e) => Err(e),
            Ok(p) => if plan[n - 1].since <= version {
                step_at(plan[n - 1].step, bytes, p)
            } else {
                Ok(p)
            },
        }
    }
}

/// The fields of the record at `start`, before its identifier is checked.
pub open spec fn record_fields(bytes: Seq<u8>, start: int, version: u16) -> Result<
    Progress,
    DecodeError,
> {
    fields_at(bytes, start, spec_layout(), version, spec_layout().len())
}

/// The record at `start` and where it ends, for the record that stands at
/// position `index` of the file. The identifier is compared with the
/// position once every field has been read.
pub open spec fn item_at(bytes: Seq<u8>, start: int, version: u16, index: u32) -> Result<
    (ItemView, int),
    DecodeError,
> {
    match record_fields(bytes, start, version) {
        Err(e) => Err(e),
        Ok(p) => if p.item.item_id == index {
            Ok((p.item, p.at))
        } else {
            Err(DecodeError::OrderingViolation)
        },
    }
}

/// Once a step has failed, the steps after it change nothing.
pub proof fn lemma_failure_stays(
    bytes: Seq<u8>,
    start: int,
    plan: Seq<Entry>,
    version: u16,
    k: nat,
    n: nat,
)
    requires
        k <= n,
        fields_at(bytes, start, plan, version, k) is Err,
    ensures
        fields_at(bytes, start, plan, version, n) == fields_at(bytes, start, plan, version, k),
    decreases n - k,
{
    if k < n {
        lemma_failure_stays(bytes, start, plan, version, k, (n - 1) as nat);
    }
}

/// Two versions that have the same ones of the first `n` entries read them
/// alike.
pub proof fn lemma_same_entries(
    bytes: Seq<u8>,
    start: int,
    plan: Seq<Entry>,
    v1: u16,
    v2: u16,
    n: nat,
)
    requires
        n <= plan.len(),
        forall|k: int| 0 <= k < n ==> ((#[trigger] plan[k]).since <= v1 <==> plan[k].since <= v2),
    ensures
        fields_at(bytes, start, plan, v1, n) == fields_at(bytes, start, plan, v2, n),
    decreases n,
{
    if n > 0 {
        lemma_same_entries(bytes, start, plan, v1, v2, (n - 1) as nat);
    }
}

/// The first `n` entries are the first `n - 1` and then the last of them,
/// if the version has it.
proof fn lemma_last_entry(bytes: Seq<u8>, start: int, plan: Seq<Entry>, version: u16, n: nat)
    requires
        0 < n <= plan.len(),
    ensures
        fields_at(bytes, start, plan, version, n) == match fields_at(
            bytes,
            start,
            plan,
            version,
            (n - 1) as nat,
        ) {
            Err(e) => Err(e),
            Ok(p) => if plan[n - 1].since <= version {
                step_at(plan[n - 1].step, bytes, p)
            } else {
                Ok(p)
            },
        },
{
}

/// Whether a step stores into `punch_options`.
pub open spec fn fills_punch_options(step: Step) -> bool {
    step == Step::Text(TextField::PunchOptions) || step == Step::Hidden(TextField::PunchOptions)
}

/// The layout has 45 entries: 41 that every version has, none of which
/// stores into `punch_options`, then one each for the versions 11, 12, 13
/// and 14.
pub proof fn lemma_layout_gates()
    ensures
        spec_layout().len() == LAYOUT_LEN,
        forall|k: int|
            0 <= k < BASE_LEN ==> (#[trigger] spec_layout()[k]).since == 0 && !fills_punch_options(
                spec_layout()[k].step,
            ),
        spec_layout()[41] == (Entry { step: Step::Text(TextField::PunchOptions), since: 11 }),
        spec_layout()[42] == (Entry { step: Step::Skip(13), since: 12 }),
        spec_layout()[43] == (Entry { step: Step::Skip(4), since: 13 }),
        spec_layout()[44] == (Entry { step: Step::Skip(4), since: 14 }),
{
}

/// A step that does not store into `punch_options` leaves it as it was.
proof fn lemma_step_keeps_punch_options(step: Step, bytes: Seq<u8>, p: Progress)
    requires
        !fills_punch_options(step),
    ensures
        step_at(step, bytes, p) matches Ok(q) ==> q.item.punch_options == p.item.punch_options,
{
}

/// As long as no entry stores into `punch_options`, it stays empty.
proof fn lemma_punch_options_untouched(
    bytes: Seq<u8>,
    start: int,
    plan: Seq<Entry>,
    version: u16,
    n: nat,
)
    requires
        n <= plan.len(),
        forall|k: int| 0 <= k < n ==> !fills_punch_options((#[trigger] plan[k]).step),
    ensures
        fields_at(bytes, start, plan, version, n) matches Ok(p) ==> p.item.punch_options.len()
            == 0,
    decreases n,
{
    if n > 0 {
        lemma_punch_options_untouched(bytes, start, plan, version, (n - 1) as nat);
        if let Ok(before) = fields_at(bytes, start, plan, version, (n - 1) as nat) {
            lemma_step_keeps_punch_options(plan[n - 1].step, bytes, before);
        }
    }
}

/// Below version 11 a record is the 41 entries that every version has: no
/// later entry is read, and `punch_options` stays empty.
pub proof fn lemma_before_extensions(bytes: Seq<u8>, start: int, version: u16)
    requires
        version < 11,
    ensures
        record_fields(bytes, start, version) == fields_at(
            bytes,
            start,
            spec_layout(),
            version,
            BASE_LEN as nat,
        ),
        record_fields(bytes, start, version) matches Ok(p) ==> p.item.punch_options.len() == 0,
{
    let plan = spec_layout();
    lemma_layout_gates();
    lemma_last_entry(bytes, start, plan, version, 42);
    lemma_last_entry(bytes, start, plan, version, 43);
    lemma_last_entry(bytes, start, plan, version, 44);
    lemma_last_entry(bytes, start, plan, version, 45);
    lemma_punch_options_untouched(bytes, start, plan, version, BASE_LEN as nat);
}

/// Number of reserved bytes that close a record from version 11 on: 13 from
/// version 12 on, 4 more from version 13 on, 4 more from version 14 on.
pub open spec fn reserved_tail(version: u16) -> int {
    (if version >= 12 {
        13int
    } else {
        0
    }) + (if version >= 13 {
        4int
    } else {
        0
    }) + (if version >= 14 {
        4int
    } else {
        0
    })
}

/// From version 11 on a record is what it is at version 10, then the text
/// `punch_options`, then the reserved bytes of the version. So from version
/// 14 on it is longer than at version 10 by that text field and 21 bytes.
pub proof fn lemma_extensions(bytes: Seq<u8>, start: int, version: u16)
    requires
        version >= 11,
    ensures
        version >= 14 ==> reserved_tail(version) == 13 + 4 + 4,
        record_fields(bytes, start, version) == match record_fields(bytes, start, 10) {
            Err(e) => Err(e),
            Ok(p) => match string_at(bytes, p.at, None) {
                Err(e) => Err(e),
                Ok((text, end)) => if end + reserved_tail(version) <= bytes.len() {
                    Ok(
                        Progress {
                            item: p.item.with_text(TextField::PunchOptions, text),
                            at: end + reserved_tail(version),
                        },
                    )
                } else {
                    Err(DecodeError::TruncatedInput)
                },
            },
        },
{
    let plan = spec_layout();
    lemma_layout_gates();
    lemma_same_entries(bytes, start, plan, version, 10, BASE_LEN as nat);
    lemma_last_entry(bytes, start, plan, 10, 42);
    lemma_last_entry(bytes, start, plan, 10, 43);
    lemma_last_entry(bytes, start, plan, 10, 44);
    lemma_last_entry(bytes, start, plan, 10, 45);
    lemma_last_entry(bytes, start, plan, version, 42);
    lemma_last_entry(bytes, start, plan, version, 43);
    lemma_last_entry(bytes, start, plan, version, 44);
    lemma_last_entry(bytes, start, plan, version, 45);
}

/// A step that succeeds does the same when the input is cut at or after the
/// place it leads to, and fails as truncated when the input is cut before.
pub proof fn lemma_step_cut(step: Step, bytes: Seq<u8>, p: Progress, m: int)
    requires
        0 <= p.at,
        0 <= m <= bytes.len(),
        step_at(step, bytes, p) is Ok,
    ensures
        step_at(step, bytes, p) matches Ok(q) && p.at <= q.at && (q.at <= m ==> step_at(
            step,
            bytes.take(m),
            p,
        ) == step_at(step, bytes, p)) && (q.at > m ==> step_at(step, bytes.take(m), p) == Err::<
            Progress,
            DecodeError,
        >(DecodeError::TruncatedInput)),
{
    match step {
        Step::Byte(_) => lemma_span_cut(bytes, p.at, 1, m),
        Step::Short(_) => lemma_span_cut(bytes, p.at, 2, m),
        Step::Long(_) => lemma_span_cut(bytes, p.at, 4, m),
        Step::Text(_) => lemma_string_cut(bytes, p.at, None, m),
        Step::Hidden(_) => lemma_string_cut(bytes, p.at, Some(p.item.item_id), m),
        Step::Skip(count) => lemma_span_cut(bytes, p.at, count as int, m),
    }
}

/// Fields that read well end at or after their start. They read the same
/// when the input is cut at or after their end, and fail as truncated when
/// the input is cut between their start and their end.
pub proof fn lemma_fields_cut(
    bytes: Seq<u8>,
    start: int,
    plan: Seq<Entry>,
    version: u16,
    n: nat,
    m: int,
)
    requires
        0 <= start,
        0 <= m <= bytes.len(),
        fields_at(bytes, start, plan, version, n) is Ok,
    ensures
        match fields_at(bytes, start, plan, version, n) {
            Ok(p) => start <= p.at && (start <= m ==> fields_at(
                bytes.take(m),
                start,
                plan,
                version,
                n,
            ) == if p.at <= m {
                Ok::<Progress, DecodeError>(p)
            } else {
                Err::<Progress, DecodeError>(DecodeError::TruncatedInput)
            }),
            Err(_) => false,
        },
    decreases n,
{
    if n > 0 {
        lemma_fields_cut(bytes, start, plan, version, (n - 1) as nat, m);
        let before = fields_at(bytes, start, plan, version, (n - 1) as nat)->Ok_0;
        if plan[n - 1].since <= version {
            lemma_step_cut(plan[n - 1].step, bytes, before, m);
        }
    }
}

/// A record that reads well ends at or after its start. It reads the same
/// when the input is cut at or after its end, and fails as truncated when
/// the input is cut inside it.
pub proof fn lemma_item_cut(bytes: Seq<u8>, start: int, version: u16, index: u32, m: int)
    requires
        0 <= start,
        0 <= m <= bytes.len(),
        item_at(bytes, start, version, index) is Ok,
    ensures
        match item_at(bytes, start, version, index) {
            Ok((item, end)) => start <= end && (start <= m ==> item_at(
                bytes.take(m),
                start,
                version,
                index,
            ) == if end <= m {
                Ok::<(ItemView, int), DecodeError>((item, end))
            } else {
                Err::<(ItemView, int), DecodeError>(DecodeError::TruncatedInput)
            }),
            Err(_) => false,
        },
{
    lemma_fields_cut(bytes, start, spec_layout(), version, spec_layout().len(), m);
}

/// Takes one step: reads what it names into `item`, or passes over bytes.
pub fn apply(reader: &mut Reader, step: Step, item: &mut Item) -> (r: Result<(), DecodeError>)
    ensures
        final(reader).bytes() == old(reader).bytes(),
        match step_at(
            step,
            old(reader).bytes(),
            Progress { item: old(item)@, at: old(reader).offset() },
        ) {
            Ok(p) => r is Ok && final(item)@ == p.item && final(reader).offset() == p.at,
            Err(e) => r == Err::<(), DecodeError>(e) && final(item)@ == old(item)@
                && final(reader).offset() == old(reader).offset(),
        },
{
    match step {
        Step::Byte(field) => match read_uint(reader, 1) {
            Ok(raw) => {
                item.set_byte(field, field.decode(raw));
                Ok(())
            },
            Err(e) => Err(e),
        },
        Step::Short(field) => match read_u16(reader) {
            Ok(raw) => {
                item.set_short(field, raw);
                Ok(())
            },
            Err(e) => Err(e),
        },
        Step::Long(field) => match read_u32(reader) {
            Ok(raw) => {
                item.set_long(field, raw);
                Ok(())
            },
            Err(e) => Err(e),
        },
        Step::Text(field) => match read_string(reader, None, None) {
            Ok(text) => {
                item.set_text(field, text);
                Ok(())
            },
            Err(e) => Err(e),
        },
        Step::Hidden(field) => match read_string(reader, Some(true), Some(item.item_id)) {
            Ok(text) => {
                item.set_text(field, text);
                Ok(())
            },
            Err(e) => Err(e),
        },
        Step::Skip(count) => skip(reader, count),
    }
}

/// Reads the fields that `plan` names, in its order, leaving out the entries
/// that `version` does not have yet.
pub fn read_fields(reader: &mut Reader, plan: &[Entry], version: u16) -> (r: Result<
    Item,
    DecodeError,
>)
    ensures
        final(reader).bytes() == old(reader).bytes(),
        match fields_at(old(reader).bytes(), old(reader).offset(), plan@, version, plan@.len()) {
            Ok(p) => r is Ok && r->Ok_0@ == p.item && final(reader).offset() == p.at,
            Err(e) => r == Err::<Item, DecodeError>(e)
                && final(reader).offset() == old(reader).offset(),
        },
{
    let start = *reader;
    let mut item = Item::new();
    let mut k: usize = 0;
    while k < plan.len()
        invariant
            k <= plan@.len(),
            start == *old(reader),
            reader.bytes() == start.bytes(),
            fields_at(start.bytes(), start.offset(), plan@, version, k as nat) == Ok::<
                Progress,
                DecodeError,
            >(Progress { item: item@, at: reader.offset() }),
        decreases plan@.len() - k,
    {
        let entry = plan[k];
        if entry.since <= version {
            match apply(reader, entry.step, &mut item) {
                Ok(()) => {},
                Err(e) => {
                    proof {
                        lemma_failure_stays(
                            start.bytes(),
                            start.offset(),
                            plan@,
                            version,
                            (k + 1) as nat,
                            plan@.len(),
                        );
                    }
                    *reader = start;
                    return Err(e);
                },
            }
        }
        k += 1;
    }
    Ok(item)
}

/// Reads the record that stands at position `index` of a file of the format
/// `version`, and checks that it carries that position as its identifier.
pub fn parse_item(reader: &mut Reader, version: u16, index: u32) -> (r: Result<Item, DecodeError>)
    ensures
        final(reader).bytes() == old(reader).bytes(),
        match item_at(old(reader).bytes(), old(reader).offset(), version, index) {
            Ok((item, end)) => r is Ok && r->Ok_0@ == item && final(reader).offset() == end,
            Err(e) => r == Err::<Item, DecodeError>(e)
                && final(reader).offset() == old(reader).offset(),
        },
        r matches Ok(item) ==> item.item_id == index,
{
    let start = *reader;
    let plan = layout();
    let item = match read_fields(reader, plan.as_slice(), version) {
        Ok(item) => item,
        Err(e) => {
            return Err(e);
        },
    };
    if item.item_id != index {
        *reader = start;
        return Err(DecodeError::OrderingViolation);
    }
    Ok(item)
}

} // verus!
