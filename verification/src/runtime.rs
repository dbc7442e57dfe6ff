//! The decisions of the side that runs the script: which export an index
//! means, how the arguments of a host call are laid out, and which bytes of
//! a buffer hold text.

use vstd::prelude::*;
use crate::model::{Interface, SignatureView, ValueKind};
use crate::wire::ArgType;
use crate::names::{name_le, name_lt, name_precedes};
use crate::ops::MAX_HOST_PARAMS;
use crate::order::{ascending, lemma_insert_position, lemma_sort_keeps_ascending, sort_by_name};

verus! {

/// The views of a list of names, in order.
pub open spec fn names_view(names: Seq<String>) -> Seq<Seq<char>> {
    names.map_values(|s: String| s@)
}

/// A name is ordered by itself.
pub open spec fn by_itself() -> spec_fn(Seq<char>) -> Seq<char> {
    |name: Seq<char>| name
}

/// The names of the exports of a script in the order in which the indices
/// of the thunks are read: ascending.
pub fn export_names(keys: Vec<String>) -> (names: Vec<String>)
    ensures
        names_view(names@) == sort_by_name(names_view(keys@), by_itself()),
{
    let ghost given = names_view(keys@);
    let mut rest = keys;
    let mut sorted: Vec<String> = Vec::new();
    let ghost mut done: int = 0;
    assert(given.take(0) =~= Seq::<Seq<char>>::empty());
    while rest.len() > 0
        invariant
            0 <= done <= given.len(),
            names_view(rest@) == given.skip(done),
            names_view(sorted@) == sort_by_name(given.take(done), by_itself()),
        decreases rest.len(),
    {
        assert(done < given.len() && rest@[0]@ == given[done]) by {
            assert(names_view(rest@).len() == rest.len());
            assert(names_view(rest@)[0] == rest@[0]@);
        }
        let ghost rest_before = rest@;
        let name = rest.remove(0);
        let ghost before = names_view(sorted@);
        let mut pos: usize = sorted.len();
        while pos > 0 && name_precedes(name.as_str(), sorted[pos - 1].as_str())
            invariant
                pos <= sorted.len(),
                before == names_view(sorted@),
                forall|k: int|
                    pos <= k < sorted.len() ==> name_lt(
                        by_itself()(name@),
                        #[trigger] by_itself()(before[k]),
                    ),
            decreases pos,
        {
            pos -= 1;
        }
        sorted.insert(pos, name);
        proof {
            lemma_insert_position(before, given[done], by_itself(), pos as int);
            assert(names_view(sorted@) =~= before.insert(pos as int, given[done]));
            assert(given.take(done + 1).drop_last() =~= given.take(done));
            assert(given.take(done + 1).last() == given[done]);
            assert(names_view(rest_before).len() == rest_before.len());
            assert forall|k: int| 0 <= k < rest@.len() implies names_view(rest@)[k] == given.skip(
                done + 1,
            )[k] by {
                assert(rest@[k] == rest_before[k + 1]);
                assert(names_view(rest_before)[k + 1] == rest_before[k + 1]@);
                assert(given.skip(done)[k + 1] == given[done + k + 1]);
            }
            assert(names_view(rest@) =~= given.skip(done + 1));
            done = done + 1;
        }
    }
    assert(given.take(done) =~= given);
    sorted
}

/// The name that an index means, if it means one.
pub open spec fn resolved(names: Seq<Seq<char>>, index: i32) -> Option<Seq<char>> {
    if 0 <= index < names.len() {
        Some(names[index as int])
    } else {
        None
    }
}

/// The export that the index of a thunk means: the name at this position,
/// and none if the index is negative or too large.
pub fn resolve_export(names: &Vec<String>, index: i32) -> (name: Option<&String>)
    ensures
        match name {
            Some(n) => resolved(names_view(names@), index) == Some(n@),
            None => resolved(names_view(names@), index) is None,
        },
{
    assert(names_view(names@).len() == names.len());
    if index < 0 {
        return None;
    }
    let i = index as usize;
    if i < names.len() {
        assert(names_view(names@)[i as int] == names@[i as int]@);
        Some(&names[i])
    } else {
        None
    }
}

/// The name of an export.
pub open spec fn export_name() -> spec_fn(SignatureView) -> Seq<char> {
    |sig: SignatureView| sig.name
}

/// The exports are declared in the order in which the running side reads
/// the indices of the thunks: ascending by name, no name twice.
pub open spec fn in_runtime_order(exports: Seq<SignatureView>) -> bool {
    forall|i: int|
        0 <= i < exports.len() - 1 ==> name_lt(
            (#[trigger] exports[i]).name,
            exports[i + 1].name,
        )
}

/// Whether the exports are declared in the order in which the running side
/// reads the indices of the thunks.
///
/// A thunk passes on the position of its export among the declared exports;
/// the running side takes the number as a position among the names of the
/// script's exports in ascending order. The two agree exactly if the
/// exports are declared in ascending order of their names.
pub fn declared_in_runtime_order(exports: &Interface) -> (ok: bool)
    ensures
        ok == in_runtime_order(exports@.functions),
{
    let ghost ev = exports@.functions;
    assert(ev.len() == exports.functions.len());
    if exports.functions.len() < 2 {
        return true;
    }
    let mut i: usize = 0;
    while i < exports.functions.len() - 1
        invariant
            2 <= exports.functions.len(),
            i <= exports.functions.len() - 1,
            ev == exports@.functions,
            ev.len() == exports.functions.len(),
            forall|k: int| 0 <= k < i ==> name_lt((#[trigger] ev[k]).name, ev[k + 1].name),
        decreases exports.functions.len() - i,
    {
        let this = &exports.functions[i];
        let next = &exports.functions[i + 1];
        assert(ev[i as int] == this@);
        assert(ev[i + 1] == next@);
        if !name_precedes(this.name.as_str(), next.name.as_str()) {
            return false;
        }
        i += 1;
    }
    true
}

/// Where the exports are declared in the order of the running side, the
/// index that a thunk passes on means the thunk's own export: the names
/// in ascending order are the names as declared.
pub proof fn lemma_declared_order_is_runtime_order(exports: Seq<SignatureView>)
    requires
        in_runtime_order(exports),
    ensures
        sort_by_name(exports.map_values(export_name()), by_itself()) == exports.map_values(
            export_name(),
        ),
        forall|i: int|
            0 <= i < exports.len() <= i32::MAX ==> resolved(
                sort_by_name(exports.map_values(export_name()), by_itself()),
                i as i32,
            ) == Some(#[trigger] exports[i].name),
{
    let names = exports.map_values(export_name());
    lemma_steps_ascend(exports, 0, exports.len() as int);
    assert forall|i: int, j: int| 0 <= i < j < names.len() implies name_le(
        #[trigger] by_itself()(names[i]),
        #[trigger] by_itself()(names[j]),
    ) by {
        lemma_steps_ascend(exports, i, j + 1);
        crate::names::lemma_name_order_total(exports[i].name, exports[j].name);
    }
    lemma_sort_keeps_ascending(names, by_itself());
}

/// Names that ascend from each to the next ascend from each to every later
/// one.
proof fn lemma_steps_ascend(exports: Seq<SignatureView>, i: int, n: int)
    requires
        in_runtime_order(exports),
        0 <= i,
        n <= exports.len(),
    ensures
        forall|j: int| i < j < n ==> name_lt(exports[i].name, #[trigger] exports[j].name),
    decreases n,
{
    if i + 1 < n {
        lemma_steps_ascend(exports, i, n - 1);
        assert forall|j: int| i < j < n implies name_lt(
            exports[i].name,
            #[trigger] exports[j].name,
        ) by {
            if j == n - 1 {
                assert(name_lt(exports[n - 2].name, exports[n - 2 + 1].name));
                if i < n - 2 {
                    crate::names::lemma_bytes_lt_transitive(
                        crate::names::name_key(exports[i].name),
                        crate::names::name_key(exports[n - 2].name),
                        crate::names::name_key(exports[n - 1].name),
                    );
                }
            }
        }
    }
}

/// The five wide integers of a host call: those given, then zeros.
pub open spec fn padded(given: Seq<u64>) -> Seq<u64> {
    Seq::new(MAX_HOST_PARAMS as nat, |i: int| if i < given.len() { given[i] } else { 0 })
}

/// Lays out the arguments of a host call for the router, which takes five
/// wide integers: the arguments given, then zeros. There is no layout for
/// more than five arguments.
pub fn host_call_arguments(given: &Vec<u64>) -> (laid_out: Option<Vec<u64>>)
    ensures
        match laid_out {
            Some(wides) => given@.len() <= MAX_HOST_PARAMS && wides@ == padded(given@),
            None => given@.len() > MAX_HOST_PARAMS,
        },
{
    if given.len() > MAX_HOST_PARAMS {
        return None;
    }
    let mut wides: Vec<u64> = Vec::new();
    let mut i: usize = 0;
    while i < MAX_HOST_PARAMS
        invariant
            i <= MAX_HOST_PARAMS,
            wides.len() == i,
            forall|k: int|
                0 <= k < i ==> #[trigger] wides@[k] == if k < given@.len() {
                    given@[k]
                } else {
                    0
                },
        decreases MAX_HOST_PARAMS - i,
    {
        if i < given.len() {
            wides.push(given[i]);
        } else {
            wides.push(0);
        }
        i += 1;
    }
    assert(wides@ =~= padded(given@));
    Some(wides)
}

/// Whether the bytes from `start` on begin with the mark that may stand at
/// the beginning of UTF-8 text.
pub open spec fn marked(buffer: Seq<u8>, start: int, end: int) -> bool {
    start + 3 <= end && buffer[start] == 0xEF && buffer[start + 1] == 0xBB && buffer[start + 2]
        == 0xBF
}

/// The part of a buffer that holds the text to decode: `length` bytes from
/// `offset` on, without the mark at their beginning unless the mark is to
/// be kept; none if the buffer does not hold these bytes.
pub open spec fn text_window_spec(
    buffer: Seq<u8>,
    offset: nat,
    length: nat,
    keep_mark: bool,
) -> Option<(int, int)> {
    if offset + length > buffer.len() {
        None
    } else if !keep_mark && marked(buffer, offset as int, (offset + length) as int) {
        Some(((offset + 3) as int, (offset + length) as int))
    } else {
        Some((offset as int, (offset + length) as int))
    }
}

/// The part of a buffer that holds the text to decode, as the positions of
/// its first byte and behind its last byte.
pub fn text_window(buffer: &[u8], offset: usize, length: usize, keep_mark: bool) -> (window: Option<
    (usize, usize),
>)
    ensures
        match window {
            Some((start, end)) => text_window_spec(
                buffer@,
                offset as nat,
                length as nat,
                keep_mark,
            ) == Some((start as int, end as int)),
            None => text_window_spec(buffer@, offset as nat, length as nat, keep_mark) is None,
        },
{
    let size = buffer.len();
    let end = match offset.checked_add(length) {
        Some(end) => end,
        None => {
            return None;
        },
    };
    if end > size {
        return None;
    }
    if !keep_mark && length >= 3 && buffer[offset] == 0xEF && buffer[offset + 1] == 0xBB
        && buffer[offset + 2] == 0xBF {
        Some((offset + 3, end))
    } else {
        Some((offset, end))
    }
}

/// What a call that failed returns in place of a result: minus one, as an
/// integer or as a floating-point number of the kind asked for. It cannot
/// be told from a result by its value; the failure is on record in the
/// error channel.
pub open spec fn failure_value_spec(kind: ValueKind) -> ArgType {
    match kind {
        ValueKind::Int32 => ArgType::I32(-1i32),
        ValueKind::Int64 => ArgType::I64(-1i64),
        ValueKind::Float32 => ArgType::F32(0xbf80_0000),
        ValueKind::Float64 => ArgType::F64(0xbff0_0000_0000_0000),
    }
}

/// What a call that failed returns in place of a result.
pub fn failure_value(kind: ValueKind) -> (value: ArgType)
    ensures
        value == failure_value_spec(kind),
{
    match kind {
        ValueKind::Int32 => ArgType::I32(-1),
        ValueKind::Int64 => ArgType::I64(-1),
        ValueKind::Float32 => ArgType::F32(0xbf80_0000),
        ValueKind::Float64 => ArgType::F64(0xbff0_0000_0000_0000),
    }
}

} // verus!
