//! The plan store: the snapshot of a plan as bytes.
//!
//! A snapshot holds the plan's identifier, its checkpoint and its steps.
//! Numbers are written as eight bytes, least significant first. A text is
//! written as the number of bytes of its UTF-8 form and then those bytes.
//! The checkpoint is one byte, 0 for none or 1 for some, and after a 1 the
//! index. A list is written as the number of its items and then the items.
//! Reading accepts exactly what writing produces.

use crate::plan::{Plan, PlanStep, PlanStepView, PlanView};
use vstd::bytes::{
    lemma_auto_spec_u64_to_from_le_bytes, spec_u64_from_le_bytes, spec_u64_to_le_bytes,
    u64_from_le_bytes, u64_to_le_bytes,
};
use vstd::prelude::*;
use vstd::slice::{slice_subrange, slice_to_vec};
use vstd::string::StrSliceExecFns;
use vstd::utf8::{
    decode_utf8, decode_utf8_encode_utf8, encode_utf8, encode_utf8_decode_utf8,
    encode_utf8_valid_utf8, valid_utf8,
};

verus! {

/// Why a snapshot could not be loaded.
#[derive(Debug, Clone, Copy, PartialEq, Eq, Structural)]
pub enum StoreError {
    /// There is no snapshot at the path.
    NotFound,
    /// There is a snapshot, and it does not hold a plan.
    Malformed,
}

/// The largest number a snapshot can hold.
pub open spec fn number_limit() -> nat {
    0xffff_ffff_ffff_ffff
}

pub open spec fn number_bytes(n: nat) -> Seq<u8> {
    spec_u64_to_le_bytes(n as u64)
}

pub open spec fn text_bytes(text: Seq<char>) -> Seq<u8> {
    number_bytes(encode_utf8(text).len()) + encode_utf8(text)
}

pub open spec fn texts_bytes(texts: Seq<Seq<char>>) -> Seq<u8>
    decreases texts.len(),
{
    if texts.len() == 0 {
        Seq::empty()
    } else {
        texts_bytes(texts.drop_last()) + text_bytes(texts.last())
    }
}

pub open spec fn step_bytes(step: PlanStepView) -> Seq<u8> {
    text_bytes(step.instruction) + text_bytes(step.context) + number_bytes(step.files_to_edit.len())
        + texts_bytes(step.files_to_edit)
}

pub open spec fn steps_bytes(steps: Seq<PlanStepView>) -> Seq<u8>
    decreases steps.len(),
{
    if steps.len() == 0 {
        Seq::empty()
    } else {
        steps_bytes(steps.drop_last()) + step_bytes(steps.last())
    }
}

pub open spec fn checkpoint_bytes(checkpoint: Option<nat>) -> Seq<u8> {
    match checkpoint {
        Some(index) => seq![1u8] + number_bytes(index),
        None => seq![0u8],
    }
}

/// The snapshot of a plan.
pub open spec fn snapshot(plan: PlanView) -> Seq<u8> {
    text_bytes(plan.id) + checkpoint_bytes(plan.checkpoint) + number_bytes(plan.steps.len())
        + steps_bytes(plan.steps)
}

pub open spec fn text_fits(text: Seq<char>) -> bool {
    encode_utf8(text).len() <= number_limit()
}

pub open spec fn texts_fit(texts: Seq<Seq<char>>) -> bool {
    &&& texts.len() <= number_limit()
    &&& forall|i: int| 0 <= i < texts.len() ==> text_fits(#[trigger] texts[i])
}

pub open spec fn step_fits(step: PlanStepView) -> bool {
    &&& text_fits(step.instruction)
    &&& text_fits(step.context)
    &&& texts_fit(step.files_to_edit)
}

/// Whether a snapshot can hold the plan: every length in it is a number
/// that a snapshot can hold. This is so of every plan in memory.
pub open spec fn plan_fits(plan: PlanView) -> bool {
    &&& text_fits(plan.id)
    &&& plan.steps.len() <= number_limit()
    &&& forall|i: int| 0 <= i < plan.steps.len() ==> step_fits(#[trigger] plan.steps[i])
}

/// The number at the front of `bytes`, and the bytes behind it.
pub open spec fn read_number(bytes: Seq<u8>) -> Option<(nat, Seq<u8>)> {
    if bytes.len() >= 8 {
        Some((spec_u64_from_le_bytes(bytes.take(8)) as nat, bytes.skip(8)))
    } else {
        None
    }
}

/// The text at the front of `bytes`, and the bytes behind it.
pub open spec fn read_text(bytes: Seq<u8>) -> Option<(Seq<char>, Seq<u8>)> {
    match read_number(bytes) {
        Some((length, rest)) => {
            if length <= rest.len() && valid_utf8(rest.take(length as int)) {
                Some((decode_utf8(rest.take(length as int)), rest.skip(length as int)))
            } else {
                None
            }
        },
        None => None,
    }
}

/// The `count` texts at the front of `bytes`, and the bytes behind them.
pub open spec fn read_texts(bytes: Seq<u8>, count: nat) -> Option<(Seq<Seq<char>>, Seq<u8>)>
    decreases count,
{
    if count == 0 {
        Some((Seq::empty(), bytes))
    } else {
        match read_texts(bytes, (count - 1) as nat) {
            Some((texts, rest)) => match read_text(rest) {
                Some((text, rest)) => Some((texts.push(text), rest)),
                None => None,
            },
            None => None,
        }
    }
}

/// The step at the front of `bytes`, and the bytes behind it.
pub open spec fn read_step(bytes: Seq<u8>) -> Option<(PlanStepView, Seq<u8>)> {
    match read_text(bytes) {
        Some((instruction, rest)) => match read_text(rest) {
            Some((context, rest)) => match read_number(rest) {
                Some((count, rest)) => match read_texts(rest, count) {
                    Some((files_to_edit, rest)) => Some(
                        (PlanStepView { instruction, context, files_to_edit }, rest),
                    ),
                    None => None,
                },
                None => None,
            },
            None => None,
        },
        None => None,
    }
}

/// The `count` steps at the front of `bytes`, and the bytes behind them.
pub open spec fn read_steps(bytes: Seq<u8>, count: nat) -> Option<(Seq<PlanStepView>, Seq<u8>)>
    decreases count,
{
    if count == 0 {
        Some((Seq::empty(), bytes))
    } else {
        match read_steps(bytes, (count - 1) as nat) {
            Some((steps, rest)) => match read_step(rest) {
                Some((step, rest)) => Some((steps.push(step), rest)),
                None => None,
            },
            None => None,
        }
    }
}

/// The checkpoint at the front of `bytes`, and the bytes behind it.
pub open spec fn read_checkpoint(bytes: Seq<u8>) -> Option<(Option<nat>, Seq<u8>)> {
    if bytes.len() == 0 {
        None
    } else if bytes[0] == 0 {
        Some((None, bytes.skip(1)))
    } else if bytes[0] == 1 {
        match read_number(bytes.skip(1)) {
            Some((index, rest)) => Some((Some(index), rest)),
            None => None,
        }
    } else {
        None
    }
}

/// The plan that `bytes` is the snapshot of, if it is one: the parts read
/// in order, nothing left over, and the checkpoint on a step of the plan.
pub open spec fn read_snapshot(bytes: Seq<u8>) -> Option<PlanView> {
    match read_text(bytes) {
        Some((id, rest)) => match read_checkpoint(rest) {
            Some((checkpoint, rest)) => match read_number(rest) {
                Some((count, rest)) => match read_steps(rest, count) {
                    Some((steps, rest)) => {
                        let plan = PlanView { id, steps, checkpoint };
                        if rest.len() == 0 && plan.well_formed() {
                            Some(plan)
                        } else {
                            None
                        }
                    },
                    None => None,
                },
                None => None,
            },
            None => None,
        },
        None => None,
    }
}

/// Calls `String::from_utf8`. Trusted: the bytes become a string exactly
/// when they are valid UTF-8, and the string is what they decode to.
#[verifier::external_body]
fn text_from_utf8(bytes: Vec<u8>) -> (text: Option<String>)
    ensures
        match text {
            Some(text) => valid_utf8(bytes@) && text@ == decode_utf8(bytes@),
            None => !valid_utf8(bytes@),
        },
{
    String::from_utf8(bytes).ok()
}

fn put_number(out: &mut Vec<u8>, n: usize)
    ensures
        final(out)@ == old(out)@ + number_bytes(n as nat),
{
    let mut bytes = u64_to_le_bytes(n as u64);
    out.append(&mut bytes);
}

fn put_text(out: &mut Vec<u8>, text: &str)
    ensures
        final(out)@ == old(out)@ + text_bytes(text@),
        text_fits(text@),
{
    let mut bytes = text.as_bytes_vec();
    put_number(out, bytes.len());
    out.append(&mut bytes);
}

fn put_texts(out: &mut Vec<u8>, texts: &Vec<String>)
    ensures
        final(out)@ == old(out)@ + texts_bytes(texts.deep_view()),
        texts_fit(texts.deep_view()),
{
    let ghost before = out@;
    let mut i: usize = 0;
    while i < texts.len()
        invariant
            i <= texts.len(),
            out@ == before + texts_bytes(texts.deep_view().take(i as int)),
            forall|j: int| 0 <= j < i ==> text_fits(#[trigger] texts.deep_view()[j]),
        decreases texts.len() - i,
    {
        let ghost written = texts.deep_view().take(i as int);
        let ghost next = texts.deep_view().take(i + 1);
        proof {
            assert(next.drop_last() =~= written);
        }
        put_text(out, texts[i].as_str());
        i += 1;
    }
    assert(texts.deep_view().take(texts.len() as int) =~= texts.deep_view());
}

fn put_step(out: &mut Vec<u8>, step: &PlanStep)
    ensures
        final(out)@ == old(out)@ + step_bytes(step@),
        step_fits(step@),
{
    put_text(out, step.instruction());
    put_text(out, step.context());
    let files = step.files_to_edit();
    put_number(out, files.len());
    put_texts(out, files);
}

/// Writes the snapshot of `plan`.
pub fn encode(plan: &Plan) -> (bytes: Vec<u8>)
    ensures
        bytes@ == snapshot(plan@),
        plan_fits(plan@),
        plan@.well_formed(),
{
    let mut out: Vec<u8> = Vec::new();
    put_text(&mut out, plan.id());
    match plan.checkpoint() {
        Some(index) => {
            out.push(1u8);
            put_number(&mut out, index);
        },
        None => {
            out.push(0u8);
        },
    }
    let steps = plan.steps();
    put_number(&mut out, steps.len());
    let ghost before = out@;
    let mut i: usize = 0;
    while i < steps.len()
        invariant
            i <= steps.len(),
            out@ == before + steps_bytes(steps.deep_view().take(i as int)),
            forall|j: int| 0 <= j < i ==> step_fits(#[trigger] steps.deep_view()[j]),
        decreases steps.len() - i,
    {
        let ghost written = steps.deep_view().take(i as int);
        let ghost next = steps.deep_view().take(i + 1);
        proof {
            assert(next.drop_last() =~= written);
        }
        put_step(&mut out, &steps[i]);
        i += 1;
    }
    assert(steps.deep_view().take(steps.len() as int) =~= steps.deep_view());
    out
}

fn take_number(bytes: &[u8], at: usize) -> (read: Option<(u64, usize)>)
    requires
        at <= bytes@.len(),
    ensures
        match read {
            Some((n, next)) => at <= next <= bytes@.len() && read_number(bytes@.skip(at as int))
                == Some((n as nat, bytes@.skip(next as int))),
            None => read_number(bytes@.skip(at as int)) is None,
        },
{
    if bytes.len() - at < 8 {
        return None;
    }
    let part = slice_subrange(bytes, at, at + 8);
    assert(part@ =~= bytes@.skip(at as int).take(8));
    Some((u64_from_le_bytes(part), at + 8))
}

fn take_text(bytes: &[u8], at: usize) -> (read: Option<(String, usize)>)
    requires
        at <= bytes@.len(),
    ensures
        match read {
            Some((text, next)) => at <= next <= bytes@.len() && read_text(bytes@.skip(at as int))
                == Some((text@, bytes@.skip(next as int))),
            None => read_text(bytes@.skip(at as int)) is None,
        },
{
    match take_number(bytes, at) {
        Some((length, start)) => {
            if length > (bytes.len() - start) as u64 {
                return None;
            }
            let length = length as usize;
            let part = slice_to_vec(slice_subrange(bytes, start, start + length));
            assert(part@ =~= bytes@.skip(start as int).take(length as int));
            match text_from_utf8(part) {
                Some(text) => Some((text, start + length)),
                None => None,
            }
        },
        None => None,
    }
}

proof fn lemma_texts_stay_unread(bytes: Seq<u8>, failed: nat, count: nat)
    requires
        read_texts(bytes, failed) is None,
        failed <= count,
    ensures
        read_texts(bytes, count) is None,
    decreases count,
{
    if failed < count {
        lemma_texts_stay_unread(bytes, failed, (count - 1) as nat);
    }
}

proof fn lemma_steps_stay_unread(bytes: Seq<u8>, failed: nat, count: nat)
    requires
        read_steps(bytes, failed) is None,
        failed <= count,
    ensures
        read_steps(bytes, count) is None,
    decreases count,
{
    if failed < count {
        lemma_steps_stay_unread(bytes, failed, (count - 1) as nat);
    }
}

fn take_texts(bytes: &[u8], at: usize, count: u64) -> (read: Option<(Vec<String>, usize)>)
    requires
        at <= bytes@.len(),
    ensures
        match read {
            Some((texts, next)) => at <= next <= bytes@.len() && read_texts(
                bytes@.skip(at as int),
                count as nat,
            ) == Some((texts.deep_view(), bytes@.skip(next as int))),
            None => read_texts(bytes@.skip(at as int), count as nat) is None,
        },
{
    let mut texts: Vec<String> = Vec::new();
    let mut next: usize = at;
    let mut i: u64 = 0;
    while i < count
        invariant
            i <= count,
            at <= next <= bytes@.len(),
            read_texts(bytes@.skip(at as int), i as nat) == Some(
                (texts.deep_view(), bytes@.skip(next as int)),
            ),
        decreases count - i,
    {
        match take_text(bytes, next) {
            Some((text, after)) => {
                texts.push(text);
                next = after;
            },
            None => {
                proof {
                    lemma_texts_stay_unread(bytes@.skip(at as int), (i + 1) as nat, count as nat);
                }
                return None;
            },
        }
        i += 1;
    }
    Some((texts, next))
}

fn take_step(bytes: &[u8], at: usize) -> (read: Option<(PlanStep, usize)>)
    requires
        at <= bytes@.len(),
    ensures
        match read {
            Some((step, next)) => at <= next <= bytes@.len() && read_step(bytes@.skip(at as int))
                == Some((step@, bytes@.skip(next as int))),
            None => read_step(bytes@.skip(at as int)) is None,
        },
{
    let (instruction, next) = match take_text(bytes, at) {
        Some(read) => read,
        None => { return None; },
    };
    let (context, next) = match take_text(bytes, next) {
        Some(read) => read,
        None => { return None; },
    };
    let (count, next) = match take_number(bytes, next) {
        Some(read) => read,
        None => { return None; },
    };
    let (files, next) = match take_texts(bytes, next, count) {
        Some(read) => read,
        None => { return None; },
    };
    Some((PlanStep::new(instruction, context, files), next))
}

fn take_steps(bytes: &[u8], at: usize, count: u64) -> (read: Option<(Vec<PlanStep>, usize)>)
    requires
        at <= bytes@.len(),
    ensures
        match read {
            Some((steps, next)) => at <= next <= bytes@.len() && read_steps(
                bytes@.skip(at as int),
                count as nat,
            ) == Some((steps.deep_view(), bytes@.skip(next as int))),
            None => read_steps(bytes@.skip(at as int), count as nat) is None,
        },
{
    let mut steps: Vec<PlanStep> = Vec::new();
    let mut next: usize = at;
    let mut i: u64 = 0;
    while i < count
        invariant
            i <= count,
            at <= next <= bytes@.len(),
            read_steps(bytes@.skip(at as int), i as nat) == Some(
                (steps.deep_view(), bytes@.skip(next as int)),
            ),
        decreases count - i,
    {
        match take_step(bytes, next) {
            Some((step, after)) => {
                steps.push(step);
                next = after;
            },
            None => {
                proof {
                    lemma_steps_stay_unread(bytes@.skip(at as int), (i + 1) as nat, count as nat);
                }
                return None;
            },
        }
        i += 1;
    }
    Some((steps, next))
}

fn take_checkpoint(bytes: &[u8], at: usize) -> (read: Option<(Option<u64>, usize)>)
    requires
        at <= bytes@.len(),
    ensures
        match read {
            Some((checkpoint, next)) => at <= next <= bytes@.len() && read_checkpoint(
                bytes@.skip(at as int),
            ) == Some(
                (
                    match checkpoint {
                        Some(index) => Some(index as nat),
                        None => None,
                    },
                    bytes@.skip(next as int),
                ),
            ),
            None => read_checkpoint(bytes@.skip(at as int)) is None,
        },
{
    if at >= bytes.len() {
        return None;
    }
    let tag = bytes[at];
    assert(bytes@.skip(at as int).skip(1) =~= bytes@.skip(at + 1));
    if tag == 0 {
        Some((None, at + 1))
    } else if tag == 1 {
        match take_number(bytes, at + 1) {
            Some((index, next)) => Some((Some(index), next)),
            None => None,
        }
    } else {
        None
    }
}

/// Reads a snapshot.
pub fn decode(bytes: &[u8]) -> (read: Result<Plan, StoreError>)
    ensures
        match read {
            Ok(plan) => read_snapshot(bytes@) == Some(plan@),
            Err(error) => error == StoreError::Malformed && read_snapshot(bytes@) is None,
        },
{
    assert(bytes@.skip(0) =~= bytes@);
    let (id, next) = match take_text(bytes, 0) {
        Some(read) => read,
        None => { return Err(StoreError::Malformed); },
    };
    let (checkpoint, next) = match take_checkpoint(bytes, next) {
        Some(read) => read,
        None => { return Err(StoreError::Malformed); },
    };
    let (count, next) = match take_number(bytes, next) {
        Some(read) => read,
        None => { return Err(StoreError::Malformed); },
    };
    let (steps, next) = match take_steps(bytes, next, count) {
        Some(read) => read,
        None => { return Err(StoreError::Malformed); },
    };
    if next != bytes.len() {
        return Err(StoreError::Malformed);
    }
    let checkpoint: Option<usize> = match checkpoint {
        Some(index) => {
            if index >= steps.len() as u64 {
                return Err(StoreError::Malformed);
            }
            Some(index as usize)
        },
        None => None,
    };
    match Plan::restore(id, steps, checkpoint) {
        Some(plan) => {
            Ok(plan)
        },
        None => Err(StoreError::Malformed),
    }
}

/// Makes a plan of what was found at its path: `None` where there was no
/// snapshot, else the bytes of the snapshot.
pub fn load(found: Option<&[u8]>) -> (loaded: Result<Plan, StoreError>)
    ensures
        match loaded {
            Ok(plan) => found matches Some(bytes) && read_snapshot(bytes@) == Some(plan@),
            Err(StoreError::NotFound) => found is None,
            Err(StoreError::Malformed) => found matches Some(bytes) && read_snapshot(bytes@)
                is None,
        },
{
    match found {
        Some(bytes) => decode(bytes),
        None => Err(StoreError::NotFound),
    }
}

proof fn lemma_number_is_read_back(n: nat, rest: Seq<u8>)
    requires
        n <= number_limit(),
    ensures
        read_number(number_bytes(n) + rest) == Some((n, rest)),
{
    lemma_auto_spec_u64_to_from_le_bytes();
    let bytes = number_bytes(n) + rest;
    assert(bytes.take(8) =~= number_bytes(n));
}

proof fn lemma_text_is_read_back(text: Seq<char>, rest: Seq<u8>)
    requires
        text_fits(text),
    ensures
        read_text(text_bytes(text) + rest) == Some((text, rest)),
{
    let body = encode_utf8(text);
    assert(text_bytes(text) + rest =~= number_bytes(body.len()) + (body + rest));
    lemma_number_is_read_back(body.len(), body + rest);
    assert((body + rest).take(body.len() as int) =~= body);
    encode_utf8_valid_utf8(text);
    encode_utf8_decode_utf8(text);
}

proof fn lemma_texts_are_read_back(texts: Seq<Seq<char>>, rest: Seq<u8>)
    requires
        texts_fit(texts),
    ensures
        read_texts(texts_bytes(texts) + rest, texts.len()) == Some((texts, rest)),
    decreases texts.len(),
{
    if texts.len() > 0 {
        let earlier = texts.drop_last();
        let behind = text_bytes(texts.last()) + rest;
        assert(texts_bytes(texts) + rest =~= texts_bytes(earlier) + behind);
        assert forall|i: int| 0 <= i < earlier.len() implies text_fits(#[trigger] earlier[i]) by {
            assert(earlier[i] == texts[i]);
        }
        lemma_texts_are_read_back(earlier, behind);
        lemma_text_is_read_back(texts.last(), rest);
    }
}

proof fn lemma_step_is_read_back(step: PlanStepView, rest: Seq<u8>)
    requires
        step_fits(step),
    ensures
        read_step(step_bytes(step) + rest) == Some((step, rest)),
{
    let files = texts_bytes(step.files_to_edit) + rest;
    let count = number_bytes(step.files_to_edit.len()) + files;
    let context = text_bytes(step.context) + count;
    assert(step_bytes(step) + rest =~= text_bytes(step.instruction) + context);
    lemma_text_is_read_back(step.instruction, context);
    lemma_text_is_read_back(step.context, count);
    lemma_number_is_read_back(step.files_to_edit.len(), files);
    lemma_texts_are_read_back(step.files_to_edit, rest);
}

proof fn lemma_steps_are_read_back(steps: Seq<PlanStepView>, rest: Seq<u8>)
    requires
        steps.len() <= number_limit(),
        forall|i: int| 0 <= i < steps.len() ==> step_fits(#[trigger] steps[i]),
    ensures
        read_steps(steps_bytes(steps) + rest, steps.len()) == Some((steps, rest)),
    decreases steps.len(),
{
    if steps.len() > 0 {
        let earlier = steps.drop_last();
        let behind = step_bytes(steps.last()) + rest;
        assert(steps_bytes(steps) + rest =~= steps_bytes(earlier) + behind);
        assert forall|i: int| 0 <= i < earlier.len() implies step_fits(#[trigger] earlier[i]) by {
            assert(earlier[i] == steps[i]);
        }
        lemma_steps_are_read_back(earlier, behind);
        lemma_step_is_read_back(steps.last(), rest);
    }
}

/// A plan that is written and read again is the same plan: identifier,
/// steps and checkpoint come back as they went in.
pub proof fn law_snapshot_is_read_back(plan: PlanView)
    requires
        plan.well_formed(),
        plan_fits(plan),
    ensures
        read_snapshot(snapshot(plan)) == Some(plan),
{
    let steps = steps_bytes(plan.steps);
    let count = number_bytes(plan.steps.len()) + steps;
    let checkpoint = checkpoint_bytes(plan.checkpoint) + count;
    assert(snapshot(plan) =~= text_bytes(plan.id) + checkpoint);
    lemma_text_is_read_back(plan.id, checkpoint);
    match plan.checkpoint {
        Some(index) => {
            assert(checkpoint.skip(1) =~= number_bytes(index) + count);
            lemma_number_is_read_back(index, count);
        },
        None => {
            assert(checkpoint.skip(1) =~= count);
        },
    }
    lemma_number_is_read_back(plan.steps.len(), steps);
    lemma_steps_are_read_back(plan.steps, Seq::<u8>::empty());
}

proof fn lemma_number_was_written(bytes: Seq<u8>)
    requires
        read_number(bytes) is Some,
    ensures
        ({
            let (n, rest) = read_number(bytes)->0;
            &&& n <= number_limit()
            &&& bytes == number_bytes(n) + rest
        }),
{
    lemma_auto_spec_u64_to_from_le_bytes();
    assert(bytes =~= bytes.take(8) + bytes.skip(8));
}

proof fn lemma_text_was_written(bytes: Seq<u8>)
    requires
        read_text(bytes) is Some,
    ensures
        ({
            let (text, rest) = read_text(bytes)->0;
            &&& text_fits(text)
            &&& bytes == text_bytes(text) + rest
        }),
{
    lemma_number_was_written(bytes);
    let (length, behind) = read_number(bytes)->0;
    let body = behind.take(length as int);
    decode_utf8_encode_utf8(body);
    assert(behind =~= body + behind.skip(length as int));
}

proof fn lemma_texts_were_written(bytes: Seq<u8>, count: nat)
    requires
        read_texts(bytes, count) is Some,
        count <= number_limit(),
    ensures
        ({
            let (texts, rest) = read_texts(bytes, count)->0;
            &&& texts.len() == count
            &&& texts_fit(texts)
            &&& bytes == texts_bytes(texts) + rest
        }),
    decreases count,
{
    if count > 0 {
        lemma_texts_were_written(bytes, (count - 1) as nat);
        let (earlier, behind) = read_texts(bytes, (count - 1) as nat)->0;
        lemma_text_was_written(behind);
        let (text, rest) = read_text(behind)->0;
        let texts = earlier.push(text);
        assert(texts.drop_last() =~= earlier);
    }
}

proof fn lemma_step_was_written(bytes: Seq<u8>)
    requires
        read_step(bytes) is Some,
    ensures
        ({
            let (step, rest) = read_step(bytes)->0;
            &&& step_fits(step)
            &&& bytes == step_bytes(step) + rest
        }),
{
    lemma_text_was_written(bytes);
    let (instruction, behind) = read_text(bytes)->0;
    lemma_text_was_written(behind);
    let (context, behind2) = read_text(behind)->0;
    lemma_number_was_written(behind2);
    let (count, behind3) = read_number(behind2)->0;
    lemma_texts_were_written(behind3, count);
}

proof fn lemma_steps_were_written(bytes: Seq<u8>, count: nat)
    requires
        read_steps(bytes, count) is Some,
        count <= number_limit(),
    ensures
        ({
            let (steps, rest) = read_steps(bytes, count)->0;
            &&& steps.len() == count
            &&& forall|i: int| 0 <= i < steps.len() ==> step_fits(#[trigger] steps[i])
            &&& bytes == steps_bytes(steps) + rest
        }),
    decreases count,
{
    if count > 0 {
        lemma_steps_were_written(bytes, (count - 1) as nat);
        let (earlier, behind) = read_steps(bytes, (count - 1) as nat)->0;
        lemma_step_was_written(behind);
        let (step, rest) = read_step(behind)->0;
        let steps = earlier.push(step);
        assert(steps.drop_last() =~= earlier);
    }
}

/// Bytes that are read as a plan are the snapshot of that plan, byte for
/// byte: reading a snapshot and writing it again changes nothing.
pub proof fn law_snapshot_is_written_back(bytes: Seq<u8>)
    requires
        read_snapshot(bytes) is Some,
    ensures
        ({
            let plan = read_snapshot(bytes)->0;
            &&& plan.well_formed()
            &&& plan_fits(plan)
            &&& snapshot(plan) == bytes
        }),
{
    lemma_text_was_written(bytes);
    let (id, behind) = read_text(bytes)->0;
    let (checkpoint, behind2) = read_checkpoint(behind)->0;
    assert(behind == checkpoint_bytes(checkpoint) + behind2) by {
        if behind[0] == 1 {
            lemma_number_was_written(behind.skip(1));
            assert(behind =~= seq![1u8] + behind.skip(1));
        } else {
            assert(behind =~= seq![0u8] + behind.skip(1));
        }
    }
    lemma_number_was_written(behind2);
    let (count, behind3) = read_number(behind2)->0;
    lemma_steps_were_written(behind3, count);
}

} // verus!
