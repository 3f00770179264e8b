//! The order of the access units of a stream: by the number in the name of
//! each file, names with the same number in the order they came in.

use std::cmp::Ordering;
use vstd::prelude::*;
use crate::frames::{frame_index, has_frame_suffix, index_of_frame, is_frame_name};
use crate::order_laws::{lemma_place_grows, lemma_place_in_range, lemma_place_onto};

verus! {

/// Whether an access unit with index `a` stands before every one with
/// index `b`. A name without a number stands before all that have one.
pub open spec fn index_precedes(a: Option<i64>, b: Option<i64>) -> bool {
    match (a, b) {
        (None, Some(_)) => true,
        (Some(x), Some(y)) => x < y,
        _ => false,
    }
}

/// The indexes of a run of names.
pub open spec fn index_keys(files: Seq<String>) -> Seq<Option<i64>> {
    Seq::new(files.len(), |i: int| frame_index(files[i]@))
}

/// How many of `keys` stand before `key`.
pub open spec fn count_before(keys: Seq<Option<i64>>, key: Option<i64>) -> int
    decreases keys.len(),
{
    if keys.len() == 0 {
        0
    } else {
        count_before(keys.drop_last(), key) + if index_precedes(keys.last(), key) {
            1int
        } else {
            0int
        }
    }
}

/// How many of `keys` are `key`.
pub open spec fn count_equal(keys: Seq<Option<i64>>, key: Option<i64>) -> int
    decreases keys.len(),
{
    if keys.len() == 0 {
        0
    } else {
        count_equal(keys.drop_last(), key) + if keys.last() == key {
            1int
        } else {
            0int
        }
    }
}

/// Where name `i` stands once the names are in order: behind every name
/// with a smaller index, and behind the names with its own index that came
/// before it.
pub open spec fn place(keys: Seq<Option<i64>>, i: int) -> int {
    count_before(keys, keys[i]) + count_equal(keys.take(i), keys[i])
}

/// Whether `name` is one of `names`.
pub open spec fn occurs_in(names: Seq<String>, name: Seq<char>) -> bool {
    exists|i: int| 0 <= i < names.len() && (#[trigger] names[i])@ == name
}

/// Compares two names by their indexes.
pub fn compare_frames(a: &String, b: &String) -> (r: Ordering)
    ensures
        r == (if index_precedes(frame_index(a@), frame_index(b@)) {
            Ordering::Less
        } else if index_precedes(frame_index(b@), frame_index(a@)) {
            Ordering::Greater
        } else {
            Ordering::Equal
        }),
{
    match (index_of_frame(a.as_str()), index_of_frame(b.as_str())) {
        (None, None) => Ordering::Equal,
        (None, Some(_)) => Ordering::Less,
        (Some(_), None) => Ordering::Greater,
        (Some(x), Some(y)) => {
            if x < y {
                Ordering::Less
            } else if y < x {
                Ordering::Greater
            } else {
                Ordering::Equal
            }
        },
    }
}

/// Sorts with `sort_by` of the standard library, which is stable: it puts
/// the names in the order of `compare_frames` and keeps names that compare
/// equal in the order they had. Claimed: the result holds as many names as
/// came in, and each of them at its `place`.
#[verifier::external_body]
fn sort_by_index(files: &mut Vec<String>)
    ensures
        final(files)@.len() == old(files)@.len(),
        forall|i: int|
            0 <= i < old(files)@.len() ==> final(files)@[#[trigger] place(
                index_keys(old(files)@),
                i,
            )]@ == old(files)@[i]@,
{
    files.sort_by(|a, b| compare_frames(a, b));
}

/// A file that is named like an access unit and has no number in its name.
#[derive(Debug)]
pub struct FrameNameError {
    pub name: String,
}

/// The names among `names` that end in `.ts`, in the order they stand in.
pub open spec fn frame_names(names: Seq<String>) -> Seq<String>
    decreases names.len(),
{
    if names.len() == 0 {
        Seq::empty()
    } else if is_frame_name(names.last()@) {
        frame_names(names.drop_last()).push(names.last())
    } else {
        frame_names(names.drop_last())
    }
}

/// The first name that ends in `.ts` and holds no number, if there is one.
pub open spec fn first_without_index(names: Seq<String>) -> Option<Seq<char>>
    decreases names.len(),
{
    if names.len() == 0 {
        None
    } else {
        match first_without_index(names.drop_last()) {
            Some(name) => Some(name),
            None => if is_frame_name(names.last()@) && frame_index(names.last()@) is None {
                Some(names.last()@)
            } else {
                None
            },
        }
    }
}

/// Whether `files` are the access units among `names` in the order of their
/// indexes, those with the same index in the order of `names`.
pub open spec fn is_ordered(names: Seq<String>, files: Seq<String>) -> bool {
    let frames = frame_names(names);
    &&& files.len() == frames.len()
    &&& forall|i: int|
        0 <= i < frames.len() ==> 0 <= #[trigger] place(index_keys(frames), i) < files.len()
            && files[place(index_keys(frames), i)]@ == frames[i]@
    &&& forall|i: int, j: int|
        0 <= i <= j < files.len() ==> (frame_index(#[trigger] files[i]@) matches Some(a)
            && frame_index(#[trigger] files[j]@) matches Some(b) && a <= b)
    &&& forall|j: int| 0 <= j < files.len() ==> occurs_in(frames, (#[trigger] files[j])@)
}

/// Names that stand each at its place stand in the order of their indexes,
/// and each of them is one of the names that were to be put in order.
proof fn lemma_sorted_by_place(frames: Seq<String>, files: Seq<String>)
    requires
        files.len() == frames.len(),
        forall|i: int|
            0 <= i < frames.len() ==> files[#[trigger] place(index_keys(frames), i)]@ == frames[i]@,
        forall|k: int| 0 <= k < frames.len() ==> frame_index((#[trigger] frames[k])@) is Some,
    ensures
        forall|i: int| 0 <= i < frames.len() ==> 0 <= #[trigger] place(index_keys(frames), i) < files.len(),
        forall|j: int| 0 <= j < files.len() ==> occurs_in(frames, (#[trigger] files[j])@),
        forall|a: int, b: int|
            0 <= a <= b < files.len() ==> (frame_index(#[trigger] files[a]@) matches Some(x)
                && frame_index(#[trigger] files[b]@) matches Some(y) && x <= y),
{
    let keys = index_keys(frames);
    assert forall|i: int| 0 <= i < frames.len() implies 0 <= #[trigger] place(keys, i)
        < files.len() by {
        lemma_place_in_range(keys, i);
    }
    assert forall|j: int| 0 <= j < files.len() implies occurs_in(frames, (#[trigger] files[j])@) by {
        lemma_place_onto(keys, j);
        let i = choose|i: int| 0 <= i < keys.len() && #[trigger] place(keys, i) == j;
        assert(frames[i]@ == files[j]@);
    }
    assert forall|a: int, b: int| 0 <= a <= b < files.len() implies (frame_index(
        #[trigger] files[a]@,
    ) matches Some(x) && frame_index(#[trigger] files[b]@) matches Some(y) && x <= y) by {
        lemma_place_onto(keys, a);
        lemma_place_onto(keys, b);
        let i = choose|i: int| 0 <= i < keys.len() && #[trigger] place(keys, i) == a;
        let j = choose|j: int| 0 <= j < keys.len() && #[trigger] place(keys, j) == b;
        assert(frames[i]@ == files[a]@ && frames[j]@ == files[b]@);
        assert(keys[i] == frame_index(frames[i]@) && keys[j] == frame_index(frames[j]@));
        if index_precedes(keys[j], keys[i]) {
            lemma_place_grows(keys, j, i);
        }
    }
}

/// A name without a number stays the first such name when more names follow.
proof fn lemma_first_without_index(names: Seq<String>, i: int)
    requires
        0 <= i < names.len(),
        first_without_index(names.take(i)) is None,
        is_frame_name(names[i]@),
        frame_index(names[i]@) is None,
    ensures
        first_without_index(names) == Some(names[i]@),
    decreases names.len(),
{
    if i + 1 < names.len() {
        assert(names.drop_last().take(i) == names.take(i));
        lemma_first_without_index(names.drop_last(), i);
    }
}

/// Picks the files of access units out of the names of a directory and puts
/// them in the order of their numbers. A file that is named like an access
/// unit and holds no number is an error.
pub fn get_frames(names: Vec<String>) -> (r: Result<Vec<String>, FrameNameError>)
    ensures
        match first_without_index(names@) {
            Some(name) => r matches Err(e) && e.name@ == name,
            None => r matches Ok(files) && is_ordered(names@, files@),
        },
{
    let mut files: Vec<String> = Vec::new();
    let mut i: usize = 0;
    while i < names.len()
        invariant
            i <= names@.len(),
            first_without_index(names@.take(i as int)) is None,
            files@ == frame_names(names@.take(i as int)),
            forall|k: int| 0 <= k < files@.len() ==> frame_index((#[trigger] files@[k])@) is Some,
        decreases names@.len() - i,
    {
        let name = &names[i];
        proof {
            assert(names@.take(i + 1).drop_last() == names@.take(i as int));
        }
        if has_frame_suffix(name.as_str()) {
            if index_of_frame(name.as_str()).is_none() {
                proof {
                    lemma_first_without_index(names@, i as int);
                }
                return Err(FrameNameError { name: name.clone() });
            }
            files.push(name.clone());
        }
        i += 1;
    }
    assert(names@.take(i as int) == names@);
    let ghost frames = files@;
    sort_by_index(&mut files);
    proof {
        lemma_sorted_by_place(frames, files@);
    }
    Ok(files)
}

} // verus!
