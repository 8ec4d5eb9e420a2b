//! Copies and searches over slices.

use vstd::prelude::*;
use vstd::string::StringSliceAdditionalSpecFns;

verus! {

/// The items of a slice in a vector of their own.
pub fn copy_slice<T: Copy>(items: &[T]) -> (copy: Vec<T>)
    ensures
        copy@ == items@,
{
    let mut copy: Vec<T> = Vec::new();
    let mut index: usize = 0;
    while index < items.len()
        invariant
            index <= items.len(),
            copy@ == items@.take(index as int),
        decreases items.len() - index,
    {
        copy.push(items[index]);
        assert(copy@ == items@.take(index + 1));
        index = index + 1;
    }
    assert(copy@ == items@);
    copy
}

/// The items of a slice from the last to the first.
pub fn reversed_slice<T: Copy>(items: &[T]) -> (list: Vec<T>)
    ensures
        list@ == items@.reverse(),
{
    let mut list: Vec<T> = Vec::new();
    let mut left: usize = items.len();
    while left > 0
        invariant
            left <= items@.len(),
            list@.len() == items@.len() - left,
            forall|i: int|
                0 <= i < list@.len() ==> #[trigger] list@[i] == items@[items@.len() - 1 - i],
        decreases left,
    {
        left = left - 1;
        list.push(items[left]);
    }
    assert(list@ =~= items@.reverse());
    list
}

/// Whether two byte strings are the same.
pub fn same_bytes(left: &[u8], right: &[u8]) -> (same: bool)
    ensures
        same == (left@ == right@),
{
    if left.len() != right.len() {
        return false;
    }
    let mut index: usize = 0;
    while index < left.len()
        invariant
            index <= left.len(),
            left.len() == right.len(),
            forall|i: int| 0 <= i < index ==> left@[i] == right@[i],
        decreases left.len() - index,
    {
        if left[index] != right[index] {
            assert(left@[index as int] != right@[index as int]);
            return false;
        }
        index = index + 1;
    }
    assert(left@ == right@);
    true
}

/// The bytes are those of the text.
pub open spec fn named(name: Seq<u8>, text: &str) -> bool {
    name == text.spec_bytes()
}

pub fn is_named(name: &[u8], text: &str) -> (same: bool)
    ensures
        same == named(name@, text),
{
    same_bytes(name, text.as_bytes())
}

/// Some part of `name` is `part`.
pub open spec fn has_part(name: Seq<u8>, part: Seq<u8>) -> bool {
    exists|at: int|
        0 <= at && at + part.len() <= name.len() && #[trigger] name.subrange(
            at,
            at + part.len(),
        ) == part
}

/// Whether `part` stands somewhere in `name`.
pub fn contains_part(name: &[u8], part: &[u8]) -> (found: bool)
    ensures
        found == has_part(name@, part@),
{
    if part.len() > name.len() {
        return false;
    }
    let mut at: usize = 0;
    while at <= name.len() - part.len()
        invariant
            part.len() <= name.len(),
            at <= name.len() - part.len() + 1,
            forall|j: int|
                0 <= j < at ==> #[trigger] name@.subrange(j, j + part.len()) != part@,
        decreases name.len() - part.len() + 1 - at,
    {
        let mut matched: usize = 0;
        while matched < part.len() && name[at + matched] == part[matched]
            invariant
                part.len() <= name.len(),
                at <= name.len() - part.len(),
                matched <= part.len(),
                forall|k: int| 0 <= k < matched ==> name@[at + k] == part@[k],
            decreases part.len() - matched,
        {
            matched = matched + 1;
        }
        if matched == part.len() {
            assert(name@.subrange(at as int, at + part.len()) == part@);
            return true;
        }
        assert(name@.subrange(at as int, at + part.len())[matched as int]
            == name@[at + matched]);
        if at == name.len() - part.len() {
            return false;
        }
        at = at + 1;
    }
    false
}

/// Whether a list of 64-bit values holds one of them.
pub fn contains_u64(items: &[u64], wanted: u64) -> (found: bool)
    ensures
        found == items@.contains(wanted),
{
    let mut index: usize = 0;
    while index < items.len()
        invariant
            index <= items.len(),
            forall|i: int| 0 <= i < index ==> items@[i] != wanted,
        decreases items.len() - index,
    {
        if items[index] == wanted {
            assert(items@[index as int] == wanted);
            return true;
        }
        index = index + 1;
    }
    false
}

/// What stands between two other pieces is part of the whole, and a part always
/// stands between two pieces. Nothing is part of less than itself.
pub proof fn a_part_stands_in_the_whole(before: Seq<u8>, part: Seq<u8>, after: Seq<u8>)
    ensures
        has_part(before + part + after, part),
        before.len() < part.len() ==> !has_part(before, part),
        has_part(before, part) ==> exists|front: Seq<u8>, back: Seq<u8>|
            before == #[trigger] (front + part + back),
{
    let whole = before + part + after;
    let at = before.len() as int;
    assert(whole.subrange(at, at + part.len()) =~= part);
    if has_part(before, part) {
        let place = choose|place: int|
            0 <= place && place + part.len() <= before.len() && #[trigger] before.subrange(
                place,
                place + part.len(),
            ) == part;
        let front = before.take(place);
        let back = before.skip(place + part.len());
        let inner = before.subrange(place, place + part.len());
        assert(before =~= front + inner + back);
    }
}

/// Bytes have one name, and a text names its own bytes.
pub proof fn a_text_names_its_bytes(name: Seq<u8>, other: Seq<u8>, text: &str)
    ensures
        named(text.spec_bytes(), text),
        named(name, text) && named(other, text) ==> name == other,
{
}

} // verus!
