//! Cart labels: `Cart_<partition>_<microseconds>`.
//!
//! A label names one cart by the display form of its partition and the
//! decimal count of microseconds at which it was opened. The partition's
//! display form may itself hold underscores, so a label is read from both
//! ends: the partition stands between the first and the last underscore.

use vstd::prelude::*;
use vstd::string::*;
use crate::text::{
    chars_of, decimal, decimal_text, find_first, find_last, first_index, last_index,
    lemma_decimal_chars, lemma_first_index, lemma_first_index_unique, lemma_last_index,
    lemma_last_index_unique,
};

verus! {

/// The word that every label begins with, underscore included.
pub open spec fn label_head() -> Seq<char> {
    seq!['C', 'a', 'r', 't', '_']
}

/// The label of the cart on `partition` (in display form) opened at `created_at`.
pub open spec fn label_of(partition: Seq<char>, created_at: int) -> Seq<char> {
    label_head() + partition + seq!['_'] + decimal(created_at)
}

/// The two parts of a label: what stands between its first and its last
/// underscore, and what follows the last. `None` when it holds no underscore.
pub open spec fn label_parts(label: Seq<char>) -> Option<(Seq<char>, Seq<char>)> {
    let first = first_index(label, '_');
    let last = last_index(label, '_');
    if last < 0 {
        None
    } else {
        Some(
            (
                if first < last {
                    label.subrange(first + 1, last)
                } else {
                    Seq::empty()
                },
                label.subrange(last + 1, label.len() as int),
            ),
        )
    }
}

/// The partition that a label names, in display form; empty where the label
/// cannot be read.
pub open spec fn label_partition(label: Seq<char>) -> Seq<char> {
    match label_parts(label) {
        Some((partition, _)) => partition,
        None => Seq::empty(),
    }
}

/// Reading a written label gives back the partition and the decimal count,
/// whatever characters the partition's display form holds.
pub proof fn lemma_label_round_trip(partition: Seq<char>, created_at: int)
    ensures
        label_parts(label_of(partition, created_at)) == Some((partition, decimal(created_at))),
{
    let label = label_of(partition, created_at);
    let digits = decimal(created_at);
    let cut: int = 5 + partition.len() as int;
    lemma_decimal_chars(created_at);
    assert(label.len() == cut + 1 + digits.len());
    assert(label[4] == '_');
    assert(label[cut] == '_');
    assert forall|j: int| cut < j < label.len() implies label[j] != '_' by {
        assert(label[j] == digits[j - cut - 1]);
    }
    lemma_first_index_unique(label, '_', 4);
    lemma_last_index_unique(label, '_', cut as int);
    assert(label.subrange(5, cut) =~= partition);
    assert(label.subrange(cut + 1, label.len() as int) =~= digits);
}

/// Writes the label of the cart on `partition` (in display form) opened at `created_at`.
pub fn cart_label(partition: &str, created_at: i64) -> (label: String)
    ensures
        label@ == label_of(partition@, created_at as int),
{
    proof {
        reveal_strlit("Cart_");
        reveal_strlit("_");
    }
    let mut label = String::from_str("Cart_");
    assert(label@ =~= label_head());
    label.append(partition);
    label.append("_");
    let digits = decimal_text(created_at);
    label.append(digits.as_str());
    assert(label@ =~= label_of(partition@, created_at as int));
    label
}

/// Reads a label: the partition's display form and the count of
/// microseconds, both as written. `None` when the label holds no underscore.
pub fn parse_label(label: &str) -> (parts: Option<(String, String)>)
    ensures
        match parts {
            Some((partition, created_at)) => label_parts(label@) == Some((partition@, created_at@)),
            None => label_parts(label@) is None,
        },
{
    let chars = chars_of(label);
    let first = find_first(&chars, '_');
    let found = find_last(&chars, '_');
    if found.is_none() {
        return None;
    }
    let last = found.unwrap();
    let end = chars.len();
    proof {
        lemma_first_index(label@, '_');
        lemma_last_index(label@, '_');
    }
    let partition = if first < last {
        label.substring_char(first + 1, last).to_owned()
    } else {
        String::new()
    };
    let created_at = label.substring_char(last + 1, end).to_owned();
    Some((partition, created_at))
}

} // verus!
