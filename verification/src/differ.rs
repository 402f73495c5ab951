//! The differences between two flattened settings, one line for each.

use crate::flatten::{FlatSettings, lists};
use crate::permutation::{lemma_map_keeps_counts, lemma_same_items_once, lemma_to_seq_has_each_once};
use crate::text::{lemma_line_order_total, line_order, sort_lines};
use vstd::prelude::*;
use vstd::relations::sorted_by;
use vstd::seq_lib::lemma_sorted_unique;

verus! {

/// The line for a key that has a desired value and no actual one.
pub open spec fn missing_line(key: Seq<char>, expected: Seq<char>) -> Seq<char> {
    "["@ + key + "]: expected ["@ + expected + "] but it has no value"@
}

/// The line for a key whose actual value is not the desired one.
pub open spec fn mismatch_line(key: Seq<char>, expected: Seq<char>, actual: Seq<char>) -> Seq<
    char,
> {
    "["@ + key + "]: expected ["@ + expected + "] got ["@ + actual + "]"@
}

/// Whether `key` is one to report: it has a desired value, and the actual
/// value is missing or another text.
pub open spec fn differs(
    desired: Map<Seq<char>, Seq<char>>,
    actual: Map<Seq<char>, Seq<char>>,
    key: Seq<char>,
) -> bool {
    desired.contains_key(key) && (!actual.contains_key(key) || actual[key] != desired[key])
}

/// The line that reports `key`.
pub open spec fn discrepancy(
    desired: Map<Seq<char>, Seq<char>>,
    actual: Map<Seq<char>, Seq<char>>,
    key: Seq<char>,
) -> Seq<char> {
    if actual.contains_key(key) {
        mismatch_line(key, desired[key], actual[key])
    } else {
        missing_line(key, desired[key])
    }
}

/// `discrepancy` for given settings, as a function of the key.
pub open spec fn line_of(
    desired: Map<Seq<char>, Seq<char>>,
    actual: Map<Seq<char>, Seq<char>>,
) -> spec_fn(Seq<char>) -> Seq<char> {
    |key: Seq<char>| discrepancy(desired, actual, key)
}

/// The keys to report.
pub open spec fn differing_keys(
    desired: Map<Seq<char>, Seq<char>>,
    actual: Map<Seq<char>, Seq<char>>,
) -> Set<Seq<char>> {
    desired.dom().filter(|key: Seq<char>| differs(desired, actual, key))
}

/// The report: the lines of the keys to report, in lexicographic order of
/// the lines.
pub open spec fn diff_lines(
    desired: Map<Seq<char>, Seq<char>>,
    actual: Map<Seq<char>, Seq<char>>,
) -> Seq<Seq<char>> {
    differing_keys(desired, actual).to_seq().map_values(line_of(desired, actual)).sort_by(
        line_order(),
    )
}

/// Lines are the report when they are in order and are the lines of some
/// listing of the keys to report, each key listed once.
pub proof fn lemma_report_is_diff_lines(
    desired: Map<Seq<char>, Seq<char>>,
    actual: Map<Seq<char>, Seq<char>>,
    keys: Seq<Seq<char>>,
    lines: Seq<Seq<char>>,
)
    requires
        desired.dom().finite(),
        keys.no_duplicates(),
        keys.to_set() == differing_keys(desired, actual),
        sorted_by(lines, line_order()),
        lines.to_multiset() == keys.map_values(line_of(desired, actual)).to_multiset(),
    ensures
        lines == diff_lines(desired, actual),
{
    let reported = differing_keys(desired, actual);
    let listing = reported.to_seq();
    let unsorted = listing.map_values(line_of(desired, actual));
    lemma_to_seq_has_each_once(reported);
    lemma_same_items_once(keys, listing);
    lemma_map_keeps_counts(keys, listing, line_of(desired, actual));
    lemma_line_order_total();
    unsorted.lemma_sort_by_ensures(line_order());
    lemma_sorted_unique(lines, unsorted.sort_by(line_order()), line_order());
}

/// The report is in lexicographic order, whatever the settings.
pub proof fn lemma_diff_lines_sorted(
    desired: Map<Seq<char>, Seq<char>>,
    actual: Map<Seq<char>, Seq<char>>,
)
    ensures
        sorted_by(diff_lines(desired, actual), line_order()),
{
    lemma_line_order_total();
    differing_keys(desired, actual).to_seq().map_values(
        line_of(desired, actual),
    ).lemma_sort_by_ensures(line_order());
}

/// The report has one line for each key to report, the line of that key,
/// and no other line: a key that only `actual` has is never reported.
pub proof fn lemma_diff_lines_content(
    desired: Map<Seq<char>, Seq<char>>,
    actual: Map<Seq<char>, Seq<char>>,
)
    requires
        desired.dom().finite(),
    ensures
        diff_lines(desired, actual).len() == differing_keys(desired, actual).len(),
        forall|key: Seq<char>|
            differs(desired, actual, key) ==> diff_lines(desired, actual).contains(
                #[trigger] discrepancy(desired, actual, key),
            ),
        forall|line: Seq<char>| #[trigger]
            diff_lines(desired, actual).contains(line) ==> exists|key: Seq<char>|
                differs(desired, actual, key) && line == discrepancy(desired, actual, key),
{
    broadcast use vstd::seq_lib::group_to_multiset_ensures;

    let reported = differing_keys(desired, actual);
    let listing = reported.to_seq();
    let unsorted = listing.map_values(line_of(desired, actual));
    let report = diff_lines(desired, actual);
    lemma_to_seq_has_each_once(reported);
    lemma_line_order_total();
    unsorted.lemma_sort_by_ensures(line_order());
    assert(report.len() == unsorted.len()) by {
        assert(report.to_multiset().len() == unsorted.to_multiset().len());
    }
    assert forall|key: Seq<char>| differs(desired, actual, key) implies report.contains(
        #[trigger] discrepancy(desired, actual, key),
    ) by {
        assert(listing.to_set().contains(key));
        let at = listing.index_of(key);
        assert(unsorted[at] == discrepancy(desired, actual, key));
        assert(unsorted.contains(discrepancy(desired, actual, key)));
        assert(unsorted.to_multiset().count(discrepancy(desired, actual, key)) > 0);
    }
    assert forall|line: Seq<char>| #[trigger] report.contains(line) implies exists|key: Seq<char>|
        differs(desired, actual, key) && line == discrepancy(desired, actual, key) by {
        assert(report.to_multiset().count(line) > 0);
        assert(unsorted.contains(line));
        let at = unsorted.index_of(line);
        assert(listing.to_set().contains(listing[at]));
        assert(differs(desired, actual, listing[at]));
        assert(line == discrepancy(desired, actual, listing[at]));
    }
}

/// Where no key is to be reported, the report is empty.
pub proof fn lemma_nothing_to_report(
    desired: Map<Seq<char>, Seq<char>>,
    actual: Map<Seq<char>, Seq<char>>,
)
    requires
        forall|key: Seq<char>| !differs(desired, actual, key),
    ensures
        diff_lines(desired, actual) == Seq::<Seq<char>>::empty(),
{
    broadcast use vstd::set::group_set_axioms;
    broadcast use vstd::seq_lib::group_to_multiset_ensures;

    let reported = differing_keys(desired, actual);
    assert(reported =~= Set::<Seq<char>>::empty());
    assert(reported.to_seq() =~= Seq::<Seq<char>>::empty());
    let unsorted = reported.to_seq().map_values(line_of(desired, actual));
    assert(unsorted =~= Seq::<Seq<char>>::empty());
    lemma_line_order_total();
    unsorted.lemma_sort_by_ensures(line_order());
    assert(diff_lines(desired, actual).to_multiset().len() == unsorted.to_multiset().len());
    assert(diff_lines(desired, actual) =~= Seq::<Seq<char>>::empty());
}

/// Settings compared with themselves give an empty report.
pub proof fn lemma_diff_of_equal_settings(desired: Map<Seq<char>, Seq<char>>)
    ensures
        diff_lines(desired, desired) == Seq::<Seq<char>>::empty(),
{
    lemma_nothing_to_report(desired, desired);
}

/// Desired settings are a partial specification: where every desired key
/// has the desired value in `actual`, the report is empty, whatever else
/// `actual` holds.
pub proof fn lemma_diff_of_partial_settings(
    desired: Map<Seq<char>, Seq<char>>,
    actual: Map<Seq<char>, Seq<char>>,
)
    requires
        desired.submap_of(actual),
    ensures
        diff_lines(desired, actual) == Seq::<Seq<char>>::empty(),
{
    lemma_nothing_to_report(desired, actual);
}

/// The line for `key` where the desired value is `expected` and there is
/// no actual value.
pub fn missing_line_text(key: &str, expected: &str) -> (line: String)
    ensures
        line@ == missing_line(key@, expected@),
{
    let mut line = String::from_str("[");
    line.append(key);
    line.append("]: expected [");
    line.append(expected);
    line.append("] but it has no value");
    line
}

/// The line for `key` where the desired value is `expected` and the actual
/// value is `actual`.
pub fn mismatch_line_text(key: &str, expected: &str, actual: &str) -> (line: String)
    ensures
        line@ == mismatch_line(key@, expected@, actual@),
{
    let mut line = String::from_str("[");
    line.append(key);
    line.append("]: expected [");
    line.append(expected);
    line.append("] got [");
    line.append(actual);
    line.append("]");
    line
}

/// Compares flattened settings. Each key of `desired` whose value in
/// `actual` is missing or another text gives one line; a key that only
/// `actual` has gives none. The lines come in lexicographic order, so the
/// report does not depend on the order in which either mapping was filled.
pub fn diff(desired: &FlatSettings, actual: &FlatSettings) -> (lines: Vec<String>)
    ensures
        lines.deep_view() == diff_lines(desired@, actual@),
        sorted_by(lines.deep_view(), line_order()),
        lines.len() == differing_keys(desired@, actual@).len(),
        desired@ == actual@ ==> lines@.len() == 0,
        desired@.submap_of(actual@) ==> lines@.len() == 0,
{
    let n = desired.len();
    let mut found: Vec<String> = Vec::new();
    let ghost mut keys: Seq<Seq<char>> = Seq::empty();
    let mut i: usize = 0;
    proof {
        assert(found.deep_view() =~= keys.map_values(line_of(desired@, actual@)));
    }
    while i < n
        invariant
            i <= n,
            n == desired.keys().len(),
            lists(desired.keys(), desired.values(), desired@),
            keys.no_duplicates(),
            forall|k: Seq<char>| #[trigger]
                keys.contains(k) <==> differs(desired@, actual@, k) && exists|j: int|
                    0 <= j < i && desired.keys()[j] == k,
            found.deep_view() == keys.map_values(line_of(desired@, actual@)),
        decreases n - i,
    {
        if let Some((key, expected)) = desired.entry(i) {
            let ghost earlier = keys;
            let ghost lines = found.deep_view();
            proof {
                assert(desired.keys().to_set().contains(desired.keys()[i as int]));
            }
            let line = match actual.get(key.as_str()) {
                None => Some(missing_line_text(key.as_str(), expected.as_str())),
                Some(value) => if *value == *expected {
                    None
                } else {
                    Some(mismatch_line_text(key.as_str(), expected.as_str(), value.as_str()))
                },
            };
            if let Some(line) = line {
                found.push(line);
                proof {
                    keys = earlier.push(key@);
                    assert(found.deep_view() =~= lines.push(line@));
                    assert(keys.map_values(line_of(desired@, actual@)) =~= lines.push(line@));
                    assert(!earlier.contains(key@));
                    assert forall|k: Seq<char>| #[trigger]
                        keys.contains(k) <==> differs(desired@, actual@, k) && exists|j: int|
                            0 <= j < i + 1 && desired.keys()[j] == k by {
                        if keys.contains(k) {
                            let at = keys.index_of(k);
                            if at < earlier.len() {
                                assert(earlier.contains(earlier[at]));
                            }
                        }
                        if differs(desired@, actual@, k) && exists|j: int|
                            0 <= j < i + 1 && desired.keys()[j] == k {
                            if k == key@ {
                                assert(keys[earlier.len() as int] == k);
                            } else {
                                assert(earlier.contains(k));
                                let at = earlier.index_of(k);
                                assert(keys[at] == k);
                            }
                        }
                    }
                }
            }
        }
        i += 1;
    }
    let sorted = sort_lines(found);
    proof {
        assert(keys.to_set() =~= differing_keys(desired@, actual@)) by {
            assert forall|k: Seq<char>| differing_keys(desired@, actual@).contains(k) implies
                keys.contains(k) by {
                assert(desired.keys().to_set().contains(k));
                let j = desired.keys().index_of(k);
                assert(desired.keys()[j] == k);
            }
        }
        lemma_report_is_diff_lines(desired@, actual@, keys, sorted.deep_view());
        lemma_diff_lines_content(desired@, actual@);
        if desired@.submap_of(actual@) {
            lemma_diff_of_partial_settings(desired@, actual@);
        }
    }
    sorted
}

} // verus!
