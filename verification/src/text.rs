//! Text as sequences of characters: the order in which report lines are sorted.

use vstd::prelude::*;
use vstd::relations::{sorted_by, total_ordering};
use vstd::seq_lib::{to_multiset_insert, to_multiset_remove};

verus! {

/// The position of a character in the code charts.
pub open spec fn code_point(c: char) -> int {
    c as int
}

/// Lexicographic order on text, character by character, a character before
/// another when its code point is smaller; a proper prefix comes first.
pub open spec fn lex_le(a: Seq<char>, b: Seq<char>) -> bool
    decreases a.len(),
{
    if a.len() == 0 {
        true
    } else if b.len() == 0 {
        false
    } else if a[0] == b[0] {
        lex_le(a.drop_first(), b.drop_first())
    } else {
        code_point(a[0]) < code_point(b[0])
    }
}

/// `lex_le` as a relation, in the form the sequence library takes an order.
pub open spec fn line_order() -> spec_fn(Seq<char>, Seq<char>) -> bool {
    |a: Seq<char>, b: Seq<char>| lex_le(a, b)
}

/// Every text comes no later than itself.
pub proof fn lemma_lex_le_reflexive(a: Seq<char>)
    ensures
        lex_le(a, a),
    decreases a.len(),
{
    if a.len() > 0 {
        lemma_lex_le_reflexive(a.drop_first());
    }
}

/// Two texts that each come no later than the other are the same text.
pub proof fn lemma_lex_le_antisymmetric(a: Seq<char>, b: Seq<char>)
    requires
        lex_le(a, b),
        lex_le(b, a),
    ensures
        a == b,
    decreases a.len(),
{
    if a.len() == 0 || b.len() == 0 {
        assert(a =~= b);
    } else {
        assert(a[0] == b[0]);
        lemma_lex_le_antisymmetric(a.drop_first(), b.drop_first());
        assert(a =~= seq![a[0]] + a.drop_first());
        assert(b =~= seq![b[0]] + b.drop_first());
    }
}

/// The order carries over a text in the middle.
pub proof fn lemma_lex_le_transitive(a: Seq<char>, b: Seq<char>, c: Seq<char>)
    requires
        lex_le(a, b),
        lex_le(b, c),
    ensures
        lex_le(a, c),
    decreases a.len(),
{
    if a.len() > 0 && b.len() > 0 && c.len() > 0 && a[0] == b[0] && b[0] == c[0] {
        lemma_lex_le_transitive(a.drop_first(), b.drop_first(), c.drop_first());
    }
}

/// Of any two texts one comes no later than the other.
pub proof fn lemma_lex_le_total(a: Seq<char>, b: Seq<char>)
    ensures
        lex_le(a, b) || lex_le(b, a),
    decreases a.len(),
{
    if a.len() > 0 && b.len() > 0 && a[0] == b[0] {
        lemma_lex_le_total(a.drop_first(), b.drop_first());
    }
}

/// The lexicographic order is a total order.
pub proof fn lemma_line_order_total()
    ensures
        total_ordering(line_order()),
{
    let r = line_order();
    assert forall|x: Seq<char>| #[trigger] r(x, x) by {
        lemma_lex_le_reflexive(x);
    }
    assert forall|x: Seq<char>, y: Seq<char>| #[trigger] r(x, y) && #[trigger] r(y, x) implies x
        == y by {
        lemma_lex_le_antisymmetric(x, y);
    }
    assert forall|x: Seq<char>, y: Seq<char>, z: Seq<char>| #[trigger]
        r(x, y) && #[trigger] r(y, z) implies r(x, z) by {
        lemma_lex_le_transitive(x, y, z);
    }
    assert forall|x: Seq<char>, y: Seq<char>| #[trigger] r(x, y) || #[trigger] r(y, x) by {
        lemma_lex_le_total(x, y);
    }
}

/// The characters of a string, in order.
pub fn chars_of(s: &str) -> (chars: Vec<char>)
    ensures
        chars@ == s@,
{
    broadcast use vstd::string::group_string_axioms;

    let mut chars: Vec<char> = Vec::new();
    for c in it: s.chars()
        invariant
            it.seq() == s@,
            chars@ == s@.take(it.index()),
    {
        chars.push(c);
    }
    chars
}

/// Whether `a` comes no later than `b` in lexicographic order.
pub fn chars_le(a: &Vec<char>, b: &Vec<char>) -> (le: bool)
    ensures
        le == lex_le(a@, b@),
{
    let mut i: usize = 0;
    proof {
        assert(a@.skip(0) =~= a@);
        assert(b@.skip(0) =~= b@);
    }
    while i < a.len() && i < b.len()
        invariant
            i <= a.len(),
            i <= b.len(),
            lex_le(a@, b@) == lex_le(a@.skip(i as int), b@.skip(i as int)),
        decreases a.len() - i,
    {
        proof {
            assert(a@.skip(i as int).drop_first() =~= a@.skip(i + 1));
            assert(b@.skip(i as int).drop_first() =~= b@.skip(i + 1));
            assert(a@.skip(i as int)[0] == a@[i as int]);
            assert(b@.skip(i as int)[0] == b@[i as int]);
        }
        if a[i] != b[i] {
            return a[i] < b[i];
        }
        i += 1;
    }
    i == a.len()
}

/// Whether the string `a` comes no later than the string `b` in
/// lexicographic order.
pub fn text_le(a: &str, b: &str) -> (le: bool)
    ensures
        le == lex_le(a@, b@),
{
    let left = chars_of(a);
    let right = chars_of(b);
    chars_le(&left, &right)
}

/// Puts `line` into sorted lines at the first place that keeps them sorted.
fn insert_sorted(sorted: &mut Vec<String>, line: String)
    requires
        sorted_by(old(sorted).deep_view(), line_order()),
    ensures
        sorted_by(final(sorted).deep_view(), line_order()),
        final(sorted).deep_view().to_multiset() == old(sorted).deep_view().to_multiset().insert(
            line@,
        ),
{
    let mut at: usize = 0;
    while at < sorted.len() && text_le(sorted[at].as_str(), line.as_str())
        invariant
            at <= sorted@.len(),
            forall|j: int| 0 <= j < at ==> lex_le(#[trigger] sorted.deep_view()[j], line@),
        decreases sorted@.len() - at,
    {
        at += 1;
    }
    let ghost before = sorted.deep_view();
    sorted.insert(at, line);
    proof {
        let after = sorted.deep_view();
        assert(after =~= before.insert(at as int, line@));
        to_multiset_insert(before, at as int, line@);
        assert forall|i: int, j: int| 0 <= i < j < after.len() implies #[trigger] line_order()(
            after[i],
            after[j],
        ) by {
            if j == at {
                assert(after[i] == before[i]);
            } else if i == at {
                assert(after[j] == before[j - 1]);
                lemma_lex_le_total(before[at as int], line@);
                if j - 1 > at {
                    assert(line_order()(before[at as int], before[j - 1]));
                    lemma_lex_le_transitive(line@, before[at as int], before[j - 1]);
                }
            } else {
                let bi = if i < at { i } else { i - 1 };
                let bj = if j < at { j } else { j - 1 };
                assert(after[i] == before[bi]);
                assert(after[j] == before[bj]);
                assert(line_order()(before[bi], before[bj]));
            }
        }
    }
}

/// The lines in lexicographic order: the same lines, each as often as it
/// was given, every line no later than those after it.
pub fn sort_lines(lines: Vec<String>) -> (sorted: Vec<String>)
    ensures
        sorted_by(sorted.deep_view(), line_order()),
        sorted.deep_view().to_multiset() == lines.deep_view().to_multiset(),
{
    let mut rest = lines;
    let mut sorted: Vec<String> = Vec::new();
    proof {
        assert(sorted.deep_view() =~= Seq::<Seq<char>>::empty());
        broadcast use vstd::seq_lib::group_to_multiset_ensures;
        assert(sorted.deep_view().to_multiset().add(rest.deep_view().to_multiset())
            =~= lines.deep_view().to_multiset());
    }
    while rest.len() > 0
        invariant
            sorted_by(sorted.deep_view(), line_order()),
            sorted.deep_view().to_multiset().add(rest.deep_view().to_multiset())
                == lines.deep_view().to_multiset(),
        decreases rest@.len(),
    {
        let ghost before = rest.deep_view();
        let ghost placed = sorted.deep_view().to_multiset();
        let line = rest.pop().unwrap();
        proof {
            let last = before.len() - 1;
            assert(rest.deep_view() =~= before.remove(last));
            to_multiset_remove(before, last);
        }
        insert_sorted(&mut sorted, line);
        proof {
            broadcast use vstd::multiset::group_multiset_axioms;
            broadcast use vstd::seq_lib::group_to_multiset_ensures;

            assert(before.contains(line@)) by {
                assert(before[before.len() - 1] == line@);
            }
            assert(placed.insert(line@).add(before.to_multiset().remove(line@)) =~= placed.add(
                before.to_multiset(),
            ));
        }
    }
    proof {
        assert(rest.deep_view() =~= Seq::<Seq<char>>::empty());
        broadcast use vstd::seq_lib::group_to_multiset_ensures;
        assert(sorted.deep_view().to_multiset().add(rest.deep_view().to_multiset())
            =~= sorted.deep_view().to_multiset());
    }
    sorted
}

} // verus!
