//! The order of texts, and putting labels in it.

use vstd::prelude::*;

verus! {

/// `a` comes before `b`: at the first place where they differ `a` has the
/// lesser character, or `a` ends there and `b` goes on.
pub open spec fn precedes(a: Seq<char>, b: Seq<char>) -> bool
    decreases a.len(),
{
    if b.len() == 0 {
        false
    } else if a.len() == 0 {
        true
    } else if a[0] != b[0] {
        a[0] < b[0]
    } else {
        precedes(a.drop_first(), b.drop_first())
    }
}

/// Whether `a` comes before `b`, as `str`'s `PartialOrd::lt` decides it:
/// strings are ordered lexicographically by their bytes, which orders them
/// by their characters' code points.
#[verifier::external_body]
pub(crate) fn text_lt(a: &str, b: &str) -> (before: bool)
    ensures
        before == precedes(a@, b@),
{
    a.lt(b)
}

/// No text comes before itself.
pub proof fn lemma_precedes_irreflexive(a: Seq<char>)
    ensures
        !precedes(a, a),
    decreases a.len(),
{
    if a.len() > 0 {
        lemma_precedes_irreflexive(a.drop_first());
    }
}

/// What comes before a text comes before all that the text comes before.
pub proof fn lemma_precedes_transitive(a: Seq<char>, b: Seq<char>, c: Seq<char>)
    requires
        precedes(a, b),
        precedes(b, c),
    ensures
        precedes(a, c),
    decreases a.len(),
{
    if a.len() > 0 && a[0] == b[0] && b[0] == c[0] {
        lemma_precedes_transitive(a.drop_first(), b.drop_first(), c.drop_first());
    }
}

/// Of two different texts one comes before the other.
pub proof fn lemma_precedes_total(a: Seq<char>, b: Seq<char>)
    ensures
        a == b || precedes(a, b) || precedes(b, a),
    decreases a.len(),
{
    if a.len() > 0 && b.len() > 0 && a[0] == b[0] {
        lemma_precedes_total(a.drop_first(), b.drop_first());
        if a.drop_first() == b.drop_first() {
            assert(a =~= seq![a[0]] + a.drop_first());
            assert(b =~= seq![b[0]] + b.drop_first());
        }
    } else if a.len() == 0 && b.len() == 0 {
        assert(a =~= b);
    }
}

/// Each text of `s` comes before those after it.
pub open spec fn increasing(s: Seq<Seq<char>>) -> bool {
    forall|i: int, j: int| 0 <= i < j < s.len() ==> precedes(#[trigger] s[i], #[trigger] s[j])
}

/// `a` and `b` hold the same texts.
pub open spec fn same_texts(a: Seq<Seq<char>>, b: Seq<Seq<char>>) -> bool {
    forall|text: Seq<char>|
        #![trigger a.contains(text)]
        #![trigger b.contains(text)]
        a.contains(text) <==> b.contains(text)
}

/// `ordered` holds the texts of `labels`, each once, in increasing order.
pub open spec fn is_ordering_of(ordered: Seq<Seq<char>>, labels: Seq<Seq<char>>) -> bool {
    increasing(ordered) && same_texts(ordered, labels)
}

/// A text put into an increasing sequence, behind the texts that come
/// before it and before those that it comes before, leaves the sequence
/// increasing.
proof fn lemma_insert_keeps_increasing(texts: Seq<Seq<char>>, at: int, text: Seq<char>)
    requires
        increasing(texts),
        0 <= at <= texts.len(),
        forall|k: int| 0 <= k < at ==> precedes(#[trigger] texts[k], text),
        at < texts.len() ==> !precedes(texts[at], text) && texts[at] != text,
    ensures
        increasing(texts.insert(at, text)),
{
    let after = texts.insert(at, text);
    assert forall|i: int, j: int| 0 <= i < j < after.len() implies precedes(
        #[trigger] after[i],
        #[trigger] after[j],
    ) by {
        if j == at {
            assert(after[i] == texts[i]);
        } else if i == at {
            assert(after[j] == texts[j - 1]);
            lemma_precedes_total(texts[at], text);
            if j - 1 > at {
                assert(precedes(texts[at], texts[j - 1]));
                lemma_precedes_transitive(text, texts[at], texts[j - 1]);
            }
        } else {
            let from = if i < at { i } else { i - 1 };
            let to = if j < at { j } else { j - 1 };
            assert(after[i] == texts[from] && after[j] == texts[to]);
        }
    }
}

/// A text put into one sequence and behind another leaves them holding the
/// same texts, if they did.
proof fn lemma_insert_keeps_same_texts(
    texts: Seq<Seq<char>>,
    at: int,
    text: Seq<char>,
    seen: Seq<Seq<char>>,
)
    requires
        same_texts(texts, seen),
        0 <= at <= texts.len(),
    ensures
        same_texts(texts.insert(at, text), seen.push(text)),
        texts.contains(text) ==> same_texts(texts, seen.push(text)),
{
    let after = texts.insert(at, text);
    let more = seen.push(text);
    assert(after[at] == text);
    assert(more[seen.len() as int] == text);
    assert forall|other: Seq<char>|
        #![trigger after.contains(other)]
        #![trigger more.contains(other)]
        after.contains(other) <==> more.contains(other) by {
        if after.contains(other) && other != text {
            let k = choose|k: int| 0 <= k < after.len() && after[k] == other;
            assert(texts[if k < at { k } else { k - 1 }] == other);
            assert(texts.contains(other));
            assert(seen.contains(other));
            let m = choose|m: int| 0 <= m < seen.len() && seen[m] == other;
            assert(more[m] == other);
        }
        if more.contains(other) && other != text {
            let m = choose|m: int| 0 <= m < more.len() && more[m] == other;
            assert(seen[m] == other);
            assert(seen.contains(other));
            assert(texts.contains(other));
            let k = choose|k: int| 0 <= k < texts.len() && texts[k] == other;
            assert(after[if k < at { k } else { k + 1 }] == other);
        }
    }
    if texts.contains(text) {
        assert forall|other: Seq<char>|
            #![trigger texts.contains(other)]
            #![trigger more.contains(other)]
            texts.contains(other) <==> more.contains(other) by {
            if texts.contains(other) {
                assert(seen.contains(other));
                let m = choose|m: int| 0 <= m < seen.len() && seen[m] == other;
                assert(more[m] == other);
            }
            if more.contains(other) && other != text {
                let m = choose|m: int| 0 <= m < more.len() && more[m] == other;
                assert(seen[m] == other);
                assert(seen.contains(other));
            }
        }
    }
}

/// The labels of `labels`, each once, in increasing order.
pub fn ordered_labels(labels: Vec<String>) -> (ordered: Vec<String>)
    ensures
        is_ordering_of(ordered.deep_view(), labels.deep_view()),
{
    let ghost all = labels.deep_view();
    let mut ordered: Vec<String> = Vec::new();
    let mut labels = labels;
    let mut seen: Ghost<Seq<Seq<char>>> = Ghost(Seq::empty());
    assert(ordered.deep_view() =~= Seq::<Seq<char>>::empty());
    while labels.len() > 0
        invariant
            increasing(ordered.deep_view()),
            seen@ + labels.deep_view() == all,
            same_texts(ordered.deep_view(), seen@),
        decreases labels.len(),
    {
        let ghost before = ordered.deep_view();
        let ghost pending = labels.deep_view();
        let label = labels.remove(0);
        assert(labels.deep_view() =~= pending.drop_first());
        let mut at: usize = 0;
        while at < ordered.len() && text_lt(ordered[at].as_str(), label.as_str())
            invariant
                at <= ordered.len(),
                before == ordered.deep_view(),
                forall|k: int| 0 <= k < at ==> precedes(#[trigger] before[k], label@),
            decreases ordered.len() - at,
        {
            assert(before[at as int] == ordered[at as int]@);
            at += 1;
        }
        let present = at < ordered.len() && ordered[at] == label;
        proof {
            if at < ordered.len() {
                assert(before[at as int] == ordered[at as int]@);
            }
            lemma_insert_keeps_same_texts(before, at as int, label@, seen@);
        }
        if !present {
            proof {
                lemma_insert_keeps_increasing(before, at as int, label@);
            }
            ordered.insert(at, label);
            assert(ordered.deep_view() =~= before.insert(at as int, pending[0]));
        }
        proof {
            assert(seen@.push(pending[0]) + labels.deep_view() =~= seen@ + pending);
            seen@ = seen@.push(pending[0]);
        }
    }
    assert(seen@ =~= all);
    ordered
}

/// The first text of an increasing sequence is none of the others, and
/// what is left without it is increasing.
proof fn lemma_increasing_tail(a: Seq<Seq<char>>)
    requires
        increasing(a),
        a.len() > 0,
    ensures
        increasing(a.drop_first()),
        !a.drop_first().contains(a[0]),
        forall|text: Seq<char>|
            #![trigger a.drop_first().contains(text)]
            a.contains(text) && text != a[0] ==> a.drop_first().contains(text),
        forall|text: Seq<char>| #[trigger]
            a.drop_first().contains(text) ==> a.contains(text) && precedes(a[0], text),
{
    let tail = a.drop_first();
    assert forall|i: int, j: int| 0 <= i < j < tail.len() implies precedes(
        #[trigger] tail[i],
        #[trigger] tail[j],
    ) by {
        assert(tail[i] == a[i + 1] && tail[j] == a[j + 1]);
    }
    assert forall|text: Seq<char>| #[trigger] tail.contains(text) implies a.contains(text)
        && precedes(a[0], text) by {
        let i = choose|i: int| 0 <= i < tail.len() && tail[i] == text;
        assert(a[i + 1] == text);
        assert(precedes(a[0], a[i + 1]));
    }
    if tail.contains(a[0]) {
        lemma_precedes_irreflexive(a[0]);
    }
    assert forall|text: Seq<char>|
        a.contains(text) && text != a[0] implies #[trigger] tail.contains(text) by {
        let i = choose|i: int| 0 <= i < a.len() && a[i] == text;
        assert(tail[i - 1] == text);
    }
}

/// The order of labels depends on nothing but the labels: two increasing
/// sequences that hold the same texts are the same sequence.
pub proof fn lemma_ordering_is_unique(a: Seq<Seq<char>>, b: Seq<Seq<char>>)
    requires
        increasing(a),
        increasing(b),
        same_texts(a, b),
    ensures
        a == b,
    decreases a.len(),
{
    if a.len() == 0 {
        if b.len() > 0 {
            assert(b.contains(b[0]));
            assert(a.contains(b[0]));
        }
        assert(a =~= b);
    } else {
        assert(a.contains(a[0]));
        assert(b.contains(a[0]));
        assert(b.contains(b[0]));
        assert(a.contains(b[0]));
        lemma_increasing_tail(a);
        lemma_increasing_tail(b);
        if a[0] != b[0] {
            assert(b.drop_first().contains(a[0]));
            assert(a.drop_first().contains(b[0]));
            lemma_precedes_transitive(a[0], b[0], a[0]);
            lemma_precedes_irreflexive(a[0]);
        }
        let x = a.drop_first();
        let y = b.drop_first();
        assert forall|text: Seq<char>|
            #![trigger x.contains(text)]
            #![trigger y.contains(text)]
            x.contains(text) <==> y.contains(text) by {
            if x.contains(text) {
                assert(a.contains(text));
                assert(b.contains(text));
            }
            if y.contains(text) {
                assert(b.contains(text));
                assert(a.contains(text));
            }
        }
        lemma_ordering_is_unique(x, y);
        assert(a =~= seq![a[0]] + x);
        assert(b =~= seq![b[0]] + y);
    }
}

} // verus!
