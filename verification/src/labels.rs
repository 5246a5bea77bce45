//! The set of technology labels found for one page.

use crate::text::{
    ascending, lemma_ascending_distinct, lemma_text_lt_irreflexive, lemma_text_lt_total,
    lemma_text_lt_transitive, same_text, text_less, text_lt,
};
use vstd::prelude::*;

verus! {

/// The texts of a list of strings.
pub open spec fn label_views(labels: Seq<String>) -> Seq<Seq<char>> {
    labels.map_values(|label: String| label@)
}

/// A set of technology labels. A label is any text. The set holds each of
/// its labels once and hands them out in the order of texts.
pub struct DetectionResult {
    labels: Vec<String>,
}

impl View for DetectionResult {
    type V = Set<Seq<char>>;

    closed spec fn view(&self) -> Set<Seq<char>> {
        label_views(self.labels@).to_set()
    }
}

/// Putting a text into an ascending list at its place keeps the list
/// ascending and adds the text to what the list holds.
proof fn lemma_insert_ascending(labels: Seq<Seq<char>>, at: int, label: Seq<char>)
    requires
        ascending(labels),
        0 <= at <= labels.len(),
        forall|k: int| 0 <= k < at ==> text_lt(labels[k], label),
        at < labels.len() ==> text_lt(label, labels[at]),
    ensures
        ascending(labels.insert(at, label)),
        labels.insert(at, label).to_set() == labels.to_set().insert(label),
{
    let longer = labels.insert(at, label);
    assert forall|i: int, j: int| 0 <= i < j < longer.len() implies text_lt(
        longer[i],
        longer[j],
    ) by {
        if j == at {
            assert(longer[i] == labels[i]);
        } else if i == at {
            assert(longer[j] == labels[j - 1]);
            if j - 1 > at {
                lemma_text_lt_transitive(label, labels[at], labels[j - 1]);
            }
        } else {
            let from = if i < at {
                i
            } else {
                i - 1
            };
            let to = if j < at {
                j
            } else {
                j - 1
            };
            assert(longer[i] == labels[from] && longer[j] == labels[to]);
        }
    }
    assert forall|text: Seq<char>| longer.to_set().contains(text) implies labels.to_set().insert(
        label,
    ).contains(text) by {
        let k = choose|k: int| 0 <= k < longer.len() && longer[k] == text;
        if k < at {
            assert(labels[k] == text);
        } else if k > at {
            assert(labels[k - 1] == text);
        }
    }
    assert forall|text: Seq<char>| labels.to_set().insert(label).contains(
        text,
    ) implies longer.to_set().contains(text) by {
        if text == label {
            assert(longer[at] == text);
        } else {
            let k = choose|k: int| 0 <= k < labels.len() && labels[k] == text;
            if k < at {
                assert(longer[k] == text);
            } else {
                assert(longer[k + 1] == text);
            }
        }
    }
    assert(longer.to_set() =~= labels.to_set().insert(label));
}

impl DetectionResult {
    /// The labels are held in ascending order, so each once.
    pub closed spec fn wf(&self) -> bool {
        ascending(label_views(self.labels@))
    }

    /// The set is finite.
    pub proof fn lemma_finite(&self)
        ensures
            self@.finite(),
    {
        vstd::seq_lib::seq_to_set_is_finite(label_views(self.labels@));
    }

    /// The empty set.
    pub fn new() -> (result: DetectionResult)
        ensures
            result.wf(),
            result@ == Set::<Seq<char>>::empty(),
    {
        let result = DetectionResult { labels: Vec::new() };
        assert(label_views(result.labels@).to_set() =~= Set::<Seq<char>>::empty());
        result
    }

    /// Whether `label` is in the set.
    pub fn contains(&self, label: &str) -> (found: bool)
        ensures
            found == self@.contains(label@),
    {
        let mut i: usize = 0;
        while i < self.labels.len()
            invariant
                i <= self.labels.len(),
                forall|k: int| 0 <= k < i ==> label_views(self.labels@)[k] != label@,
            decreases self.labels.len() - i,
        {
            if same_text(self.labels[i].as_str(), label) {
                assert(label_views(self.labels@)[i as int] == label@);
                return true;
            }
            i += 1;
        }
        false
    }

    /// Adds `label` to the set. Returns whether it was new.
    pub fn insert(&mut self, label: &str) -> (added: bool)
        requires
            old(self).wf(),
        ensures
            final(self).wf(),
            final(self)@ == old(self)@.insert(label@),
            added == !old(self)@.contains(label@),
    {
        let ghost held = label_views(self.labels@);
        let mut at: usize = 0;
        while at < self.labels.len() && text_less(self.labels[at].as_str(), label)
            invariant
                at <= self.labels.len(),
                held == label_views(self.labels@),
                forall|k: int| 0 <= k < at ==> text_lt(held[k], label@),
            decreases self.labels.len() - at,
        {
            assert(held[at as int] == self.labels@[at as int]@);
            at += 1;
        }
        if at < self.labels.len() && same_text(self.labels[at].as_str(), label) {
            assert(held[at as int] == label@);
            assert(self@.insert(label@) =~= self@);
            return false;
        }
        proof {
            if at < held.len() {
                assert(held[at as int] == self.labels@[at as int]@);
                lemma_text_lt_total(held[at as int], label@);
            }
            lemma_insert_ascending(held, at as int, label@);
            lemma_text_lt_irreflexive(label@);
            assert(!held.contains(label@)) by {
                if held.contains(label@) {
                    let k = choose|k: int| 0 <= k < held.len() && held[k] == label@;
                    if k > at {
                        assert(text_lt(held[at as int], held[k]));
                        lemma_text_lt_transitive(label@, held[at as int], held[k]);
                    }
                }
            }
        }
        self.labels.insert(at, label.to_owned());
        assert(label_views(self.labels@) =~= held.insert(at as int, label@));
        true
    }

    /// The number of labels in the set.
    pub fn len(&self) -> (count: usize)
        requires
            self.wf(),
        ensures
            count == self@.len(),
    {
        proof {
            lemma_ascending_distinct(label_views(self.labels@));
            label_views(self.labels@).unique_seq_to_set();
        }
        self.labels.len()
    }

    /// Whether the set holds no label.
    pub fn is_empty(&self) -> (empty: bool)
        ensures
            empty == (self@ == Set::<Seq<char>>::empty()),
    {
        proof {
            if self.labels@.len() > 0 {
                assert(label_views(self.labels@)[0] == self.labels@[0]@);
                assert(self@.contains(self.labels@[0]@));
            } else {
                assert(self@ =~= Set::<Seq<char>>::empty());
            }
        }
        self.labels.len() == 0
    }

    /// Adds every label of `other` to the set.
    pub fn extend(&mut self, other: &DetectionResult)
        requires
            old(self).wf(),
        ensures
            final(self).wf(),
            final(self)@ == old(self)@.union(other@),
    {
        let mut i: usize = 0;
        while i < other.labels.len()
            invariant
                i <= other.labels.len(),
                self.wf(),
                self@ == old(self)@.union(label_views(other.labels@).take(i as int).to_set()),
            decreases other.labels.len() - i,
        {
            let ghost seen = label_views(other.labels@).take(i as int);
            self.insert(other.labels[i].as_str());
            proof {
                let next = label_views(other.labels@).take(i + 1);
                assert(next =~= seen.push(other.labels@[i as int]@));
                seen.lemma_push_to_set_commute(other.labels@[i as int]@);
                assert(self@ =~= old(self)@.union(next.to_set()));
            }
            i += 1;
        }
        assert(label_views(other.labels@).take(i as int) == label_views(other.labels@));
    }

    /// Whether the two sets hold the same labels.
    pub fn same_as(&self, other: &DetectionResult) -> (same: bool)
        requires
            self.wf(),
            other.wf(),
        ensures
            same == (self@ == other@),
    {
        proof {
            lemma_ascending_distinct(label_views(self.labels@));
            lemma_ascending_distinct(label_views(other.labels@));
            label_views(self.labels@).unique_seq_to_set();
            label_views(other.labels@).unique_seq_to_set();
            self.lemma_finite();
            other.lemma_finite();
        }
        if self.labels.len() != other.labels.len() {
            return false;
        }
        let mut i: usize = 0;
        while i < self.labels.len()
            invariant
                i <= self.labels.len(),
                forall|k: int| 0 <= k < i ==> other@.contains(label_views(self.labels@)[k]),
            decreases self.labels.len() - i,
        {
            if !other.contains(self.labels[i].as_str()) {
                assert(self@.contains(label_views(self.labels@)[i as int]));
                return false;
            }
            i += 1;
        }
        proof {
            assert(self@.subset_of(other@)) by {
                assert forall|label: Seq<char>| self@.contains(label) implies other@.contains(
                    label,
                ) by {
                    let k = choose|k: int|
                        0 <= k < label_views(self.labels@).len() && label_views(self.labels@)[k]
                            == label;
                    assert(other@.contains(label_views(self.labels@)[k]));
                }
            }
            vstd::set_lib::lemma_subset_equality(self@, other@);
        }
        true
    }

    /// The labels of the set, each once, in the order of texts.
    pub fn labels(&self) -> (labels: Vec<String>)
        requires
            self.wf(),
        ensures
            ascending(label_views(labels@)),
            label_views(labels@).to_set() == self@,
    {
        let mut labels: Vec<String> = Vec::new();
        let mut i: usize = 0;
        while i < self.labels.len()
            invariant
                i <= self.labels.len(),
                label_views(labels@) == label_views(self.labels@).take(i as int),
            decreases self.labels.len() - i,
        {
            let label = self.labels[i].clone();
            let ghost before = label_views(labels@);
            labels.push(label);
            assert(label_views(labels@) =~= before.push(self.labels@[i as int]@));
            assert(label_views(labels@) =~= label_views(self.labels@).take(i + 1));
            i += 1;
        }
        assert(label_views(self.labels@).take(i as int) == label_views(self.labels@));
        labels
    }
}

} // verus!
