//! Weighted tables to draw names from.

use vstd::prelude::*;
use rltk::RandomNumberGenerator;
use crate::dice::roll_dice;

verus! {

/// One name and how often it is to be drawn, relative to the others.
#[derive(Clone, Debug)]
pub struct RandomEntry {
    pub name: String,
    pub weight: i32,
}

/// A table of names with weights.
#[derive(Clone, Debug)]
pub struct RandomTable {
    pub entries: Vec<RandomEntry>,
    pub total_weight: i32,
}

/// The mathematical content of a [`RandomTable`]: names and weights in
/// the order in which they were added.
pub struct TableView {
    pub names: Seq<Seq<char>>,
    pub weights: Seq<int>,
    pub total: int,
}

/// Sum of the first `n` of `weights`.
pub open spec fn weight_sum(weights: Seq<int>, n: int) -> int
    decreases n,
{
    if n <= 0 {
        0
    } else {
        weight_sum(weights, n - 1) + weights[n - 1]
    }
}

/// The entry that the number `roll` falls on, looking from entry `from`
/// on: each entry takes as many numbers as its weight, in the order of
/// the entries, starting with 0.
pub open spec fn chosen(weights: Seq<int>, roll: int, from: int) -> Option<int>
    decreases weights.len() - from,
{
    if from < 0 || from >= weights.len() {
        None
    } else if roll < weights[from] {
        Some(from)
    } else {
        chosen(weights, roll - weights[from], from + 1)
    }
}

/// The name drawn when nothing can be drawn.
pub open spec fn nothing() -> Seq<char> {
    "None"@
}

impl View for RandomTable {
    type V = TableView;

    open spec fn view(&self) -> TableView {
        TableView {
            names: Seq::new(self.entries@.len(), |i: int| self.entries@[i].name@),
            weights: Seq::new(self.entries@.len(), |i: int| self.entries@[i].weight as int),
            total: self.total_weight as int,
        }
    }
}

impl TableView {
    /// Every weight is positive, and the total is their sum, which is
    /// less than the largest `i32`.
    pub open spec fn wf(self) -> bool {
        &&& self.names.len() == self.weights.len()
        &&& self.total < i32::MAX
        &&& forall|i: int| 0 <= i < self.weights.len() ==> #[trigger] self.weights[i] > 0
        &&& self.total == weight_sum(self.weights, self.weights.len() as int)
    }

    /// The name drawn for the number `roll`.
    pub open spec fn pick(self, roll: int) -> Seq<char> {
        match chosen(self.weights, roll, 0) {
            Some(k) => self.names[k],
            None => nothing(),
        }
    }

    /// The table with one more entry; an entry without positive weight is
    /// not added.
    pub open spec fn add(self, name: Seq<char>, weight: int) -> TableView {
        if weight > 0 {
            TableView {
                names: self.names.push(name),
                weights: self.weights.push(weight),
                total: self.total + weight,
            }
        } else {
            self
        }
    }
}

/// A number below the sum of the weights from entry `from` on falls on
/// an entry.
pub proof fn lemma_chosen_exists(weights: Seq<int>, roll: int, from: int)
    requires
        0 <= from <= weights.len(),
        forall|i: int| 0 <= i < weights.len() ==> #[trigger] weights[i] > 0,
        0 <= roll < weight_sum(weights, weights.len() as int) - weight_sum(weights, from),
    ensures
        chosen(weights, roll, from).is_some(),
        from <= chosen(weights, roll, from).unwrap() < weights.len(),
    decreases weights.len() - from,
{
    if from == weights.len() {
    } else if roll < weights[from] {
    } else {
        assert(weight_sum(weights, from + 1) == weight_sum(weights, from) + weights[from]);
        lemma_chosen_exists(weights, roll - weights[from], from + 1);
    }
}

/// The sum of the first `n` weights depends on these weights alone.
pub proof fn lemma_weight_sum_prefix(a: Seq<int>, b: Seq<int>, n: int)
    requires
        0 <= n <= a.len(),
        n <= b.len(),
        forall|i: int| 0 <= i < n ==> a[i] == b[i],
    ensures
        weight_sum(a, n) == weight_sum(b, n),
    decreases n,
{
    if n > 0 {
        lemma_weight_sum_prefix(a, b, n - 1);
    }
}

impl RandomTable {
    /// See [`TableView::wf`].
    pub open spec fn wf(&self) -> bool {
        self@.wf()
    }

    /// The table without entries.
    pub fn new() -> (t: RandomTable)
        ensures
            t.wf(),
            t@ == (TableView { names: Seq::empty(), weights: Seq::empty(), total: 0 }),
    {
        let t = RandomTable { entries: Vec::new(), total_weight: 0 };
        assert(t@.names =~= Seq::empty());
        assert(t@.weights =~= Seq::empty());
        t
    }

    /// Adds `name` with `weight`, if the weight is positive.
    pub fn add(self, name: &str, weight: i32) -> (t: RandomTable)
        requires
            self.wf(),
            weight > 0 ==> self@.total + weight < i32::MAX,
        ensures
            t.wf(),
            t@ == self@.add(name@, weight as int),
    {
        let mut t = self;
        if weight > 0 {
            let ghost before = t@;
            t.total_weight = t.total_weight + weight;
            t.entries.push(RandomEntry { name: String::from_str(name), weight });
            proof {
                assert(t@.names =~= before.names.push(name@));
                assert(t@.weights =~= before.weights.push(weight as int));
                lemma_weight_sum_prefix(before.weights, t@.weights, before.weights.len() as int);
            }
        }
        t
    }

    /// The name drawn for the number `roll`: that of the entry on which
    /// `roll` falls, or "None" if it falls on none.
    pub fn pick(&self, roll: i32) -> (name: String)
        requires
            self.wf(),
        ensures
            name@ == self@.pick(roll as int),
    {
        let mut left: i32 = roll;
        let mut index: usize = 0;
        while index < self.entries.len()
            invariant
                self.wf(),
                index <= self.entries@.len(),
                chosen(self@.weights, roll as int, 0) == chosen(self@.weights, left as int, index as int),
            decreases self.entries@.len() - index,
        {
            if left < self.entries[index].weight {
                return self.entries[index].name.clone();
            }
            left = left - self.entries[index].weight;
            index = index + 1;
        }
        String::from_str("None")
    }

    /// Draws a name, each with a chance in proportion to its weight. An
    /// empty table gives "None".
    pub fn roll(&self, rng: &mut RandomNumberGenerator) -> (name: String)
        requires
            self.wf(),
        ensures
            self@.total == 0 ==> name@ == nothing(),
            self@.total > 0 ==> exists|k: int|
                0 <= k < self@.names.len() && name@ == #[trigger] self@.names[k],
    {
        if self.total_weight <= 0 {
            proof {
                if self@.weights.len() > 0 {
                    lemma_sum_positive(self@.weights, self@.weights.len() as int);
                }
            }
            return String::from_str("None");
        }
        let roll: i32 = roll_dice(rng, 1, self.total_weight) - 1;
        proof {
            lemma_total_bound(self@.weights, self@.weights.len() as int);
            lemma_chosen_exists(self@.weights, roll as int, 0);
        }
        self.pick(roll)
    }
}

/// A sum of positive weights is positive.
pub proof fn lemma_sum_positive(weights: Seq<int>, n: int)
    requires
        1 <= n <= weights.len(),
        forall|i: int| 0 <= i < weights.len() ==> #[trigger] weights[i] > 0,
    ensures
        weight_sum(weights, n) > 0,
    decreases n,
{
    lemma_total_bound(weights, n - 1);
}

proof fn lemma_total_bound(weights: Seq<int>, n: int)
    requires
        0 <= n <= weights.len(),
        forall|i: int| 0 <= i < weights.len() ==> #[trigger] weights[i] > 0,
    ensures
        weight_sum(weights, n) >= 0,
    decreases n,
{
    if n > 0 {
        lemma_total_bound(weights, n - 1);
    }
}

} // verus!
