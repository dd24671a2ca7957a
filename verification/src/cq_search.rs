//! The search for a scene's constant-quality level: the history of levels
//! found so far, the window it suggests for the first two guesses, and the
//! secant search that walks from the guesses to the level whose measured
//! quality meets the target.
//!
//! A measurement is the difference between the measured and the wanted
//! quality, held as the bit pattern of a binary64 number. The search reads
//! only its sign and its size.

use crate::binary64::{abs_less, abs_lt, is_positive, positive};
use vstd::prelude::*;

verus! {

/// Searches end after this many measurements beyond the first two.
pub const MAX_ITERATIONS: u32 = 10;

/// The bit pattern of 0.005: a measurement no larger than this meets the
/// target.
pub const TOLERANCE: u64 = 0x3F74_7AE1_47AE_147B;

/// The lowest level that a search may settle on.
pub const CQ_MIN: u32 = 10;

/// The highest level that a search may settle on.
pub const CQ_MAX: u32 = 60;

/// The first guesses where the history suggests none.
pub const DEFAULT_WINDOW: (u32, u32) = (20, 40);

/// Entries that the history must hold before it is asked for a window.
pub const HISTORY_THRESHOLD: usize = 10;

/// Whether `s` ascends.
pub open spec fn sorted(s: Seq<u32>) -> bool {
    forall|i: int, j: int| 0 <= i <= j < s.len() ==> s[i] <= s[j]
}

/// The window that a history suggests for the first guesses: the entries
/// one tenth of the way in from either end where they differ and the
/// history holds ten entries or more, the default window otherwise.
pub open spec fn initial_window(history: Seq<u32>) -> (u32, u32) {
    let p = history.len() / 10;
    if history.len() >= HISTORY_THRESHOLD && history[p as int] != history[history.len() - p - 1] {
        (history[p as int], history[history.len() - p - 1])
    } else {
        DEFAULT_WINDOW
    }
}

/// A history of levels within bounds that contain the default window
/// suggests guesses within those bounds.
pub proof fn lemma_window_within_bounds(history: Seq<u32>, min: u32, max: u32)
    requires
        min <= DEFAULT_WINDOW.0,
        DEFAULT_WINDOW.1 <= max,
        forall|i: int| 0 <= i < history.len() ==> min <= #[trigger] history[i] <= max,
    ensures
        min <= initial_window(history).0 <= max,
        min <= initial_window(history).1 <= max,
        sorted(history) ==> initial_window(history).0 <= initial_window(history).1,
{
    let p = history.len() / 10;
    if history.len() >= HISTORY_THRESHOLD {
        assert(min <= history[p as int] <= max);
        assert(min <= history[history.len() - p - 1] <= max);
    }
}

/// The levels found for earlier scenes, in ascending order.
pub struct CqHistory {
    values: Vec<u32>,
}

impl View for CqHistory {
    type V = Seq<u32>;

    closed spec fn view(&self) -> Seq<u32> {
        self.values@
    }
}

impl CqHistory {
    /// Whether the history ascends.
    pub open spec fn wf(&self) -> bool {
        sorted(self@)
    }

    /// The entries.
    pub fn values(&self) -> (values: &Vec<u32>)
        ensures
            values@ == self@,
    {
        &self.values
    }

    /// A history without entries.
    pub fn new() -> (history: CqHistory)
        ensures
            history.wf(),
            history@ == Seq::<u32>::empty(),
    {
        CqHistory { values: Vec::new() }
    }

    /// Number of entries.
    pub fn len(&self) -> (n: usize)
        ensures
            n == self@.len(),
    {
        self.values.len()
    }

    /// The window for the first guesses of the next search.
    pub fn window(&self) -> (guesses: (u32, u32))
        ensures
            guesses == initial_window(self@),
    {
        let len = self.values.len();
        if len >= HISTORY_THRESHOLD {
            let p = len / 10;
            let low = self.values[p];
            let high = self.values[len - p - 1];
            if low != high {
                return (low, high);
            }
        }
        DEFAULT_WINDOW
    }

    /// Adds a level at its place in the order: after all smaller entries
    /// and before all others. Nothing leaves the history.
    pub fn insert(&mut self, cq: u32)
        requires
            old(self).wf(),
        ensures
            final(self).wf(),
            exists|at: int|
                0 <= at <= old(self)@.len() && final(self)@ == #[trigger] old(self)@.insert(at, cq)
                    && (forall|i: int| 0 <= i < at ==> old(self)@[i] < cq) && (forall|i: int|
                    at <= i < old(self)@.len() ==> cq <= old(self)@[i]),
    {
        let ghost before = self.values@;
        let mut low: usize = 0;
        let mut high: usize = self.values.len();
        while low < high
            invariant
                low <= high <= self.values@.len(),
                self.values@ == before,
                sorted(before),
                forall|i: int| 0 <= i < low ==> before[i] < cq,
                forall|i: int| high <= i < before.len() ==> cq <= before[i],
            decreases high - low,
        {
            let mid = low + (high - low) / 2;
            if self.values[mid] < cq {
                low = mid + 1;
            } else {
                high = mid;
            }
        }
        self.values.insert(low, cq);
        assert(self.values@ == before.insert(low as int, cq));
        assert(sorted(self.values@)) by {
            assert forall|i: int, j: int| 0 <= i <= j < self.values@.len() implies self.values@[i]
                <= self.values@[j] by {
                let a = if i < low {
                    i
                } else {
                    i - 1
                };
                let b = if j < low {
                    j
                } else {
                    j - 1
                };
                if i != low && j != low {
                    assert(before[a] <= before[b]);
                }
            }
        }
    }
}

/// The mathematical content of a `SecantSearch`.
pub struct SearchView {
    pub min: u32,
    pub max: u32,
    pub x1: u32,
    pub x2: u32,
    pub fx1: u64,
    pub fx2: u64,
    pub iterations: nat,
    pub pending: bool,
}

impl SearchView {
    /// The search after its first two measurements: it goes on from the
    /// guess whose measurement is the smaller in size, the second guess
    /// only where it is strictly the smaller.
    pub open spec fn started(
        min: u32,
        max: u32,
        guess_min: u32,
        guess_max: u32,
        f_min: u64,
        f_max: u64,
    ) -> SearchView {
        if abs_less(f_max, f_min) {
            SearchView {
                min,
                max,
                x1: guess_max,
                x2: guess_min,
                fx1: f_max,
                fx2: f_min,
                iterations: 0,
                pending: false,
            }
        } else {
            SearchView {
                min,
                max,
                x1: guess_min,
                x2: guess_max,
                fx1: f_min,
                fx2: f_max,
                iterations: 0,
                pending: false,
            }
        }
    }

    /// Whether the search goes on: the last measurement is larger than the
    /// tolerance, and fewer than ten steps were made.
    pub open spec fn unsettled(self) -> bool {
        abs_less(TOLERANCE, self.fx1) && self.iterations < MAX_ITERATIONS
    }

    /// The level to measure next, given the secant's estimate, or `None`
    /// where the search ends. The estimate is brought into the bounds. The
    /// search ends where it would leave the bounds at a bound it is at,
    /// where the estimate is the level it is at, and where it is at the
    /// upper bound with quality to spare.
    pub open spec fn next_probe(self, estimate: u32) -> Option<u32> {
        if !self.unsettled() {
            None
        } else if estimate < self.min {
            if self.x1 == self.min {
                None
            } else {
                self.unless_at_top(self.min)
            }
        } else if estimate > self.max {
            if self.x1 == self.max {
                None
            } else {
                self.unless_at_top(self.max)
            }
        } else if estimate == self.x1 {
            None
        } else {
            self.unless_at_top(estimate)
        }
    }

    /// `next`, unless the search is at the upper bound with quality to
    /// spare.
    pub open spec fn unless_at_top(self, next: u32) -> Option<u32> {
        if self.x1 == self.max && is_positive(self.fx1) {
            None
        } else {
            Some(next)
        }
    }

    /// The search after moving to `next`, whose measurement is awaited.
    pub open spec fn probed(self, next: u32) -> SearchView {
        SearchView { x1: next, x2: self.x1, fx2: self.fx1, pending: true, ..self }
    }

    /// The search after the awaited measurement has come.
    pub open spec fn measured(self, f: u64) -> SearchView {
        SearchView { fx1: f, iterations: self.iterations + 1, pending: false, ..self }
    }

    /// The level that the search settles on: the one it is at where that
    /// leaves quality to spare, else the one below it, but none below the
    /// lower bound.
    pub open spec fn result(self) -> u32 {
        if is_positive(self.fx1) {
            self.x1
        } else if self.x1 >= 1 && self.x1 - 1 >= self.min {
            (self.x1 - 1) as u32
        } else {
            self.min
        }
    }

    /// Whether the search is within its bounds and its count of steps.
    pub open spec fn valid(self) -> bool {
        &&& self.min <= self.x1 <= self.max
        &&& self.iterations <= MAX_ITERATIONS
    }

    /// The search at its end, where `measure(x)` is the measurement at the
    /// level `x` and `secant(s)` the estimate from the state `s`.
    pub open spec fn run(
        self,
        measure: spec_fn(u32) -> u64,
        secant: spec_fn(SearchView) -> u32,
    ) -> SearchView
        decreases MAX_ITERATIONS - self.iterations,
    {
        match self.next_probe(secant(self)) {
            None => self,
            Some(next) => self.probed(next).measured(measure(next)).run(measure, secant),
        }
    }
}

/// A step keeps the search within its bounds.
pub proof fn lemma_probe_within_bounds(view: SearchView, estimate: u32)
    requires
        view.valid(),
    ensures
        view.next_probe(estimate) matches Some(next) ==> view.min <= next <= view.max
            && view.iterations < MAX_ITERATIONS && next != view.x1 && view.probed(next).measured(
            0,
        ).valid(),
        view.min <= view.result() <= view.max,
{
}

/// From any state within the bounds, the search ends after at most ten
/// steps in all, on a level within the bounds.
pub proof fn lemma_run_within_bounds(
    view: SearchView,
    measure: spec_fn(u32) -> u64,
    secant: spec_fn(SearchView) -> u32,
)
    requires
        view.valid(),
    ensures
        view.run(measure, secant).iterations <= MAX_ITERATIONS,
        view.run(measure, secant).next_probe(secant(view.run(measure, secant))) is None,
        view.run(measure, secant).min == view.min,
        view.run(measure, secant).max == view.max,
        view.min <= view.run(measure, secant).result() <= view.max,
    decreases MAX_ITERATIONS - view.iterations,
{
    match view.next_probe(secant(view)) {
        None => {},
        Some(next) => {
            lemma_probe_within_bounds(view, secant(view));
            lemma_run_within_bounds(view.probed(next).measured(measure(next)), measure, secant);
        },
    }
}

/// Whatever is measured and whatever the secant estimates, a search whose
/// first guesses lie within its bounds makes at most ten steps after them
/// and settles on a level within the bounds.
pub proof fn lemma_search_ends_within_bounds(
    min: u32,
    max: u32,
    guess_min: u32,
    guess_max: u32,
    measure: spec_fn(u32) -> u64,
    secant: spec_fn(SearchView) -> u32,
)
    requires
        min <= guess_min <= max,
        min <= guess_max <= max,
    ensures
        ({
            let start = SearchView::started(
                min,
                max,
                guess_min,
                guess_max,
                measure(guess_min),
                measure(guess_max),
            );
            &&& start.run(measure, secant).iterations <= MAX_ITERATIONS
            &&& min <= start.run(measure, secant).result() <= max
        }),
{
    lemma_run_within_bounds(
        SearchView::started(
            min,
            max,
            guess_min,
            guess_max,
            measure(guess_min),
            measure(guess_max),
        ),
        measure,
        secant,
    );
}

/// A secant search between two measurements.
pub struct SecantSearch {
    min: u32,
    max: u32,
    x1: u32,
    x2: u32,
    fx1: u64,
    fx2: u64,
    iterations: u32,
    pending: bool,
}

impl View for SecantSearch {
    type V = SearchView;

    closed spec fn view(&self) -> SearchView {
        SearchView {
            min: self.min,
            max: self.max,
            x1: self.x1,
            x2: self.x2,
            fx1: self.fx1,
            fx2: self.fx2,
            iterations: self.iterations as nat,
            pending: self.pending,
        }
    }
}

impl SecantSearch {
    /// A search within `[min, max]` from the two guesses and their
    /// measurements.
    pub fn new(
        min: u32,
        max: u32,
        guess_min: u32,
        guess_max: u32,
        f_min: u64,
        f_max: u64,
    ) -> (search: SecantSearch)
        ensures
            search@ == SearchView::started(min, max, guess_min, guess_max, f_min, f_max),
    {
        if abs_lt(f_max, f_min) {
            SecantSearch {
                min,
                max,
                x1: guess_max,
                x2: guess_min,
                fx1: f_max,
                fx2: f_min,
                iterations: 0,
                pending: false,
            }
        } else {
            SecantSearch {
                min,
                max,
                x1: guess_min,
                x2: guess_max,
                fx1: f_min,
                fx2: f_max,
                iterations: 0,
                pending: false,
            }
        }
    }

    /// The level that the search is at.
    pub fn x1(&self) -> (x: u32)
        ensures
            x == self@.x1,
    {
        self.x1
    }

    /// The level that the search was at before.
    pub fn x2(&self) -> (x: u32)
        ensures
            x == self@.x2,
    {
        self.x2
    }

    /// The measurement at the level that the search is at.
    pub fn fx1(&self) -> (f: u64)
        ensures
            f == self@.fx1,
    {
        self.fx1
    }

    /// The measurement at the level that the search was at before.
    pub fn fx2(&self) -> (f: u64)
        ensures
            f == self@.fx2,
    {
        self.fx2
    }

    /// Number of steps made.
    pub fn iterations(&self) -> (n: u32)
        ensures
            n == self@.iterations,
    {
        self.iterations
    }

    /// Whether the search goes on.
    pub fn unsettled(&self) -> (yes: bool)
        ensures
            yes == self@.unsettled(),
    {
        abs_lt(TOLERANCE, self.fx1) && self.iterations < MAX_ITERATIONS
    }

    /// Moves the search to the level to measure next, given the secant's
    /// estimate, and hands that level out; `None`, and no move, where the
    /// search ends.
    pub fn step(&mut self, estimate: u32) -> (probe: Option<u32>)
        requires
            !old(self)@.pending,
        ensures
            probe == old(self)@.next_probe(estimate),
            final(self)@ == match probe {
                Some(next) => old(self)@.probed(next),
                None => old(self)@,
            },
    {
        if !self.unsettled() {
            return None;
        }
        let mut next = estimate;
        if next < self.min {
            if self.x1 == self.min {
                return None;
            }
            next = self.min;
        } else if next > self.max {
            if self.x1 == self.max {
                return None;
            }
            next = self.max;
        } else if next == self.x1 {
            return None;
        }
        if self.x1 == self.max && positive(self.fx1) {
            return None;
        }
        self.x2 = self.x1;
        self.fx2 = self.fx1;
        self.x1 = next;
        self.pending = true;
        Some(next)
    }

    /// Takes the measurement at the level that the search moved to.
    pub fn measured(&mut self, f: u64)
        requires
            old(self)@.pending,
            old(self)@.iterations < MAX_ITERATIONS,
        ensures
            final(self)@ == old(self)@.measured(f),
    {
        self.fx1 = f;
        self.iterations = self.iterations + 1;
        self.pending = false;
    }

    /// The level that the search settles on.
    pub fn result(&self) -> (cq: u32)
        ensures
            cq == self@.result(),
    {
        if positive(self.fx1) {
            self.x1
        } else if self.x1 >= 1 && self.x1 - 1 >= self.min {
            self.x1 - 1
        } else {
            self.min
        }
    }
}

} // verus!
