//! The iterates of one solve, in the order in which they were produced.
use vstd::prelude::*;

verus! {

/// The iterate history of one solve: an append-only sequence that starts
/// with the starting point and holds at most `limit + 1` vectors.
pub struct History<T> {
    iterates: Vec<Vec<T>>,
    limit: usize,
}

impl<T> View for History<T> {
    type V = Seq<Vec<T>>;

    /// The iterates, the starting point first.
    closed spec fn view(&self) -> Seq<Vec<T>> {
        self.iterates@
    }
}

impl<T> History<T> {
    /// The number of iterates that may follow the starting point.
    pub closed spec fn limit(&self) -> nat {
        self.limit as nat
    }

    /// The history holds its starting point, and no more iterates after it
    /// than its limit allows.
    pub open spec fn wf(&self) -> bool {
        1 <= self@.len() <= self.limit() + 1
    }

    /// A history that holds the starting point `x0` alone and accepts up
    /// to `limit` iterates after it.
    pub fn new(x0: Vec<T>, limit: usize) -> (h: Self)
        ensures
            h.wf(),
            h@ == seq![x0],
            h.limit() == limit,
    {
        let mut iterates: Vec<Vec<T>> = Vec::new();
        iterates.push(x0);
        History { iterates, limit }
    }

    /// The number of iterates held, the starting point included.
    pub fn len(&self) -> (n: usize)
        ensures
            n == self@.len(),
    {
        self.iterates.len()
    }

    /// Whether the history has taken as many iterates as its limit allows.
    pub fn is_full(&self) -> (full: bool)
        requires
            self.wf(),
        ensures
            full == (self@.len() == self.limit() + 1),
    {
        self.iterates.len() > self.limit
    }

    /// The iterate of index `i`, where the starting point has index 0.
    pub fn get(&self, i: usize) -> (x: Option<&Vec<T>>)
        ensures
            x is Some <==> i < self@.len(),
            x matches Some(v) ==> *v == self@[i as int],
    {
        if i < self.iterates.len() {
            Some(&self.iterates[i])
        } else {
            None
        }
    }

    /// The iterate that was appended last.
    pub fn latest(&self) -> (x: &Vec<T>)
        requires
            self.wf(),
        ensures
            *x == self@.last(),
    {
        &self.iterates[self.iterates.len() - 1]
    }

    /// Appends `x` and answers `true`, unless the history is full: then it
    /// stays as it is and the answer is `false`.
    pub fn push(&mut self, x: Vec<T>) -> (appended: bool)
        requires
            old(self).wf(),
        ensures
            final(self).wf(),
            final(self).limit() == old(self).limit(),
            appended == (old(self)@.len() <= old(self).limit()),
            appended ==> final(self)@ == old(self)@.push(x),
            !appended ==> final(self)@ == old(self)@,
    {
        if self.iterates.len() > self.limit {
            return false;
        }
        self.iterates.push(x);
        true
    }
}

} // verus!
