use crate::error::LogError;
use crate::writer::LogWriter;
use vstd::prelude::*;

verus! {

/// The next move of a fan-out: hand the line to a member, or finish with a result.
#[derive(Debug)]
pub enum FanOut {
    Deliver(usize),
    Finish(Result<(), LogError>),
}

/// How a fan-out over `n` members starts: with the first member, or at once
/// with success when there is none.
pub open spec fn first_step(n: nat) -> FanOut {
    if n > 0 {
        FanOut::Deliver(0)
    } else {
        FanOut::Finish(Ok(()))
    }
}

/// The move after member `at` answered `outcome`: the first failure ends the
/// fan-out with that failure; a success moves on to the next member, or ends
/// with success after the last one.
pub open spec fn next_step(n: nat, at: nat, outcome: Result<(), LogError>) -> FanOut {
    match outcome {
        Err(e) => FanOut::Finish(Err(e)),
        Ok(()) => {
            if at + 1 < n {
                FanOut::Deliver((at + 1) as usize)
            } else {
                FanOut::Finish(Ok(()))
            }
        },
    }
}

/// The members, in order, that receive the line from member `at` on, where
/// member `i` answers `outcomes[i]`.
pub open spec fn deliveries_from(n: nat, outcomes: Seq<Result<(), LogError>>, at: nat) -> Seq<nat>
    decreases n - at,
{
    if at >= n {
        seq![]
    } else {
        match next_step(n, at, outcomes[at as int]) {
            FanOut::Deliver(j) => if j > at {
                seq![at] + deliveries_from(n, outcomes, j as nat)
            } else {
                seq![at]
            },
            FanOut::Finish(_) => seq![at],
        }
    }
}

/// The result that the fan-out ends with from member `at` on.
pub open spec fn result_from(n: nat, outcomes: Seq<Result<(), LogError>>, at: nat) -> Result<
    (),
    LogError,
>
    decreases n - at,
{
    if at >= n {
        Ok(())
    } else {
        match next_step(n, at, outcomes[at as int]) {
            FanOut::Deliver(j) => if j > at {
                result_from(n, outcomes, j as nat)
            } else {
                Ok(())
            },
            FanOut::Finish(r) => r,
        }
    }
}

/// The members, in order, that receive the line in a whole fan-out.
pub open spec fn deliveries(n: nat, outcomes: Seq<Result<(), LogError>>) -> Seq<nat> {
    match first_step(n) {
        FanOut::Deliver(j) => deliveries_from(n, outcomes, j as nat),
        FanOut::Finish(_) => seq![],
    }
}

/// The result of a whole fan-out.
pub open spec fn fan_out_result(n: nat, outcomes: Seq<Result<(), LogError>>) -> Result<(), LogError> {
    match first_step(n) {
        FanOut::Deliver(j) => result_from(n, outcomes, j as nat),
        FanOut::Finish(r) => r,
    }
}

/// Presents an ordered collection of writers as one: a line goes to each member
/// in the order of registration, and the first failure stops the fan-out.
pub struct CompositeWriter<W> {
    writers: Vec<W>,
}

impl<W> View for CompositeWriter<W> {
    type V = Seq<W>;

    closed spec fn view(&self) -> Seq<W> {
        self.writers@
    }
}

impl<W> CompositeWriter<W> {
    /// An empty composite.
    pub fn new() -> (r: Self)
        ensures
            r@ == Seq::<W>::empty(),
    {
        CompositeWriter { writers: Vec::new() }
    }

    /// Registers a writer after those already there.
    pub fn add_writer(&mut self, writer: W)
        ensures
            final(self)@ == old(self)@.push(writer),
    {
        self.writers.push(writer);
    }

    /// The number of members.
    pub fn len(&self) -> (r: usize)
        ensures
            r == self@.len(),
    {
        self.writers.len()
    }

    /// The member at position `i`.
    pub fn member(&self, i: usize) -> (r: &W)
        requires
            i < self@.len(),
        ensures
            *r == self@[i as int],
    {
        &self.writers[i]
    }

    /// How a fan-out over the members starts.
    pub fn begin(&self) -> (r: FanOut)
        ensures
            r == first_step(self@.len()),
    {
        if self.writers.len() > 0 {
            FanOut::Deliver(0)
        } else {
            FanOut::Finish(Ok(()))
        }
    }

    /// The move after member `at` answered `outcome`.
    pub fn after(&self, at: usize, outcome: Result<(), LogError>) -> (r: FanOut)
        requires
            at < self@.len(),
        ensures
            r == next_step(self@.len(), at as nat, outcome),
    {
        match outcome {
            Err(e) => FanOut::Finish(Err(e)),
            Ok(()) => {
                if at < self.writers.len() - 1 {
                    FanOut::Deliver(at + 1)
                } else {
                    FanOut::Finish(Ok(()))
                }
            },
        }
    }
}

impl<W> Default for CompositeWriter<W> {
    fn default() -> (r: Self)
        ensures
            r@ == Seq::<W>::empty(),
    {
        Self::new()
    }
}

impl<W: LogWriter> LogWriter for CompositeWriter<W> {
    /// Some outcomes of the members lead, by the fan-out steps, to `r`, and
    /// each member that the line was handed to gave its outcome for `m`.
    open spec fn wrote(&self, m: Seq<char>, r: Result<(), LogError>) -> bool {
        exists|outs: Seq<Result<(), LogError>>|
            #![trigger fan_out_result(self@.len(), outs)]
            {
                &&& outs.len() == self@.len()
                &&& forall|i: int|
                    0 <= i < deliveries(self@.len(), outs).len() ==> #[trigger] self@[i].wrote(
                        m,
                        outs[i],
                    )
                &&& r == fan_out_result(self@.len(), outs)
            }
    }

    /// Hands the line to each member in registration order, stopping at the
    /// first failure and returning it; an empty composite succeeds at once.
    fn write(&self, message: &str) -> (r: Result<(), LogError>)
        ensures
            self@.len() == 0 ==> r == Ok::<(), LogError>(()),
    {
        let n = self.writers.len();
        let mut step = self.begin();
        let ghost mut outs: Seq<Result<(), LogError>> = seq![];
        loop
            invariant
                n == self@.len(),
                outs.len() <= n,
                forall|j: int| 0 <= j < outs.len() ==> #[trigger] self@[j].wrote(message@, outs[j]),
                step matches FanOut::Deliver(i) ==> i < n && outs.len() == i && forall|j: int|
                    0 <= j < i ==> #[trigger] outs[j] is Ok,
                step matches FanOut::Finish(res) ==> {
                    ||| (outs.len() == n && res == Ok::<(), LogError>(()) && forall|j: int|
                        0 <= j < n ==> #[trigger] outs[j] is Ok)
                    ||| (outs.len() > 0 && outs.last() is Err && res == outs.last() && forall|
                        j: int,
                    | 0 <= j < outs.len() - 1 ==> #[trigger] outs[j] is Ok)
                },
            decreases
                match step {
                    FanOut::Deliver(i) => n - i,
                    FanOut::Finish(_) => 0,
                },
        {
            match step {
                FanOut::Deliver(i) => {
                    let outcome = self.writers[i].write(message);
                    proof {
                        outs = outs.push(outcome);
                    }
                    step = self.after(i, outcome);
                },
                FanOut::Finish(result) => {
                    proof {
                        let full: Seq<Result<(), LogError>>;
                        let k: nat;
                        if result is Ok {
                            full = outs;
                            k = n as nat;
                        } else {
                            full = outs + Seq::new(
                                (n - outs.len()) as nat,
                                |j: int| Ok::<(), LogError>(()),
                            );
                            k = (outs.len() - 1) as nat;
                            assert(full[k as int] == outs.last());
                        }
                        assert forall|j: int| 0 <= j < k implies full[j] is Ok by {
                            assert(full[j] == outs[j]);
                        }
                        lemma_fan_out_order(n as nat, full, k);
                        assert forall|i: int|
                            0 <= i < deliveries(n as nat, full).len() implies #[trigger] self@[i].wrote(
                            message@,
                            full[i],
                        ) by {
                            assert(full[i] == outs[i]);
                        }
                        assert(fan_out_result(self@.len(), full) == result);
                    }
                    return result;
                },
            }
        }
    }
}

proof fn lemma_fan_out_from(
    n: nat,
    outcomes: Seq<Result<(), LogError>>,
    at: nat,
    k: nat,
)
    requires
        at <= k <= n,
        n <= outcomes.len(),
        n <= usize::MAX,
        forall|i: int| at <= i < k ==> outcomes[i] is Ok,
        k < n ==> outcomes[k as int] is Err,
    ensures
        deliveries_from(n, outcomes, at) == Seq::new(
            (if k < n {
                k + 1
            } else {
                k
            } - at) as nat,
            |i: int| (at + i) as nat,
        ),
        result_from(n, outcomes, at) == if k < n {
            outcomes[k as int]
        } else {
            Ok(())
        },
    decreases n - at,
{
    let want = Seq::new(
        (if k < n {
            k + 1
        } else {
            k
        } - at) as nat,
        |i: int| (at + i) as nat,
    );
    if at >= n {
        assert(deliveries_from(n, outcomes, at) =~= want);
    } else if at == k {
        assert(next_step(n, at, outcomes[at as int]) is Finish);
        assert(deliveries_from(n, outcomes, at) =~= want);
    } else {
        lemma_fan_out_from(n, outcomes, at + 1, k);
        assert(next_step(n, at, outcomes[at as int]) == if at + 1 < n {
            FanOut::Deliver((at + 1) as usize)
        } else {
            FanOut::Finish(Ok(()))
        });
        if at + 1 < n {
            assert(deliveries_from(n, outcomes, at) == seq![at] + deliveries_from(
                n,
                outcomes,
                at + 1,
            ));
        }
        assert(deliveries_from(n, outcomes, at) =~= want);
    }
}

/// A fan-out over `n` members hands the line to members `0, 1, ...` in
/// registration order, each once, up to and including the first one that
/// fails, and to none after it; it returns that member's error, or success
/// when every member succeeded (at once when there is none). `n` counts the
/// members of a composite, so it fits a `usize`.
pub proof fn lemma_fan_out_order(n: nat, outcomes: Seq<Result<(), LogError>>, k: nat)
    requires
        k <= n <= outcomes.len(),
        n <= usize::MAX,
        forall|i: int| 0 <= i < k ==> outcomes[i] is Ok,
        k < n ==> outcomes[k as int] is Err,
    ensures
        deliveries(n, outcomes) == Seq::new(
            if k < n {
                k + 1
            } else {
                k
            },
            |i: int| i as nat,
        ),
        fan_out_result(n, outcomes) == if k < n {
            outcomes[k as int]
        } else {
            Ok(())
        },
{
    if n > 0 {
        lemma_fan_out_from(n, outcomes, 0, k);
        assert(deliveries(n, outcomes) =~= Seq::new(
            if k < n {
                k + 1
            } else {
                k
            },
            |i: int| i as nat,
        ));
    } else {
        assert(deliveries(n, outcomes) =~= Seq::new(
            if k < n {
                k + 1
            } else {
                k
            },
            |i: int| i as nat,
        ));
    }
}

/// The first member from `from` on whose outcome is a failure, or `n`.
pub open spec fn first_failure(outcomes: Seq<Result<(), LogError>>, from: nat, n: nat) -> nat
    decreases n - from,
{
    if from >= n {
        n
    } else if outcomes[from as int] is Err {
        from
    } else {
        first_failure(outcomes, from + 1, n)
    }
}

proof fn lemma_first_failure(outcomes: Seq<Result<(), LogError>>, from: nat, n: nat)
    requires
        from <= n <= outcomes.len(),
    ensures
        from <= first_failure(outcomes, from, n) <= n,
        forall|j: int| from <= j < first_failure(outcomes, from, n) ==> outcomes[j] is Ok,
        first_failure(outcomes, from, n) < n ==> outcomes[first_failure(outcomes, from, n) as int] is Err,
    decreases n - from,
{
    if from < n && outcomes[from as int] is Ok {
        lemma_first_failure(outcomes, from + 1, n);
    }
}

/// Fanning a line out over the members of one list and then, only if all of
/// them succeeded, over those of a second list, reaches the same members in
/// the same order and ends with the same result as fanning it out over the two
/// lists joined: a composite nested in a composite acts as its members would
/// in its place.
pub proof fn lemma_fan_out_concat(
    n1: nat,
    o1: Seq<Result<(), LogError>>,
    n2: nat,
    o2: Seq<Result<(), LogError>>,
)
    requires
        o1.len() == n1,
        o2.len() == n2,
        n1 + n2 <= usize::MAX,
    ensures
        fan_out_result(n1 + n2, o1 + o2) == if fan_out_result(n1, o1) is Err {
            fan_out_result(n1, o1)
        } else {
            fan_out_result(n2, o2)
        },
        deliveries(n1 + n2, o1 + o2) == if fan_out_result(n1, o1) is Err {
            deliveries(n1, o1)
        } else {
            deliveries(n1, o1) + deliveries(n2, o2).map_values(|i: nat| i + n1)
        },
{
    let o = o1 + o2;
    let n = n1 + n2;
    lemma_first_failure(o1, 0, n1);
    let k1 = first_failure(o1, 0, n1);
    lemma_fan_out_order(n1, o1, k1);
    if k1 < n1 {
        assert forall|j: int| 0 <= j < k1 implies o[j] is Ok by {
            assert(o[j] == o1[j]);
        }
        assert(o[k1 as int] == o1[k1 as int]);
        lemma_fan_out_order(n, o, k1);
        assert(deliveries(n, o) =~= deliveries(n1, o1));
    } else {
        lemma_first_failure(o2, 0, n2);
        let k2 = first_failure(o2, 0, n2);
        lemma_fan_out_order(n2, o2, k2);
        let k = n1 + k2;
        assert forall|j: int| 0 <= j < k implies o[j] is Ok by {
            if j < n1 {
                assert(o[j] == o1[j]);
            } else {
                assert(o[j] == o2[j - n1]);
            }
        }
        if k2 < n2 {
            assert(o[k as int] == o2[k2 as int]);
        }
        lemma_fan_out_order(n, o, k);
        assert(deliveries(n, o) =~= deliveries(n1, o1) + deliveries(n2, o2).map_values(
            |i: nat| i + n1,
        ));
    }
}

} // verus!
