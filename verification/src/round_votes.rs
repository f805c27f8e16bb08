//! Weighted vote tally for one round: one `VoteCount` per vote type.  Each
//! count accumulates the weight behind nil and behind every distinct value
//! voted for, and reports which quorum threshold the latest vote crossed:
//! a `Value(v)` threshold means the weight on `v` itself passed two thirds.

use vstd::pervasive::VecAdditionalExecFns;
use vstd::prelude::*;

use crate::{Value, Vote, VoteType};

verus! {

/// Accumulator addition, capped at `i64::MAX` so the tally is total even if
/// a caller feeds more weight than the configured total.  Below the cap it
/// is plain addition, which is the only range the protocol ever reaches.
pub open spec fn sat_add64(a: i64, b: i64) -> i64 {
    if a + b <= i64::MAX {
        (a + b) as i64
    } else {
        i64::MAX
    }
}

/// Strictly more than two thirds of `total`, in integer arithmetic.
pub open spec fn quorum(x: int, total: int) -> bool {
    3 * x > 2 * total
}

/// The quorum thresholds a tally can report, from weakest to strongest.
#[derive(Copy, Clone, Debug, PartialEq, Eq, Structural)]
pub enum Thresh {
    /// No quorum yet.
    Init,
    /// A quorum of votes, but not concentrated on one value or on nil.
    Any,
    /// A quorum of votes for nil.
    Nil,
    /// A quorum of votes for this value.
    Value(Value),
}

/// A value and the weight of the votes for it.
#[derive(Copy, Clone, Debug, PartialEq, Eq, Structural)]
pub struct ValueWeight {
    pub value: Value,
    pub weight: i64,
}

/// The first entry carrying `v`, or `-1` when there is none.
pub open spec fn value_index(s: Seq<ValueWeight>, v: Value) -> int
    decreases s.len(),
{
    if s.len() == 0 {
        -1
    } else if s[0].value == v {
        0
    } else {
        let r = value_index(s.drop_first(), v);
        if r < 0 {
            -1
        } else {
            r + 1
        }
    }
}

/// What `value_index` finds: `-1` exactly when no entry carries `v`, else
/// the first entry that does.
pub proof fn lemma_value_index(s: Seq<ValueWeight>, v: Value)
    ensures
        ({
            let i = value_index(s, v);
            &&& (i == -1 ==> forall|k: int| 0 <= k < s.len() ==> (#[trigger] s[k]).value != v)
            &&& (i != -1 ==> 0 <= i < s.len() && s[i].value == v && forall|k: int|
                0 <= k < i ==> (#[trigger] s[k]).value != v)
        }),
    decreases s.len(),
{
    if s.len() > 0 && s[0].value != v {
        lemma_value_index(s.drop_first(), v);
        assert forall|k: int| 1 <= k < s.len() implies s.drop_first()[k - 1] == s[k] by {}
    }
}

/// The first entry whose weight alone has a quorum, or `-1`.
pub open spec fn first_quorum_index(s: Seq<ValueWeight>, total: i64) -> int
    decreases s.len(),
{
    if s.len() == 0 {
        -1
    } else if quorum(s[0].weight as int, total as int) {
        0
    } else {
        let r = first_quorum_index(s.drop_first(), total);
        if r < 0 {
            -1
        } else {
            r + 1
        }
    }
}

/// What `first_quorum_index` finds: `-1` exactly when no entry has a
/// quorum of its own, else the first entry that does.
pub proof fn lemma_first_quorum_index(s: Seq<ValueWeight>, total: i64)
    ensures
        ({
            let i = first_quorum_index(s, total);
            &&& (i == -1 ==> forall|k: int|
                0 <= k < s.len() ==> !quorum((#[trigger] s[k]).weight as int, total as int))
            &&& (i != -1 ==> 0 <= i < s.len() && quorum(s[i].weight as int, total as int)
                && forall|k: int|
                0 <= k < i ==> !quorum((#[trigger] s[k]).weight as int, total as int))
        }),
    decreases s.len(),
{
    if s.len() > 0 && !quorum(s[0].weight as int, total as int) {
        lemma_first_quorum_index(s.drop_first(), total);
        assert forall|k: int| 1 <= k < s.len() implies s.drop_first()[k - 1] == s[k] by {}
    }
}

/// The mathematical content of a `VoteCount`.
#[verifier::ext_equal]
pub struct VoteCountModel {
    /// Weight of votes for nil.
    pub nil: i64,
    /// One entry per distinct value voted for, in order of first vote.
    pub values: Seq<ValueWeight>,
    /// The combined weight of all non-nil votes, capped like each entry.
    pub value_total: i64,
    /// Configured total voting power of the validator set.
    pub total: i64,
}

impl VoteCountModel {
    pub open spec fn wf(self) -> bool {
        &&& 0 <= self.nil
        &&& 0 <= self.value_total
        &&& 0 <= self.total
        &&& forall|i: int| 0 <= i < self.values.len() ==> 0 <= (#[trigger] self.values[i]).weight
        &&& forall|i: int, j: int|
            0 <= i < j < self.values.len() ==> (#[trigger] self.values[i]).value
                != (#[trigger] self.values[j]).value
    }

    /// The cumulative weight the tally holds for `v`.
    pub open spec fn weight_of(self, v: Value) -> int {
        let i = value_index(self.values, v);
        if i < 0 {
            0
        } else {
            self.values[i].weight as int
        }
    }

    /// The count after one `add_vote` call: the weight goes to nil or to
    /// the entry of the voted value, created on first sight.
    pub open spec fn after(self, vote: Vote, weight: i64) -> VoteCountModel {
        match vote.value {
            Some(v) => {
                let i = value_index(self.values, v);
                VoteCountModel {
                    values: if i < 0 {
                        self.values.push(ValueWeight { value: v, weight })
                    } else {
                        self.values.update(
                            i,
                            ValueWeight { value: v, weight: sat_add64(self.values[i].weight, weight) },
                        )
                    },
                    value_total: sat_add64(self.value_total, weight),
                    ..self
                }
            },
            None => VoteCountModel { nil: sat_add64(self.nil, weight), ..self },
        }
    }

    /// The strongest threshold the accumulators justify, in the priority
    /// order value, nil, any: a value whose own weight has a quorum wins
    /// (the first such, in order of first vote); then a nil quorum; then a
    /// quorum of all votes combined.
    pub open spec fn thresh(self) -> Thresh {
        let q = first_quorum_index(self.values, self.total);
        if q >= 0 {
            Thresh::Value(self.values[q].value)
        } else if quorum(self.nil as int, self.total as int) {
            Thresh::Nil
        } else if quorum(self.value_total + self.nil, self.total as int) {
            Thresh::Any
        } else {
            Thresh::Init
        }
    }
}

/// Quorum correctness over the per-value weights: a `Value` threshold is
/// reported exactly when some value's own cumulative weight strictly
/// exceeds two thirds of the total, and the reported value is such a one;
/// `Nil` exactly when no value has that but nil does; `Any` exactly when
/// only the combined weight has; `Init` otherwise.
pub proof fn lemma_threshold_correct(c: VoteCountModel)
    requires
        c.wf(),
    ensures
        (c.thresh() matches Thresh::Value(v) ==> quorum(c.weight_of(v), c.total as int)),
        (exists|i: int|
            0 <= i < c.values.len() && quorum((#[trigger] c.values[i]).weight as int, c.total as int))
            <==> (c.thresh() matches Thresh::Value(_)),
        c.thresh() == Thresh::Nil <==> !(exists|i: int|
            0 <= i < c.values.len() && quorum((#[trigger] c.values[i]).weight as int, c.total as int))
            && quorum(c.nil as int, c.total as int),
        c.thresh() == Thresh::Any <==> !(exists|i: int|
            0 <= i < c.values.len() && quorum((#[trigger] c.values[i]).weight as int, c.total as int))
            && !quorum(c.nil as int, c.total as int) && quorum(
            c.value_total + c.nil,
            c.total as int,
        ),
        c.thresh() == Thresh::Init <==> !(exists|i: int|
            0 <= i < c.values.len() && quorum((#[trigger] c.values[i]).weight as int, c.total as int))
            && !quorum(c.nil as int, c.total as int) && !quorum(
            c.value_total + c.nil,
            c.total as int,
        ),
{
    lemma_first_quorum_index(c.values, c.total);
    let q = first_quorum_index(c.values, c.total);
    if q >= 0 {
        // The reported value's first entry is the quorate one, because the
        // values are distinct.
        lemma_value_index(c.values, c.values[q].value);
        let j = value_index(c.values, c.values[q].value);
        assert(j != -1);
        if j < q {
            assert(c.values[j].value != c.values[q].value);
        }
        if q < j {
            assert(c.values[q].value != c.values[j].value);
        }
        assert(j == q);
    }
}

/// Tallies votes of a single type for a single round.  Votes are for nil
/// or for some value; each distinct value has its own accumulator.  The
/// quorum test is against the configured total voting power, not against
/// the weight observed so far.  Duplicate detection belongs to the caller:
/// the same vote submitted twice is counted twice.
#[derive(Debug, PartialEq)]
pub struct VoteCount {
    pub nil: i64,
    pub values: Vec<ValueWeight>,
    pub value_total: i64,
    pub total: i64,
}

impl View for VoteCount {
    type V = VoteCountModel;

    open spec fn view(&self) -> VoteCountModel {
        VoteCountModel {
            nil: self.nil,
            values: self.values@,
            value_total: self.value_total,
            total: self.total,
        }
    }
}

impl VoteCount {
    pub open spec fn wf(self) -> bool {
        self@.wf()
    }

    pub fn new(total: i64) -> (c: VoteCount)
        requires
            0 <= total,
        ensures
            c@ == (VoteCountModel {
                nil: 0,
                values: Seq::<ValueWeight>::empty(),
                value_total: 0,
                total,
            }),
            c.wf(),
    {
        let values: Vec<ValueWeight> = Vec::new();
        let c = VoteCount { nil: 0, values, value_total: 0, total };
        proof {
            assert(c@.values =~= Seq::<ValueWeight>::empty());
            assert(c@ =~= (VoteCountModel {
                nil: 0,
                values: Seq::<ValueWeight>::empty(),
                value_total: 0,
                total,
            }));
        }
        c
    }

    /// The first entry carrying `v`, if any.
    fn find_value(&self, v: Value) -> (o: Option<usize>)
        ensures
            match o {
                Some(i) => i < self.values@.len() && self.values@[i as int].value == v
                    && value_index(self.values@, v) == i,
                None => value_index(self.values@, v) == -1,
            },
    {
        let n = self.values.len();
        let mut i: usize = 0;
        while i < n
            invariant
                i <= n,
                n == self.values@.len(),
                forall|k: int| 0 <= k < i ==> (#[trigger] self.values@[k]).value != v,
            decreases n - i,
        {
            if self.values[i].value == v {
                proof {
                    lemma_value_index(self.values@, v);
                }
                return Some(i);
            }
            i += 1;
        }
        proof {
            lemma_value_index(self.values@, v);
        }
        None
    }

    /// The value of the first entry whose own weight has a quorum, if any.
    fn find_quorum(&self) -> (o: Option<Value>)
        ensures
            ({
                let q = first_quorum_index(self.values@, self.total);
                match o {
                    Some(v) => q >= 0 && v == self.values@[q].value,
                    None => q == -1,
                }
            }),
    {
        let n = self.values.len();
        let mut i: usize = 0;
        while i < n
            invariant
                i <= n,
                n == self.values@.len(),
                forall|k: int|
                    0 <= k < i ==> !quorum(
                        (#[trigger] self.values@[k]).weight as int,
                        self.total as int,
                    ),
            decreases n - i,
        {
            if is_quorum(self.values[i].weight, self.total) {
                proof {
                    lemma_first_quorum_index(self.values@, self.total);
                }
                return Some(self.values[i].value);
            }
            i += 1;
        }
        proof {
            lemma_first_quorum_index(self.values@, self.total);
        }
        None
    }

    /// Add `weight` behind the vote's choice and report the strongest
    /// threshold now reached.
    pub fn add_vote(&mut self, vote: Vote, weight: i64) -> (t: Thresh)
        requires
            old(self).wf(),
            0 <= weight,
        ensures
            final(self)@ == old(self)@.after(vote, weight),
            t == final(self)@.thresh(),
            final(self).wf(),
    {
        match vote.value {
            Some(v) => {
                match self.find_value(v) {
                    Some(i) => {
                        let w0 = self.values[i].weight;
                        self.values.set(i, ValueWeight { value: v, weight: cap_add(w0, weight) });
                        proof {
                            assert forall|a: int, b: int|
                                0 <= a < b < self.values@.len() implies (
                            #[trigger] self.values@[a]).value != (#[trigger] self.values@[b]).value by {
                                assert(old(self).values@[a].value != old(self).values@[b].value);
                            }
                        }
                    },
                    None => {
                        proof {
                            lemma_value_index(self.values@, v);
                        }
                        self.values.push(ValueWeight { value: v, weight });
                        proof {
                            assert forall|a: int, b: int|
                                0 <= a < b < self.values@.len() implies (
                            #[trigger] self.values@[a]).value != (#[trigger] self.values@[b]).value by {
                                if b < self.values@.len() - 1 {
                                    assert(old(self).values@[a].value != old(
                                        self,
                                    ).values@[b].value);
                                } else {
                                    assert(old(self).values@[a].value != v);
                                }
                            }
                        }
                    },
                }
                self.value_total = cap_add(self.value_total, weight);
                proof {
                    assert(self@ =~= old(self)@.after(vote, weight));
                }
            },
            None => {
                self.nil = cap_add(self.nil, weight);
                proof {
                    assert(self@ =~= old(self)@.after(vote, weight));
                }
            },
        }
        match self.find_quorum() {
            Some(v) => Thresh::Value(v),
            None => {
                if is_quorum(self.nil, self.total) {
                    Thresh::Nil
                } else if is_quorum_sum(self.value_total, self.nil, self.total) {
                    Thresh::Any
                } else {
                    Thresh::Init
                }
            },
        }
    }
}

/// Capped addition of non-negative weights; see `sat_add64`.
fn cap_add(a: i64, b: i64) -> (r: i64)
    requires
        0 <= a,
        0 <= b,
    ensures
        r == sat_add64(a, b),
{
    if a <= i64::MAX - b {
        a + b
    } else {
        i64::MAX
    }
}

/// `3 * value > 2 * total`, computed widely enough that it cannot overflow.
fn is_quorum(value: i64, total: i64) -> (b: bool)
    ensures
        b == quorum(value as int, total as int),
{
    3 * (value as i128) > 2 * (total as i128)
}

/// Quorum test for the combined weight of two accumulators.
fn is_quorum_sum(a: i64, b: i64, total: i64) -> (r: bool)
    ensures
        r == quorum(a + b, total as int),
{
    3 * (a as i128 + b as i128) > 2 * (total as i128)
}

/// The mathematical content of a `RoundVotes`.
#[verifier::ext_equal]
pub struct RoundVotesModel {
    pub height: i64,
    pub round: i64,
    pub prevotes: VoteCountModel,
    pub precommits: VoteCountModel,
}

impl RoundVotesModel {
    pub open spec fn wf(self) -> bool {
        &&& self.prevotes.wf()
        &&& self.precommits.wf()
        &&& self.prevotes.total == self.precommits.total
    }

    /// The round tally after one `add_vote` call.
    pub open spec fn after(self, vote: Vote, weight: i64) -> RoundVotesModel {
        match vote.typ {
            VoteType::Prevote => RoundVotesModel {
                prevotes: self.prevotes.after(vote, weight),
                ..self
            },
            VoteType::Precommit => RoundVotesModel {
                precommits: self.precommits.after(vote, weight),
                ..self
            },
        }
    }

    /// The threshold that `add_vote` reports: the one of the count the
    /// vote type selects.
    pub open spec fn thresh_for(self, typ: VoteType) -> Thresh {
        match typ {
            VoteType::Prevote => self.prevotes.thresh(),
            VoteType::Precommit => self.precommits.thresh(),
        }
    }

    /// The total weight observed in this round, over both vote types.
    pub open spec fn weight_seen(self) -> int {
        self.prevotes.nil + self.prevotes.value_total + self.precommits.nil
            + self.precommits.value_total
    }
}

/// Tracks all the votes for a single round: one count per vote type.
#[derive(Debug, PartialEq)]
pub struct RoundVotes {
    pub height: i64,
    pub round: i64,
    pub prevotes: VoteCount,
    pub precommits: VoteCount,
}

impl View for RoundVotes {
    type V = RoundVotesModel;

    open spec fn view(&self) -> RoundVotesModel {
        RoundVotesModel {
            height: self.height,
            round: self.round,
            prevotes: self.prevotes@,
            precommits: self.precommits@,
        }
    }
}

/// A round tally for round `round` that has seen no votes yet.
pub open spec fn fresh_round_votes(height: i64, round: i64, total: i64) -> RoundVotesModel {
    RoundVotesModel {
        height,
        round,
        prevotes: VoteCountModel {
            nil: 0,
            values: Seq::<ValueWeight>::empty(),
            value_total: 0,
            total,
        },
        precommits: VoteCountModel {
            nil: 0,
            values: Seq::<ValueWeight>::empty(),
            value_total: 0,
            total,
        },
    }
}

impl RoundVotes {
    pub open spec fn wf(self) -> bool {
        self@.wf()
    }

    pub fn new(height: i64, round: i64, total: i64) -> (rv: RoundVotes)
        requires
            0 <= total,
        ensures
            rv@ == fresh_round_votes(height, round, total),
            rv.wf(),
    {
        let rv = RoundVotes {
            height,
            round,
            prevotes: VoteCount::new(total),
            precommits: VoteCount::new(total),
        };
        proof {
            assert(rv@ =~= fresh_round_votes(height, round, total));
        }
        rv
    }

    /// Dispatch the vote to the count of its type and report that count's
    /// threshold.
    pub fn add_vote(&mut self, vote: Vote, weight: i64) -> (t: Thresh)
        requires
            old(self).wf(),
            0 <= weight,
        ensures
            final(self)@ == old(self)@.after(vote, weight),
            t == final(self)@.thresh_for(vote.typ),
            final(self).wf(),
    {
        let t = match vote.typ {
            VoteType::Prevote => self.prevotes.add_vote(vote, weight),
            VoteType::Precommit => self.precommits.add_vote(vote, weight),
        };
        proof {
            assert(self@ =~= old(self)@.after(vote, weight));
        }
        t
    }
}

} // verus!
