use consensus_core::round_votes::{RoundVotes, Thresh};
use consensus_core::{Value, Vote};

#[test]
fn add_votes() {
    let v = Value::new(0);
    let val = Some(v);
    let total = 4;
    let mut round_votes = RoundVotes::new(1, 0, total);
    let weight = 1;

    // add a vote. nothing changes.
    let vote = Vote::new_prevote(0, val);
    let thresh = round_votes.add_vote(vote, weight);
    assert_eq!(thresh, Thresh::Init);

    // add it again, nothing changes.
    let thresh = round_votes.add_vote(vote, weight);
    assert_eq!(thresh, Thresh::Init);

    // add a vote for nil, get Thresh::Any
    let vote_nil = Vote::new_prevote(0, None);
    let thresh = round_votes.add_vote(vote_nil, weight);
    assert_eq!(thresh, Thresh::Any);

    // add vote for value, get Thresh::Value
    let thresh = round_votes.add_vote(vote, weight);
    assert_eq!(thresh, Thresh::Value(v));
}

// With total weight 4 and unit votes, the quorum for one value needs three
// votes: 3*3 > 2*4 but 3*2 is not greater than 2*4.
#[test]
fn quorum_needs_three_of_four() {
    let v = Value::new(0);
    let total = 4;
    let mut rv = RoundVotes::new(1, 0, total);
    let vote = Vote::new_prevote(0, Some(v));
    assert_eq!(rv.add_vote(vote, 1), Thresh::Init);
    assert_eq!(rv.add_vote(vote, 1), Thresh::Init);
    assert_eq!(rv.add_vote(vote, 1), Thresh::Value(v));
}

// Quorum correctness at the exact boundary: with total 3, weight 2 gives
// 3*2 == 2*3 which is not strictly greater, weight 3 crosses it.
#[test]
fn quorum_boundary_is_strict() {
    let v = Value::new(9);
    let mut rv = RoundVotes::new(1, 0, 3);
    let vote = Vote::new_prevote(0, Some(v));
    assert_eq!(rv.add_vote(vote, 2), Thresh::Init);
    assert_eq!(rv.add_vote(vote, 1), Thresh::Value(v));
}

// A quorum of nil prevotes reports Nil, not Any.
#[test]
fn nil_quorum_reports_nil() {
    let mut rv = RoundVotes::new(1, 0, 4);
    let nil_vote = Vote::new_prevote(0, None);
    assert_eq!(rv.add_vote(nil_vote, 1), Thresh::Init);
    assert_eq!(rv.add_vote(nil_vote, 1), Thresh::Init);
    assert_eq!(rv.add_vote(nil_vote, 1), Thresh::Nil);
}

// Value wins over Nil and over Any: when the tracked value alone has a
// quorum the threshold is Value even if nil also crossed it.
#[test]
fn value_beats_nil_in_priority() {
    let v = Value::new(1);
    let mut rv = RoundVotes::new(1, 0, 4);
    let nil_vote = Vote::new_prevote(0, None);
    let val_vote = Vote::new_prevote(0, Some(v));
    assert_eq!(rv.add_vote(nil_vote, 3), Thresh::Nil);
    assert_eq!(rv.add_vote(val_vote, 3), Thresh::Value(v));
}

// The two vote types are tallied independently.
#[test]
fn prevotes_and_precommits_are_separate() {
    let v = Value::new(2);
    let mut rv = RoundVotes::new(1, 0, 4);
    let prevote = Vote::new_prevote(0, Some(v));
    let precommit = Vote::new_precommit(0, Some(v));
    assert_eq!(rv.add_vote(prevote, 3), Thresh::Value(v));
    // The precommit count has seen nothing yet.
    assert_eq!(rv.add_vote(precommit, 1), Thresh::Init);
    assert_eq!(rv.add_vote(precommit, 2), Thresh::Value(v));
}

// A mixed quorum (value and nil together) reports Any.
#[test]
fn mixed_quorum_reports_any() {
    let v = Value::new(3);
    let mut rv = RoundVotes::new(1, 0, 4);
    assert_eq!(rv.add_vote(Vote::new_prevote(0, Some(v)), 2), Thresh::Init);
    assert_eq!(rv.add_vote(Vote::new_prevote(0, None), 1), Thresh::Any);
}

// With a configured total of zero any vote is already past two thirds.
#[test]
fn zero_total_weight_crosses_immediately() {
    let v = Value::new(4);
    let mut rv = RoundVotes::new(1, 0, 0);
    assert_eq!(rv.add_vote(Vote::new_prevote(0, Some(v)), 1), Thresh::Value(v));
}

// Weights on distinct values are tallied separately: two votes for one
// value and one for another make no per-value quorum, only a combined one.
#[test]
fn per_value_weights_are_separate() {
    let v1 = Value::new(1);
    let v2 = Value::new(2);
    let mut rv = RoundVotes::new(1, 0, 4);
    assert_eq!(rv.add_vote(Vote::new_prevote(0, Some(v1)), 2), Thresh::Init);
    // v2 carries weight 1 and v1 weight 2: no single value crossed two
    // thirds, but the combined weight did.
    assert_eq!(rv.add_vote(Vote::new_prevote(0, Some(v2)), 1), Thresh::Any);
    // One more unit on v2 gives it weight 3 of its own.
    assert_eq!(rv.add_vote(Vote::new_prevote(0, Some(v2)), 2), Thresh::Value(v2));
}

// A nil quorum stands as long as no single value has a quorum of its own,
// however much weight is spread over distinct values.
#[test]
fn nil_quorum_beats_split_values() {
    let v1 = Value::new(1);
    let v2 = Value::new(2);
    let mut rv = RoundVotes::new(1, 0, 4);
    assert_eq!(rv.add_vote(Vote::new_prevote(0, None), 3), Thresh::Nil);
    assert_eq!(rv.add_vote(Vote::new_prevote(0, Some(v1)), 2), Thresh::Nil);
    assert_eq!(rv.add_vote(Vote::new_prevote(0, Some(v2)), 2), Thresh::Nil);
}
