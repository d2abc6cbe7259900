//! Pending answers and minted tokens.
//!
//! Each challenge handed out registers its expected answer under its id. The
//! first attempt at an id consumes the answer; a correct one mints a token for
//! the id, which can be redeemed once.
use std::collections::{HashMap, HashSet};
use vstd::prelude::*;

use crate::ids::{parse_uuid, uuid_value_of};

verus! {

broadcast use vstd::std_specs::hash::group_hash_axioms;

/// What the ledger holds, as values.
pub struct LedgerView {
    /// Expected answers of the challenges handed out and not yet attempted.
    pub answers: Map<u128, Seq<char>>,
    /// Ids answered correctly and not yet redeemed.
    pub tokens: Set<u128>,
    /// Every id that was ever answered correctly.
    pub solved: Set<u128>,
}

/// Whether an attempt with `provided` at the id `key` succeeds.
pub open spec fn answer_accepted(s: LedgerView, key: u128, provided: Seq<char>) -> bool {
    s.answers.contains_key(key) && s.answers[key] == provided
}

/// The ledger after an attempt at `key`: its answer is gone, and a correct
/// attempt mints a token.
pub open spec fn after_answer(s: LedgerView, key: u128, provided: Seq<char>) -> LedgerView {
    let ok = answer_accepted(s, key, provided);
    LedgerView {
        answers: s.answers.remove(key),
        tokens: if ok {
            s.tokens.insert(key)
        } else {
            s.tokens
        },
        solved: if ok {
            s.solved.insert(key)
        } else {
            s.solved
        },
    }
}

/// The ledger after redeeming `key`: its token is gone.
pub open spec fn after_redeem(s: LedgerView, key: u128) -> LedgerView {
    LedgerView { tokens: s.tokens.remove(key), ..s }
}

/// The ledger after registering `answer` for `key`.
pub open spec fn after_register(s: LedgerView, key: u128, answer: Seq<char>) -> LedgerView {
    LedgerView { answers: s.answers.insert(key, answer), ..s }
}

/// Two successive attempts at one challenge cannot both succeed: whatever
/// the first provided, the second finds no expected answer.
pub proof fn lemma_answer_single_use(s: LedgerView, key: u128, first: Seq<char>, second: Seq<char>)
    ensures
        !answer_accepted(after_answer(s, key, first), key, second),
{
}

/// A wrong attempt mints no token and solves nothing: the tokens are those
/// held before.
pub proof fn lemma_wrong_answer_mints_nothing(s: LedgerView, key: u128, provided: Seq<char>)
    requires
        !answer_accepted(s, key, provided),
    ensures
        after_answer(s, key, provided).tokens == s.tokens,
        after_answer(s, key, provided).solved == s.solved,
{
}

/// Two successive redemptions of one token cannot both succeed.
pub proof fn lemma_token_single_use(s: LedgerView, key: u128)
    ensures
        !after_redeem(s, key).tokens.contains(key),
{
}

/// An id joins the solved ones only through an accepted answer; registering
/// and redeeming add none.
pub proof fn lemma_solved_only_by_accepted_answer(
    s: LedgerView,
    key: u128,
    provided: Seq<char>,
    other: u128,
    answer: Seq<char>,
)
    ensures
        after_answer(s, key, provided).solved.contains(other) ==> s.solved.contains(other) || (
        other == key && answer_accepted(s, key, provided)),
        after_redeem(s, other).solved == s.solved,
        after_register(s, other, answer).solved == s.solved,
{
}

/// Pending answers, and tokens for the challenges answered correctly.
pub struct Ledger {
    answers: HashMap<u128, String>,
    tokens: HashSet<u128>,
    solved: Ghost<Set<u128>>,
}

impl View for Ledger {
    type V = LedgerView;

    closed spec fn view(&self) -> LedgerView {
        LedgerView {
            answers: self.answers@.map_values(|a: String| a@),
            tokens: self.tokens@,
            solved: self.solved@,
        }
    }
}

impl Ledger {
    /// Only ids that were answered correctly hold tokens.
    pub closed spec fn wf(&self) -> bool {
        self.tokens@.subset_of(self.solved@)
    }

    /// An empty ledger.
    pub fn new() -> (r: Ledger)
        ensures
            r.wf(),
            r@.answers.is_empty(),
            r@.tokens.is_empty(),
            r@.solved.is_empty(),
    {
        let r = Ledger { answers: HashMap::new(), tokens: HashSet::new(), solved: Ghost(Set::empty()) };
        assert(r@.answers =~= Map::empty());
        r
    }

    /// Registers `answer` as the expected answer of the challenge `key`,
    /// replacing any earlier one.
    pub fn register_key(&mut self, key: u128, answer: String)
        requires
            old(self).wf(),
        ensures
            final(self).wf(),
            final(self)@ == after_register(old(self)@, key, answer@),
    {
        self.answers.insert(key, answer);
        assert(self@.answers =~= old(self)@.answers.insert(key, answer@));
    }

    /// Registers `answer` as the expected answer of the challenge with id
    /// `challenge_id`. Returns false, and changes nothing, where the id is not
    /// a UUID.
    pub fn register(&mut self, challenge_id: &str, answer: String) -> (r: bool)
        requires
            old(self).wf(),
        ensures
            final(self).wf(),
            r == uuid_value_of(challenge_id@) is Some,
            r ==> final(self)@ == after_register(
                old(self)@,
                uuid_value_of(challenge_id@)->Some_0,
                answer@,
            ),
            !r ==> final(self)@ == old(self)@,
    {
        match parse_uuid(challenge_id) {
            Some(key) => {
                self.register_key(key, answer);
                true
            },
            None => false,
        }
    }

    /// Grades an attempt at the challenge `key`. The expected answer is
    /// consumed whatever the outcome; a correct attempt mints a token.
    pub fn check_answer_key(&mut self, key: u128, answer: &String) -> (r: bool)
        requires
            old(self).wf(),
        ensures
            final(self).wf(),
            r == answer_accepted(old(self)@, key, answer@),
            final(self)@ == after_answer(old(self)@, key, answer@),
    {
        let expected = self.answers.remove(&key);
        assert(self@.answers =~= old(self)@.answers.remove(key));
        match expected {
            Some(expected) => {
                if expected == *answer {
                    self.tokens.insert(key);
                    proof {
                        self.solved@ = self.solved@.insert(key);
                    }
                    true
                } else {
                    false
                }
            },
            None => false,
        }
    }

    /// Grades an attempt at the challenge with id `challenge_id`. An id that is
    /// not a UUID is never accepted and changes nothing.
    pub fn check_answer(&mut self, challenge_id: String, answer: String) -> (r: bool)
        requires
            old(self).wf(),
        ensures
            final(self).wf(),
            match uuid_value_of(challenge_id@) {
                Some(key) => {
                    &&& r == answer_accepted(old(self)@, key, answer@)
                    &&& final(self)@ == after_answer(old(self)@, key, answer@)
                },
                None => !r && final(self)@ == old(self)@,
            },
    {
        match parse_uuid(challenge_id.as_str()) {
            Some(key) => self.check_answer_key(key, &answer),
            None => false,
        }
    }

    /// Redeems the token of the challenge `key`: true, once, after a correct
    /// answer.
    pub fn check_token_key(&mut self, key: u128) -> (r: bool)
        requires
            old(self).wf(),
        ensures
            final(self).wf(),
            r == old(self)@.tokens.contains(key),
            r ==> old(self)@.solved.contains(key),
            final(self)@ == after_redeem(old(self)@, key),
    {
        let r = self.tokens.remove(&key);
        assert(self@.answers =~= old(self)@.answers);
        r
    }

    /// Redeems the token of the challenge with id `challenge_id`. An id that is
    /// not a UUID holds no token and changes nothing.
    pub fn check_token(&mut self, challenge_id: String) -> (r: bool)
        requires
            old(self).wf(),
        ensures
            final(self).wf(),
            match uuid_value_of(challenge_id@) {
                Some(key) => {
                    &&& r == old(self)@.tokens.contains(key)
                    &&& r ==> old(self)@.solved.contains(key)
                    &&& final(self)@ == after_redeem(old(self)@, key)
                },
                None => !r && final(self)@ == old(self)@,
            },
    {
        match parse_uuid(challenge_id.as_str()) {
            Some(key) => self.check_token_key(key),
            None => false,
        }
    }
}

} // verus!
