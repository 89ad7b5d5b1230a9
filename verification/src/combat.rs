//! The combat state machine: whose turn it is, who has acted this round,
//! and when a round may be completed.
//!
//! A battle has two sides, each with an ordered roster of unique participant
//! names. The state machine is a pair of macro-states — idle (no turn in
//! progress) and acting (exactly one participant mid-turn) — nested inside a
//! round counter. Every transition returns a fresh state snapshot rather
//! than mutating in place, so prior snapshots stay valid.

use crate::index_set::{
    iset_clone, iset_contains, iset_elems, iset_insert, iset_len, iset_new, iset_shift_remove,
    iset_to_vec,
};
use indexmap::IndexSet;
use vstd::prelude::*;

verus! {

broadcast use vstd::string::to_string_from_display_ensures_for_str;

/// One of the two opposing factions in a combat.
#[derive(Debug, Clone, Copy, PartialEq, Eq, Structural)]
pub enum TurnSide {
    PC,
    NPC,
}

/// The side that acts when the given side is done.
pub open spec fn opposite_of(side: TurnSide) -> TurnSide {
    match side {
        TurnSide::PC => TurnSide::NPC,
        TurnSide::NPC => TurnSide::PC,
    }
}

/// The side that acts when the given side is done.
pub fn opposite(side: TurnSide) -> (r: TurnSide)
    ensures
        r == opposite_of(side),
{
    match side {
        TurnSide::PC => TurnSide::NPC,
        TurnSide::NPC => TurnSide::PC,
    }
}

/// Why a transition was refused. Every fallible operation returns one of
/// these rather than panicking on caller-supplied input.
#[derive(Debug, Clone, Copy, PartialEq, Eq, Structural)]
pub enum CombatError {
    /// The operation needs the idle macro-state, but a turn is in progress.
    InvalidTransition,
    /// The operation needs a turn in progress, but the state is idle.
    NoTurnInProgress,
    /// `start_turn` was invoked for a side that is not currently active.
    WrongSide,
    /// The referenced name is not registered on the specified side.
    UnknownEntity,
    /// The referenced name already acted this round.
    AlreadyActed,
    /// `complete_round` was attempted before every registered participant
    /// on both sides had acted.
    IncompleteRound,
    /// `complete_round` was attempted while the active side still had
    /// participants available to act.
    EntitiesStillAvailable,
}

impl CombatError {
    /// The human-readable description of the error.
    pub open spec fn message_of(self) -> Seq<char> {
        match self {
            CombatError::InvalidTransition => "A turn is in progress. End the current turn first."@,
            CombatError::NoTurnInProgress => "No turn in progress."@,
            CombatError::WrongSide => "It is not that side's turn."@,
            CombatError::UnknownEntity => "That entity is not in the battle."@,
            CombatError::AlreadyActed => "That entity has already taken their turn this round."@,
            CombatError::IncompleteRound => "Not all entities have taken their turn."@,
            CombatError::EntitiesStillAvailable => "There are still entities available to take their turn."@,
        }
    }

    /// Renders the error as a human-readable message.
    pub fn message(&self) -> (r: String)
        ensures
            r@ == self.message_of(),
    {
        match self {
            CombatError::InvalidTransition => "A turn is in progress. End the current turn first.".to_string(),
            CombatError::NoTurnInProgress => "No turn in progress.".to_string(),
            CombatError::WrongSide => "It is not that side's turn.".to_string(),
            CombatError::UnknownEntity => "That entity is not in the battle.".to_string(),
            CombatError::AlreadyActed => "That entity has already taken their turn this round.".to_string(),
            CombatError::IncompleteRound => "Not all entities have taken their turn.".to_string(),
            CombatError::EntitiesStillAvailable => "There are still entities available to take their turn.".to_string(),
        }
    }
}

/// The unique names of `s` in order of first occurrence: what collecting a
/// sequence of names into an insertion-order-preserving set leaves behind.
pub open spec fn dedup_names(s: Seq<Seq<char>>) -> Seq<Seq<char>>
    decreases s.len(),
{
    if s.len() == 0 {
        Seq::<Seq<char>>::empty()
    } else {
        let rest = dedup_names(s.drop_last());
        if rest.contains(s.last()) {
            rest
        } else {
            rest.push(s.last())
        }
    }
}

/// Deduplication keeps exactly the names of the input, without duplicates.
pub proof fn lemma_dedup_names(s: Seq<Seq<char>>)
    ensures
        dedup_names(s).no_duplicates(),
        forall|x: Seq<char>| #[trigger] dedup_names(s).contains(x) <==> s.contains(x),
    decreases s.len(),
{
    if s.len() == 0 {
        assert(forall|x: Seq<char>| !s.contains(x));
        assert(forall|x: Seq<char>| !dedup_names(s).contains(x));
    } else {
        let rest = s.drop_last();
        let rest_d = dedup_names(rest);
        lemma_dedup_names(rest);
        if !rest_d.contains(s.last()) {
            assert forall|x: Seq<char>|
                #[trigger] dedup_names(s).contains(x) <==> rest_d.contains(x) || x
                    == s.last() by {
                if dedup_names(s).contains(x) {
                    let i = choose|i: int|
                        0 <= i < dedup_names(s).len() && dedup_names(s)[i] == x;
                    if i < rest_d.len() {
                        assert(rest_d[i] == x);
                    }
                }
                if rest_d.contains(x) {
                    let i = choose|i: int| 0 <= i < rest_d.len() && rest_d[i] == x;
                    assert(dedup_names(s)[i] == x);
                }
                if x == s.last() {
                    assert(dedup_names(s)[rest_d.len() as int] == x);
                }
            }
        }
        assert forall|x: Seq<char>| s.contains(x) <==> rest.contains(x) || x == s.last() by {
            if s.contains(x) {
                let i = choose|i: int| 0 <= i < s.len() && s[i] == x;
                if i < s.len() - 1 {
                    assert(rest[i] == x);
                    assert(rest.contains(x));
                }
            }
            if rest.contains(x) {
                let i = choose|i: int| 0 <= i < rest.len() && rest[i] == x;
                assert(s[i] == x);
            }
            if x == s.last() {
                assert(s[s.len() - 1] == x);
            }
        }
    }
}

/// Appending one element to a sequence extends its filtered form by that
/// element exactly when the element satisfies the predicate.
pub proof fn lemma_filter_push<A>(s: Seq<A>, x: A, pred: spec_fn(A) -> bool)
    ensures
        s.push(x).filter(pred) == if pred(x) {
            s.filter(pred).push(x)
        } else {
            s.filter(pred)
        },
{
    reveal(Seq::filter);
    assert(s.push(x).drop_last() =~= s);
    assert(s.push(x).last() == x);
}

/// Every element of a filtered sequence satisfies the predicate and comes
/// from the original sequence.
pub proof fn lemma_filter_source<A>(s: Seq<A>, pred: spec_fn(A) -> bool)
    ensures
        forall|x: A| #[trigger] s.filter(pred).contains(x) ==> s.contains(x) && pred(x),
    decreases s.len(),
{
    reveal(Seq::filter);
    if s.len() != 0 {
        let rest = s.drop_last();
        lemma_filter_source(rest, pred);
        assert forall|x: A| #[trigger] s.filter(pred).contains(x) implies s.contains(x) && pred(
            x,
        ) by {
            if rest.filter(pred).contains(x) {
                assert(rest.contains(x));
                let i = choose|i: int| 0 <= i < rest.len() && rest[i] == x;
                assert(s[i] == x);
            } else {
                assert(x == s.last());
                assert(s[s.len() - 1] == x);
            }
        }
    }
}

/// Ordered, unique membership lists for the two sides, plus the side that
/// acts first.
#[derive(Debug)]
pub struct BattleParameters {
    pcs: IndexSet<String>,
    npcs: IndexSet<String>,
    starting_side: TurnSide,
}

impl BattleParameters {
    /// The names registered on the player-character side, in insertion
    /// order.
    pub closed spec fn pcs_of(&self) -> Seq<Seq<char>> {
        iset_elems(self.pcs)
    }

    /// The names registered on the non-player side, in insertion order.
    pub closed spec fn npcs_of(&self) -> Seq<Seq<char>> {
        iset_elems(self.npcs)
    }

    /// The names registered on the given side, in insertion order.
    pub open spec fn members_of(&self, side: TurnSide) -> Seq<Seq<char>> {
        match side {
            TurnSide::PC => self.pcs_of(),
            TurnSide::NPC => self.npcs_of(),
        }
    }

    /// The side that acts first.
    pub closed spec fn start_of(&self) -> TurnSide {
        self.starting_side
    }

    /// Neither side's list holds a name twice.
    pub open spec fn wf(&self) -> bool {
        self.pcs_of().no_duplicates() && self.npcs_of().no_duplicates()
    }

    /// Builds the parameters from the given name lists, keeping the first
    /// occurrence of each name in order.
    pub fn new(pcs: Vec<String>, npcs: Vec<String>, starting_side: TurnSide) -> (r: Self)
        ensures
            r.wf(),
            r.pcs_of() == dedup_names(pcs.deep_view()),
            r.npcs_of() == dedup_names(npcs.deep_view()),
            r.start_of() == starting_side,
    {
        let ghost pcs_dv = pcs.deep_view();
        let ghost npcs_dv = npcs.deep_view();
        let r = BattleParameters {
            pcs: collect_unique(pcs),
            npcs: collect_unique(npcs),
            starting_side,
        };
        proof {
            lemma_dedup_names(pcs_dv);
            lemma_dedup_names(npcs_dv);
        }
        r
    }

    /// The members of the given side.
    pub fn players(&self, turn: TurnSide) -> (r: &IndexSet<String>)
        ensures
            iset_elems(*r) == self.members_of(turn),
    {
        match turn {
            TurnSide::NPC => &self.npcs,
            TurnSide::PC => &self.pcs,
        }
    }

    /// The members of the player-character side.
    pub fn pcs(&self) -> (r: &IndexSet<String>)
        ensures
            iset_elems(*r) == self.pcs_of(),
    {
        &self.pcs
    }

    /// The members of the non-player side.
    pub fn npcs(&self) -> (r: &IndexSet<String>)
        ensures
            iset_elems(*r) == self.npcs_of(),
    {
        &self.npcs
    }

    /// The side that acts first.
    pub fn starting_side(&self) -> (r: TurnSide)
        ensures
            r == self.start_of(),
    {
        self.starting_side
    }

    /// Registers a player character; a no-op if the name is already present.
    pub fn add_pc(&mut self, pc: String)
        requires
            old(self).wf(),
        ensures
            final(self).wf(),
            final(self).pcs_of() == if old(self).pcs_of().contains(pc@) {
                old(self).pcs_of()
            } else {
                old(self).pcs_of().push(pc@)
            },
            final(self).npcs_of() == old(self).npcs_of(),
            final(self).start_of() == old(self).start_of(),
    {
        let ghost old_elems = self.pcs_of();
        iset_insert(&mut self.pcs, pc);
        proof {
            if !old_elems.contains(pc@) {
                lemma_push_keeps_no_duplicates(old_elems, pc@);
            }
        }
    }

    /// Registers a non-player character; a no-op if the name is already
    /// present.
    pub fn add_npc(&mut self, npc: String)
        requires
            old(self).wf(),
        ensures
            final(self).wf(),
            final(self).npcs_of() == if old(self).npcs_of().contains(npc@) {
                old(self).npcs_of()
            } else {
                old(self).npcs_of().push(npc@)
            },
            final(self).pcs_of() == old(self).pcs_of(),
            final(self).start_of() == old(self).start_of(),
    {
        let ghost old_elems = self.npcs_of();
        iset_insert(&mut self.npcs, npc);
        proof {
            if !old_elems.contains(npc@) {
                lemma_push_keeps_no_duplicates(old_elems, npc@);
            }
        }
    }

    /// Unregisters a player character, preserving the order of the others,
    /// and reports whether anything was removed.
    pub fn remove_pc(&mut self, pc: &String) -> (removed: bool)
        requires
            old(self).wf(),
        ensures
            final(self).wf(),
            removed == old(self).pcs_of().contains(pc@),
            seq_removed_one(old(self).pcs_of(), final(self).pcs_of(), pc@),
            final(self).npcs_of() == old(self).npcs_of(),
            final(self).start_of() == old(self).start_of(),
    {
        let ghost old_elems = self.pcs_of();
        let removed = iset_shift_remove(&mut self.pcs, pc);
        proof {
            if removed {
                let i = choose|i: int|
                    0 <= i < old_elems.len() && old_elems[i] == pc@ && self.pcs_of()
                        == old_elems.remove(i);
                lemma_remove_keeps_no_duplicates(old_elems, i);
            }
        }
        removed
    }

    /// Unregisters a non-player character, preserving the order of the
    /// others, and reports whether anything was removed.
    pub fn remove_npc(&mut self, npc: &String) -> (removed: bool)
        requires
            old(self).wf(),
        ensures
            final(self).wf(),
            removed == old(self).npcs_of().contains(npc@),
            seq_removed_one(old(self).npcs_of(), final(self).npcs_of(), npc@),
            final(self).pcs_of() == old(self).pcs_of(),
            final(self).start_of() == old(self).start_of(),
    {
        let ghost old_elems = self.npcs_of();
        let removed = iset_shift_remove(&mut self.npcs, npc);
        proof {
            if removed {
                let i = choose|i: int|
                    0 <= i < old_elems.len() && old_elems[i] == npc@ && self.npcs_of()
                        == old_elems.remove(i);
                lemma_remove_keeps_no_duplicates(old_elems, i);
            }
        }
        removed
    }

    /// A fresh copy with equal contents.
    fn duplicate(&self) -> (r: Self)
        ensures
            r.pcs_of() == self.pcs_of(),
            r.npcs_of() == self.npcs_of(),
            r.start_of() == self.start_of(),
    {
        BattleParameters {
            pcs: iset_clone(&self.pcs),
            npcs: iset_clone(&self.npcs),
            starting_side: self.starting_side,
        }
    }
}

/// How the name lists of a set relate across a removal: either the name was
/// absent and nothing changed, or exactly its occurrence was removed and the
/// rest kept their order.
pub open spec fn seq_removed_one(
    before: Seq<Seq<char>>,
    after: Seq<Seq<char>>,
    name: Seq<char>,
) -> bool {
    if before.contains(name) {
        exists|i: int| 0 <= i < before.len() && before[i] == name && after == before.remove(i)
    } else {
        after == before
    }
}

/// A pushed sequence holds exactly the old elements and the new one.
pub proof fn lemma_push_contains<A>(s: Seq<A>, x: A)
    ensures
        forall|y: A| #[trigger] s.push(x).contains(y) <==> s.contains(y) || y == x,
{
    assert forall|y: A| #[trigger] s.push(x).contains(y) implies s.contains(y) || y == x by {
        let i = choose|i: int| 0 <= i < s.push(x).len() && s.push(x)[i] == y;
        if i < s.len() {
            assert(s[i] == y);
        }
    }
    assert forall|y: A| s.contains(y) || y == x implies s.push(x).contains(y) by {
        if s.contains(y) {
            let i = choose|i: int| 0 <= i < s.len() && s[i] == y;
            assert(s.push(x)[i] == y);
        } else {
            assert(s.push(x)[s.len() as int] == y);
        }
    }
}

/// Pushing a fresh element keeps a sequence duplicate-free.
pub proof fn lemma_push_keeps_no_duplicates<A>(s: Seq<A>, x: A)
    requires
        s.no_duplicates(),
        !s.contains(x),
    ensures
        s.push(x).no_duplicates(),
{
}

/// Removing an element keeps a sequence duplicate-free, and the remaining
/// elements are exactly the others.
pub proof fn lemma_remove_keeps_no_duplicates<A>(s: Seq<A>, i: int)
    requires
        s.no_duplicates(),
        0 <= i < s.len(),
    ensures
        s.remove(i).no_duplicates(),
        forall|x: A| #[trigger] s.remove(i).contains(x) <==> s.contains(x) && x != s[i],
{
    let r = s.remove(i);
    assert forall|x: A| #[trigger] r.contains(x) implies s.contains(x) && x != s[i] by {
        let j = choose|j: int| 0 <= j < r.len() && r[j] == x;
        if j < i {
            assert(s[j] == x);
        } else {
            assert(s[j + 1] == x);
        }
    }
    assert forall|x: A| s.contains(x) && x != s[i] implies r.contains(x) by {
        let j = choose|j: int| 0 <= j < s.len() && s[j] == x;
        if j < i {
            assert(r[j] == x);
        } else {
            assert(r[j - 1] == x);
        }
    }
}

/// One combat in progress: a roster snapshot, the side whose members may
/// act, the participant mid-turn if any, per-round bookkeeping of who has
/// acted, and the round counter.
#[derive(Debug)]
pub struct BattleState {
    starting_parameters: BattleParameters,
    current_side: TurnSide,
    current_turn: Option<(TurnSide, String)>,
    pc_taken_turns: IndexSet<String>,
    npc_taken_turns: IndexSet<String>,
    round: i16,
}

impl BattleState {
    /// The names registered on the given side, in insertion order.
    pub closed spec fn members_of(&self, side: TurnSide) -> Seq<Seq<char>> {
        self.starting_parameters.members_of(side)
    }

    /// The names on the given side that have completed a turn this round.
    pub closed spec fn taken_of(&self, side: TurnSide) -> Seq<Seq<char>> {
        match side {
            TurnSide::PC => iset_elems(self.pc_taken_turns),
            TurnSide::NPC => iset_elems(self.npc_taken_turns),
        }
    }

    /// The side whose members may currently act.
    pub closed spec fn side_of(&self) -> TurnSide {
        self.current_side
    }

    /// The participant mid-turn, if any.
    pub closed spec fn turn_of(&self) -> Option<(TurnSide, Seq<char>)> {
        match self.current_turn {
            Some((side, ref name)) => Some((side, name@)),
            None => None,
        }
    }

    /// The round counter.
    pub closed spec fn round_of(&self) -> int {
        self.round as int
    }

    /// The side that acted first, to which every completed round resets.
    pub closed spec fn start_of(&self) -> TurnSide {
        self.starting_parameters.start_of()
    }

    /// Whether the participant mid-turn is the given name.
    pub open spec fn is_turn_name(&self, name: Seq<char>) -> bool {
        match self.turn_of() {
            Some((_, turn_name)) => turn_name == name,
            None => false,
        }
    }

    /// The names on the active side that may still act: the side's members,
    /// in roster insertion order, without those that have acted and without
    /// the participant mid-turn.
    pub open spec fn available_of(&self) -> Seq<Seq<char>> {
        self.members_of(self.side_of()).filter(
            |n: Seq<char>| !self.taken_of(self.side_of()).contains(n) && !self.is_turn_name(n),
        )
    }

    /// The number of members of the given side that have not yet acted.
    pub open spec fn remaining_of(&self, side: TurnSide) -> nat {
        self.members_of(side).filter(|n: Seq<char>| !self.taken_of(side).contains(n)).len()
    }

    /// Both lists of one side are duplicate-free, and only registered
    /// members can have acted.
    pub open spec fn side_wf(&self, side: TurnSide) -> bool {
        &&& self.members_of(side).no_duplicates()
        &&& self.taken_of(side).no_duplicates()
        &&& forall|n: Seq<char>| #[trigger]
            self.taken_of(side).contains(n) ==> self.members_of(side).contains(n)
    }

    /// The state invariant: both sides are well formed, a participant
    /// mid-turn belongs to the active side, is registered there and has not
    /// acted yet, and the round counter started at one.
    pub open spec fn wf(&self) -> bool {
        &&& self.side_wf(TurnSide::PC)
        &&& self.side_wf(TurnSide::NPC)
        &&& match self.turn_of() {
            Some((side, name)) => {
                &&& side == self.side_of()
                &&& self.members_of(side).contains(name)
                &&& !self.taken_of(side).contains(name)
            },
            None => true,
        }
        &&& 1 <= self.round_of() <= i16::MAX
    }

    /// Starts a combat in the idle state: round one, nobody has acted, and
    /// the roster's starting side is active.
    pub fn new(parameters: BattleParameters) -> (r: Self)
        requires
            parameters.wf(),
        ensures
            r.wf(),
            r.members_of(TurnSide::PC) == parameters.members_of(TurnSide::PC),
            r.members_of(TurnSide::NPC) == parameters.members_of(TurnSide::NPC),
            r.taken_of(TurnSide::PC) == Seq::<Seq<char>>::empty(),
            r.taken_of(TurnSide::NPC) == Seq::<Seq<char>>::empty(),
            r.turn_of() is None,
            r.side_of() == parameters.start_of(),
            r.start_of() == parameters.start_of(),
            r.round_of() == 1,
    {
        let current_side = parameters.starting_side();
        BattleState {
            pc_taken_turns: iset_new(),
            npc_taken_turns: iset_new(),
            current_side,
            current_turn: None,
            starting_parameters: parameters,
            round: 1,
        }
    }

    /// The side whose members may currently act.
    pub fn current_side(&self) -> (r: TurnSide)
        ensures
            r == self.side_of(),
    {
        self.current_side
    }

    /// The round counter, starting at one.
    pub fn round(&self) -> (r: i16)
        ensures
            r as int == self.round_of(),
    {
        self.round
    }

    /// The names registered on the player-character side.
    pub fn all_pcs(&self) -> (r: &IndexSet<String>)
        ensures
            iset_elems(*r) == self.members_of(TurnSide::PC),
    {
        self.starting_parameters.pcs()
    }

    /// The names registered on the non-player side.
    pub fn all_npcs(&self) -> (r: &IndexSet<String>)
        ensures
            iset_elems(*r) == self.members_of(TurnSide::NPC),
    {
        self.starting_parameters.npcs()
    }

    /// The names registered on the given side.
    pub fn members(&self, side: TurnSide) -> (r: &IndexSet<String>)
        ensures
            iset_elems(*r) == self.members_of(side),
    {
        self.starting_parameters.players(side)
    }

    /// The player-character names that have completed a turn this round.
    pub fn pc_taken_turns(&self) -> (r: &IndexSet<String>)
        ensures
            iset_elems(*r) == self.taken_of(TurnSide::PC),
    {
        &self.pc_taken_turns
    }

    /// The non-player names that have completed a turn this round.
    pub fn npc_taken_turns(&self) -> (r: &IndexSet<String>)
        ensures
            iset_elems(*r) == self.taken_of(TurnSide::NPC),
    {
        &self.npc_taken_turns
    }

    /// The names on the given side that have completed a turn this round.
    pub fn taken_turns(&self, side: TurnSide) -> (r: &IndexSet<String>)
        ensures
            iset_elems(*r) == self.taken_of(side),
    {
        match side {
            TurnSide::PC => &self.pc_taken_turns,
            TurnSide::NPC => &self.npc_taken_turns,
        }
    }

    /// The participant mid-turn, if any.
    pub fn current_turn(&self) -> (r: Option<&(TurnSide, String)>)
        ensures
            match r {
                Some(turn) => self.turn_of() == Some((turn.0, turn.1@)),
                None => self.turn_of() is None,
            },
    {
        self.current_turn.as_ref()
    }

    /// The names on the active side that may still act this round, in
    /// roster insertion order. Callers select by position in this sequence,
    /// so the order is part of the contract.
    pub fn available(&self) -> (r: IndexSet<String>)
        requires
            self.wf(),
        ensures
            iset_elems(r) == self.available_of(),
    {
        let ghost pred = |n: Seq<char>|
            !self.taken_of(self.side_of()).contains(n) && !self.is_turn_name(n);
        let members = iset_to_vec(self.starting_parameters.players(self.current_side));
        let taken = self.taken_turns(self.current_side);
        let ghost mseq = self.members_of(self.side_of());
        let mut r = iset_new();
        let mut i: usize = 0;
        while i < members.len()
            invariant
                self.wf(),
                i <= members.len(),
                members.deep_view() == mseq,
                mseq == self.members_of(self.side_of()),
                mseq.no_duplicates(),
                iset_elems(*taken) == self.taken_of(self.side_of()),
                pred == (|n: Seq<char>|
                    !self.taken_of(self.side_of()).contains(n) && !self.is_turn_name(n)),
                iset_elems(r) == mseq.take(i as int).filter(pred),
            decreases members.len() - i,
        {
            let name = &members[i];
            proof {
                assert(name@ == mseq[i as int]);
            }
            let mut keep = !iset_contains(taken, name);
            if keep {
                match &self.current_turn {
                    Some(turn) => {
                        if turn.0 == self.current_side && turn.1.eq(name) {
                            keep = false;
                        }
                    },
                    None => {},
                }
            }
            proof {
                assert(keep == pred(mseq[i as int]));
                lemma_filter_push(mseq.take(i as int), mseq[i as int], pred);
                assert(mseq.take(i + 1).drop_last() =~= mseq.take(i as int));
                assert(mseq.take(i + 1) =~= mseq.take(i as int).push(mseq[i as int]));
                if keep {
                    lemma_filter_source(mseq.take(i as int), pred);
                    assert(!mseq.take(i as int).contains(mseq[i as int])) by {
                        if mseq.take(i as int).contains(mseq[i as int]) {
                            let j = choose|j: int|
                                0 <= j < i && mseq.take(i as int)[j] == mseq[i as int];
                            assert(mseq[j] == mseq[i as int]);
                        }
                    }
                }
            }
            if keep {
                iset_insert(&mut r, name.clone());
            }
            i = i + 1;
        }
        proof {
            assert(mseq.take(mseq.len() as int) =~= mseq);
        }
        r
    }
    /// Whether a turn may be started for the given participant: the state
    /// is idle, the side is the active one, the name is registered on it,
    /// and the name has not acted this round.
    pub open spec fn can_start_turn(&self, side: TurnSide, name: Seq<char>) -> bool {
        &&& self.turn_of() is None
        &&& side == self.side_of()
        &&& self.members_of(side).contains(name)
        &&& !self.taken_of(side).contains(name)
    }

    /// The error `start_turn` reports, checking the idle state first, then
    /// the side, then registration, then whether the name already acted.
    pub open spec fn start_turn_error_of(&self, side: TurnSide, name: Seq<char>) -> CombatError {
        if self.turn_of() is Some {
            CombatError::InvalidTransition
        } else if side != self.side_of() {
            CombatError::WrongSide
        } else if !self.members_of(side).contains(name) {
            CombatError::UnknownEntity
        } else {
            CombatError::AlreadyActed
        }
    }

    /// Idle to acting: marks the participant as mid-turn. Nothing else
    /// changes; in particular the participant is not yet recorded as having
    /// acted.
    pub fn start_turn(&self, side: TurnSide, entity_name: String) -> (r: Result<Self, CombatError>)
        requires
            self.wf(),
        ensures
            r is Ok <==> self.can_start_turn(side, entity_name@),
            r matches Ok(s) ==> {
                &&& s.wf()
                &&& s.turn_of() == Some((side, entity_name@))
                &&& s.side_of() == self.side_of()
                &&& s.members_of(TurnSide::PC) == self.members_of(TurnSide::PC)
                &&& s.members_of(TurnSide::NPC) == self.members_of(TurnSide::NPC)
                &&& s.taken_of(TurnSide::PC) == self.taken_of(TurnSide::PC)
                &&& s.taken_of(TurnSide::NPC) == self.taken_of(TurnSide::NPC)
                &&& s.round_of() == self.round_of()
                &&& s.start_of() == self.start_of()
            },
            r matches Err(e) ==> e == self.start_turn_error_of(side, entity_name@),
    {
        if self.current_turn.is_some() {
            return Err(CombatError::InvalidTransition);
        }
        if side != self.current_side {
            return Err(CombatError::WrongSide);
        }
        if !iset_contains(self.starting_parameters.players(side), &entity_name) {
            return Err(CombatError::UnknownEntity);
        }
        let taken = self.taken_turns(side);
        if iset_contains(taken, &entity_name) {
            return Err(CombatError::AlreadyActed);
        }
        Ok(
            BattleState {
                starting_parameters: self.starting_parameters.duplicate(),
                current_side: self.current_side,
                current_turn: Some((side, entity_name)),
                pc_taken_turns: iset_clone(&self.pc_taken_turns),
                npc_taken_turns: iset_clone(&self.npc_taken_turns),
                round: self.round,
            },
        )
    }

    /// Acting to idle, discarding the in-progress turn without marking the
    /// participant as having acted.
    pub fn cancel_turn(&self) -> (r: Result<Self, CombatError>)
        requires
            self.wf(),
        ensures
            r is Ok <==> self.turn_of() is Some,
            r matches Ok(s) ==> {
                &&& s.wf()
                &&& s.turn_of() is None
                &&& s.side_of() == self.side_of()
                &&& s.members_of(TurnSide::PC) == self.members_of(TurnSide::PC)
                &&& s.members_of(TurnSide::NPC) == self.members_of(TurnSide::NPC)
                &&& s.taken_of(TurnSide::PC) == self.taken_of(TurnSide::PC)
                &&& s.taken_of(TurnSide::NPC) == self.taken_of(TurnSide::NPC)
                &&& s.round_of() == self.round_of()
                &&& s.start_of() == self.start_of()
            },
            r matches Err(e) ==> e == CombatError::NoTurnInProgress,
    {
        if self.current_turn.is_none() {
            return Err(CombatError::NoTurnInProgress);
        }
        Ok(
            BattleState {
                starting_parameters: self.starting_parameters.duplicate(),
                current_side: self.current_side,
                current_turn: None,
                pc_taken_turns: iset_clone(&self.pc_taken_turns),
                npc_taken_turns: iset_clone(&self.npc_taken_turns),
                round: self.round,
            },
        )
    }

    /// Acting to idle: records the acting participant as having acted, then
    /// advances the active side. The side switches to the opposite side
    /// unless every member there has already acted, in which case it stays.
    pub fn end_turn(&self) -> (r: Result<Self, CombatError>)
        requires
            self.wf(),
        ensures
            r is Ok <==> self.turn_of() is Some,
            r matches Err(e) ==> e == CombatError::NoTurnInProgress,
            r matches Ok(s) ==> (self.turn_of() matches Some((side, name)) && {
                &&& s.wf()
                &&& s.turn_of() is None
                &&& s.taken_of(side) == self.taken_of(side).push(name)
                &&& s.taken_of(opposite_of(side)) == self.taken_of(opposite_of(side))
                &&& s.side_of() == if self.remaining_of(opposite_of(side)) == 0 {
                    side
                } else {
                    opposite_of(side)
                }
                &&& s.members_of(TurnSide::PC) == self.members_of(TurnSide::PC)
                &&& s.members_of(TurnSide::NPC) == self.members_of(TurnSide::NPC)
                &&& s.round_of() == self.round_of()
                &&& s.start_of() == self.start_of()
            }),
    {
        let (side, entity_name) = match &self.current_turn {
            Some(turn) => (turn.0, turn.1.clone()),
            None => {
                return Err(CombatError::NoTurnInProgress);
            },
        };
        let ghost name = entity_name@;

        let mut pc_taken_turns = iset_clone(&self.pc_taken_turns);
        let mut npc_taken_turns = iset_clone(&self.npc_taken_turns);
        match side {
            TurnSide::PC => {
                iset_insert(&mut pc_taken_turns, entity_name);
            },
            TurnSide::NPC => {
                iset_insert(&mut npc_taken_turns, entity_name);
            },
        }
        proof {
            lemma_push_keeps_no_duplicates(self.taken_of(side), name);
            lemma_push_contains(self.taken_of(side), name);
        }

        let next_side = opposite(side);
        let remaining_next_turns = count_remaining(
            self.starting_parameters.players(next_side),
            match next_side {
                TurnSide::PC => &pc_taken_turns,
                TurnSide::NPC => &npc_taken_turns,
            },
        );

        let current_side = if remaining_next_turns == 0 {
            side
        } else {
            next_side
        };

        Ok(
            BattleState {
                starting_parameters: self.starting_parameters.duplicate(),
                current_side,
                current_turn: None,
                pc_taken_turns,
                npc_taken_turns,
                round: self.round,
            },
        )
    }
    /// Whether every registered participant on both sides has acted this
    /// round, counted as the spec for `complete_round` counts.
    pub open spec fn all_acted(&self) -> bool {
        &&& self.taken_of(TurnSide::PC).len() == self.members_of(TurnSide::PC).len()
        &&& self.taken_of(TurnSide::NPC).len() == self.members_of(TurnSide::NPC).len()
    }

    /// Closes the round: legal only when idle, with every registered
    /// participant on both sides having acted and nobody left available.
    /// On success both taken sets reset, the active side resets to the
    /// original starting side whatever side acted last, and the round
    /// counter increases by exactly one.
    pub fn complete_round(&self) -> (r: Result<Self, CombatError>)
        requires
            self.wf(),
            self.round_of() < i16::MAX as int,
        ensures
            r is Ok <==> (self.turn_of() is None && self.all_acted()),
            r matches Ok(s) ==> {
                &&& s.wf()
                &&& s.taken_of(TurnSide::PC) == Seq::<Seq<char>>::empty()
                &&& s.taken_of(TurnSide::NPC) == Seq::<Seq<char>>::empty()
                &&& s.round_of() == self.round_of() + 1
                &&& s.side_of() == self.start_of()
                &&& s.turn_of() is None
                &&& s.members_of(TurnSide::PC) == self.members_of(TurnSide::PC)
                &&& s.members_of(TurnSide::NPC) == self.members_of(TurnSide::NPC)
                &&& s.start_of() == self.start_of()
            },
            r matches Err(e) ==> e == if self.turn_of() is Some {
                CombatError::InvalidTransition
            } else {
                CombatError::IncompleteRound
            },
    {
        if self.current_turn.is_some() {
            return Err(CombatError::InvalidTransition);
        }

        let pc_taken = iset_len(&self.pc_taken_turns);
        let npc_taken = iset_len(&self.npc_taken_turns);
        let pc_members = iset_len(self.starting_parameters.pcs());
        let npc_members = iset_len(self.starting_parameters.npcs());
        if pc_taken != pc_members || npc_taken != npc_members {
            return Err(CombatError::IncompleteRound);
        }

        proof {
            lemma_round_completion_gate(self);
        }
        let available = self.available();
        if iset_len(&available) != 0 {
            return Err(CombatError::EntitiesStillAvailable);
        }

        Ok(
            BattleState {
                starting_parameters: self.starting_parameters.duplicate(),
                current_side: self.starting_parameters.starting_side(),
                current_turn: None,
                pc_taken_turns: iset_new(),
                npc_taken_turns: iset_new(),
                round: self.round + 1,
            },
        )
    }

    /// Registers a reinforcement on the given side, usable before and
    /// during combat; a no-op if the name is already registered there.
    pub fn add_participant(&self, side: TurnSide, name: String) -> (r: Self)
        requires
            self.wf(),
        ensures
            r.wf(),
            r.members_of(side) == if self.members_of(side).contains(name@) {
                self.members_of(side)
            } else {
                self.members_of(side).push(name@)
            },
            r.members_of(opposite_of(side)) == self.members_of(opposite_of(side)),
            r.taken_of(TurnSide::PC) == self.taken_of(TurnSide::PC),
            r.taken_of(TurnSide::NPC) == self.taken_of(TurnSide::NPC),
            r.turn_of() == self.turn_of(),
            r.side_of() == self.side_of(),
            r.round_of() == self.round_of(),
            r.start_of() == self.start_of(),
    {
        let mut parameters = self.starting_parameters.duplicate();
        match side {
            TurnSide::PC => parameters.add_pc(name),
            TurnSide::NPC => parameters.add_npc(name),
        }
        let r = BattleState {
            starting_parameters: parameters,
            current_side: self.current_side,
            current_turn: clone_turn(&self.current_turn),
            pc_taken_turns: iset_clone(&self.pc_taken_turns),
            npc_taken_turns: iset_clone(&self.npc_taken_turns),
            round: self.round,
        };
        proof {
            if !self.members_of(side).contains(name@) {
                lemma_push_contains(self.members_of(side), name@);
            }
        }
        r
    }

    /// Removes a casualty from the given side, usable before and during
    /// combat, and reports whether anything changed. The name is also
    /// stripped from the side's taken set, and the current turn is cleared
    /// if the removed participant was the one acting, so that the counts
    /// that drive side switching and round completion stay consistent.
    pub fn remove_participant(&self, side: TurnSide, name: &String) -> (r: (Self, bool))
        requires
            self.wf(),
        ensures
            r.1 == self.members_of(side).contains(name@),
            r.0.wf(),
            seq_removed_one(self.members_of(side), r.0.members_of(side), name@),
            forall|x: Seq<char>| #[trigger]
                r.0.members_of(side).contains(x) <==> self.members_of(side).contains(x) && x
                    != name@,
            r.0.members_of(opposite_of(side)) == self.members_of(opposite_of(side)),
            seq_removed_one(self.taken_of(side), r.0.taken_of(side), name@),
            forall|x: Seq<char>| #[trigger]
                r.0.taken_of(side).contains(x) <==> self.taken_of(side).contains(x) && x != name@,
            r.0.taken_of(opposite_of(side)) == self.taken_of(opposite_of(side)),
            r.0.turn_of() == if self.turn_of() == Some((side, name@)) {
                Option::<(TurnSide, Seq<char>)>::None
            } else {
                self.turn_of()
            },
            r.0.side_of() == self.side_of(),
            r.0.round_of() == self.round_of(),
            r.0.start_of() == self.start_of(),
    {
        let mut parameters = self.starting_parameters.duplicate();
        let removed = match side {
            TurnSide::PC => parameters.remove_pc(name),
            TurnSide::NPC => parameters.remove_npc(name),
        };

        let mut pc_taken_turns = iset_clone(&self.pc_taken_turns);
        let mut npc_taken_turns = iset_clone(&self.npc_taken_turns);
        match side {
            TurnSide::PC => {
                iset_shift_remove(&mut pc_taken_turns, name);
            },
            TurnSide::NPC => {
                iset_shift_remove(&mut npc_taken_turns, name);
            },
        }

        let current_turn = match &self.current_turn {
            Some(turn) => {
                if turn.0 == side && turn.1.eq(name) {
                    None
                } else {
                    Some((turn.0, turn.1.clone()))
                }
            },
            None => None,
        };

        let r = BattleState {
            starting_parameters: parameters,
            current_side: self.current_side,
            current_turn,
            pc_taken_turns,
            npc_taken_turns,
            round: self.round,
        };
        proof {
            lemma_removed_one_contains(self.members_of(side), r.members_of(side), name@);
            lemma_removed_one_contains(self.taken_of(side), r.taken_of(side), name@);
        }
        (r, removed)
    }
}

/// Available names exclude, in every well-formed state, every name that has
/// acted on the active side and the name of the participant mid-turn.
pub proof fn lemma_available_excludes(s: &BattleState)
    requires
        s.wf(),
    ensures
        forall|n: Seq<char>| #[trigger]
            s.taken_of(s.side_of()).contains(n) ==> !s.available_of().contains(n),
        s.turn_of() matches Some((side, name)) ==> !s.available_of().contains(name),
{
    let pred = |n: Seq<char>| !s.taken_of(s.side_of()).contains(n) && !s.is_turn_name(n);
    lemma_filter_source(s.members_of(s.side_of()), pred);
}

/// Everybody on a side has acted once the side's taken count reaches its
/// member count: the taken set cannot hold more than the members.
pub proof fn lemma_side_exhausted(s: &BattleState, side: TurnSide)
    requires
        s.wf(),
        s.taken_of(side).len() == s.members_of(side).len(),
    ensures
        forall|n: Seq<char>| #[trigger]
            s.members_of(side).contains(n) ==> s.taken_of(side).contains(n),
{
    broadcast use vstd::seq_lib::seq_to_set_is_finite;

    let taken = s.taken_of(side);
    let members = s.members_of(side);
    taken.unique_seq_to_set();
    members.unique_seq_to_set();
    assert(taken.to_set().subset_of(members.to_set()));
    vstd::set_lib::lemma_subset_equality(taken.to_set(), members.to_set());
    assert forall|n: Seq<char>| #[trigger] members.contains(n) implies taken.contains(n) by {
        assert(members.to_set().contains(n));
        assert(taken.to_set().contains(n));
    }
}

/// The round-completion gate is subsumed by the membership counts: in a
/// well-formed idle state where both sides' taken counts equal their member
/// counts, nobody is available to act.
pub proof fn lemma_round_completion_gate(s: &BattleState)
    requires
        s.wf(),
        s.turn_of() is None,
        s.all_acted(),
    ensures
        s.available_of().len() == 0,
{
    lemma_side_exhausted(s, s.side_of());
    let pred = |n: Seq<char>| !s.taken_of(s.side_of()).contains(n) && !s.is_turn_name(n);
    lemma_filter_source(s.members_of(s.side_of()), pred);
    let available = s.available_of();
    if available.len() != 0 {
        assert(available.contains(available[0]));
    }
}

/// A removal's membership form: after removing one occurrence of a name
/// from a duplicate-free sequence, the names are exactly the old ones other
/// than the removed name.
pub proof fn lemma_removed_one_contains(
    before: Seq<Seq<char>>,
    after: Seq<Seq<char>>,
    name: Seq<char>,
)
    requires
        before.no_duplicates(),
        seq_removed_one(before, after, name),
    ensures
        after.no_duplicates(),
        forall|x: Seq<char>| #[trigger] after.contains(x) <==> before.contains(x) && x != name,
{
    if before.contains(name) {
        let i = choose|i: int|
            0 <= i < before.len() && before[i] == name && after == before.remove(i);
        lemma_remove_keeps_no_duplicates(before, i);
    }
}

/// Clones an optional in-progress turn.
fn clone_turn(turn: &Option<(TurnSide, String)>) -> (r: Option<(TurnSide, String)>)
    ensures
        match r {
            Some(t) => turn matches Some(o) && o.0 == t.0 && o.1@ == t.1@,
            None => turn is None,
        },
{
    match turn {
        Some(t) => Some((t.0, t.1.clone())),
        None => None,
    }
}

/// The number of names in `members` that are not in `taken`.
fn count_remaining(members: &IndexSet<String>, taken: &IndexSet<String>) -> (r: usize)
    ensures
        r == iset_elems(*members).filter(
            |n: Seq<char>| !iset_elems(*taken).contains(n),
        ).len(),
{
    let ghost pred = |n: Seq<char>| !iset_elems(*taken).contains(n);
    let names = iset_to_vec(members);
    let ghost mseq = iset_elems(*members);
    let mut count: usize = 0;
    let mut i: usize = 0;
    while i < names.len()
        invariant
            i <= names.len(),
            names.deep_view() == mseq,
            mseq == iset_elems(*members),
            pred == (|n: Seq<char>| !iset_elems(*taken).contains(n)),
            count == mseq.take(i as int).filter(pred).len(),
            count <= i,
        decreases names.len() - i,
    {
        proof {
            assert(names@[i as int]@ == mseq[i as int]);
            lemma_filter_push(mseq.take(i as int), mseq[i as int], pred);
            assert(mseq.take(i + 1) =~= mseq.take(i as int).push(mseq[i as int]));
        }
        if !iset_contains(taken, &names[i]) {
            count = count + 1;
        }
        i = i + 1;
    }
    proof {
        assert(mseq.take(mseq.len() as int) =~= mseq);
    }
    count
}

/// Collects names into an insertion-order-preserving set, keeping the first
/// occurrence of each.
fn collect_unique(names: Vec<String>) -> (r: IndexSet<String>)
    ensures
        iset_elems(r) == dedup_names(names.deep_view()),
{
    let ghost dv = names.deep_view();
    let mut r = iset_new();
    let mut i: usize = 0;
    while i < names.len()
        invariant
            i <= names.len(),
            dv == names.deep_view(),
            dv.len() == names@.len(),
            iset_elems(r) == dedup_names(dv.take(i as int)),
        decreases names.len() - i,
    {
        proof {
            assert(dv.take(i + 1).drop_last() =~= dv.take(i as int));
            assert(dv.take(i + 1).last() == dv[i as int]);
            assert(dv[i as int] == names@[i as int]@);
        }
        iset_insert(&mut r, names[i].clone());
        i = i + 1;
    }
    proof {
        assert(dv.take(names@.len() as int) =~= dv);
    }
    r
}

} // verus!
