//! The roster engine: actors ordered by initiative, a turn pointer, and
//! the validated operations that keep both consistent.

use vstd::prelude::*;

verus! {

/// Largest number of actors the roster may hold.
pub const ACTOR_MAX: usize = 99;

/// Largest allowed initiative score; the smallest is 1.
pub const INITIATIVE_MAX: usize = 9999;

/// Largest allowed name length, in characters; names may not be empty.
pub const ACTOR_NAME_MAX_CHARS: usize = 20;

/// A roster entry: a named participant with an initiative score.
#[derive(Debug)]
pub struct Actor {
    pub name: String,
    pub initiative: usize,
}

/// Every way an operation on the roster can be rejected.
#[derive(Debug, PartialEq, Eq, Structural, Clone, Copy)]
pub enum TrackerError {
    MaximumActorsReached,
    EmptyActorName,
    ActorNameTooLong,
    ActorNameAlreadyExists,
    InitiativeIsZero,
    InitiativeTooLarge,
    TrackerEmpty,
    IndexDoesNotExist,
    InvalidOption,
}

/// A name is acceptable when it is non-empty and at most
/// `ACTOR_NAME_MAX_CHARS` characters long.
pub open spec fn name_ok(name: Seq<char>) -> bool {
    1 <= name.len() <= ACTOR_NAME_MAX_CHARS
}

/// An initiative score is acceptable when it lies in `[1, INITIATIVE_MAX]`.
pub open spec fn initiative_ok(initiative: int) -> bool {
    1 <= initiative <= INITIATIVE_MAX
}

/// Some actor in the roster already carries this name (exact,
/// case-sensitive match).
pub open spec fn has_name(roster: Seq<Actor>, name: Seq<char>) -> bool {
    exists|i: int| 0 <= i < roster.len() && #[trigger] roster[i].name@ == name
}

/// No two actors in the roster share a name.
pub open spec fn names_unique(roster: Seq<Actor>) -> bool {
    forall|i: int, j: int|
        0 <= i < j < roster.len() ==> #[trigger] roster[i].name@ != #[trigger] roster[j].name@
}

/// The roster is ordered by initiative, non-increasing from front to back.
pub open spec fn sorted_by_initiative(roster: Seq<Actor>) -> bool {
    forall|i: int, j: int|
        0 <= i <= j < roster.len() ==> #[trigger] roster[i].initiative >= #[trigger] roster[j].initiative
}

/// The roster invariant: bounded size, valid names and initiatives,
/// unique names, and descending initiative order.
pub open spec fn roster_ok(roster: Seq<Actor>) -> bool {
    &&& roster.len() <= ACTOR_MAX
    &&& forall|i: int| 0 <= i < roster.len() ==> name_ok(#[trigger] roster[i].name@)
    &&& forall|i: int| 0 <= i < roster.len() ==> initiative_ok(#[trigger] roster[i].initiative as int)
    &&& names_unique(roster)
    &&& sorted_by_initiative(roster)
}

/// The turn pointer invariant: a valid index whenever the roster is
/// non-empty, and pinned at 0 while the roster is empty (the pointer is
/// never dereferenced then, but keeping it at 0 lets the first insertion
/// leave it untouched and still valid).
pub open spec fn turn_ok(roster: Seq<Actor>, turn: int) -> bool {
    if roster.len() == 0 {
        turn == 0
    } else {
        0 <= turn < roster.len()
    }
}

/// Validates an initiative score against `[1, INITIATIVE_MAX]`.
pub fn validate_initiative(initiative: usize) -> (r: Result<(), TrackerError>)
    ensures
        r == Ok::<(), TrackerError>(()) <==> initiative_ok(initiative as int),
        initiative == 0 ==> r == Err::<(), TrackerError>(TrackerError::InitiativeIsZero),
        initiative > INITIATIVE_MAX ==> r == Err::<(), TrackerError>(TrackerError::InitiativeTooLarge),
{
    if initiative == 0 {
        Err(TrackerError::InitiativeIsZero)
    } else if initiative > INITIATIVE_MAX {
        Err(TrackerError::InitiativeTooLarge)
    } else {
        Ok(())
    }
}

/// Validates a prospective actor name: non-empty, within the length
/// bound, and not already carried by any actor in the roster.
pub fn validate_name(tracker: &Vec<Actor>, name: &String) -> (r: Result<(), TrackerError>)
    ensures
        r == Ok::<(), TrackerError>(()) <==> (name_ok(name@) && !has_name(tracker@, name@)),
        name@.len() == 0 ==> r == Err::<(), TrackerError>(TrackerError::EmptyActorName),
        name@.len() > ACTOR_NAME_MAX_CHARS ==> r == Err::<(), TrackerError>(
            TrackerError::ActorNameTooLong,
        ),
        name_ok(name@) && has_name(tracker@, name@) ==> r == Err::<(), TrackerError>(
            TrackerError::ActorNameAlreadyExists,
        ),
{
    let length = name.as_str().unicode_len();
    if length == 0 {
        return Err(TrackerError::EmptyActorName);
    }
    if length > ACTOR_NAME_MAX_CHARS {
        return Err(TrackerError::ActorNameTooLong);
    }
    let mut i: usize = 0;
    while i < tracker.len()
        invariant
            i <= tracker@.len(),
            name_ok(name@),
            forall|j: int| 0 <= j < i ==> #[trigger] tracker@[j].name@ != name@,
        decreases tracker@.len() - i,
    {
        if tracker[i].name == *name {
            return Err(TrackerError::ActorNameAlreadyExists);
        }
        i += 1;
    }
    Ok(())
}

/// Validates an index against the roster: the roster must be non-empty
/// and the index must fall inside it.
pub fn validate_index(tracker: &Vec<Actor>, index: usize) -> (r: Result<(), TrackerError>)
    ensures
        r == Ok::<(), TrackerError>(()) <==> index < tracker@.len(),
        tracker@.len() == 0 ==> r == Err::<(), TrackerError>(TrackerError::TrackerEmpty),
        tracker@.len() > 0 && index >= tracker@.len() ==> r == Err::<(), TrackerError>(
            TrackerError::IndexDoesNotExist,
        ),
{
    if tracker.len() == 0 {
        Err(TrackerError::TrackerEmpty)
    } else if index >= tracker.len() {
        Err(TrackerError::IndexDoesNotExist)
    } else {
        Ok(())
    }
}

/// Validates a one-based menu choice against a menu of `num_options`
/// entries and converts it to the zero-based option index.
pub fn validate_option(choice: usize, num_options: usize) -> (r: Result<usize, TrackerError>)
    ensures
        1 <= choice <= num_options ==> r == Ok::<usize, TrackerError>((choice - 1) as usize),
        !(1 <= choice <= num_options) ==> r == Err::<usize, TrackerError>(
            TrackerError::InvalidOption,
        ),
{
    if 1 <= choice && choice <= num_options {
        Ok(choice - 1)
    } else {
        Err(TrackerError::InvalidOption)
    }
}

/// The initial state — an empty roster with the turn pointer at 0 —
/// satisfies every invariant. Together with the preservation clauses in
/// the contracts of the mutating operations this shows that the
/// invariants hold in every reachable state: the roster stays within its
/// bounds, names stay unique, the order stays non-increasing by
/// initiative, and the turn pointer stays valid.
pub proof fn lemma_initial_state_ok()
    ensures
        roster_ok(Seq::<Actor>::empty()),
        turn_ok(Seq::<Actor>::empty(), 0),
{
}

/// The position at which an actor with the given initiative is inserted:
/// the first position whose occupant's initiative is at most the new
/// score, or the end of the roster if there is none. Among actors of
/// equal initiative the new entry therefore comes first; this tie-break
/// is a deliberate ordering rule of the tracker.
pub open spec fn insert_position(roster: Seq<Actor>, initiative: int) -> int
    decreases roster.len(),
{
    if roster.len() == 0 {
        0
    } else if roster[0].initiative <= initiative {
        0
    } else {
        1 + insert_position(roster.skip(1), initiative)
    }
}

/// `insert_position` names the boundary between the strictly larger
/// initiatives at the front of the roster and the rest.
pub proof fn lemma_insert_position_bounds(roster: Seq<Actor>, initiative: int)
    ensures
        0 <= insert_position(roster, initiative) <= roster.len(),
        forall|j: int|
            0 <= j < insert_position(roster, initiative) ==> #[trigger] roster[j].initiative
                > initiative,
        insert_position(roster, initiative) < roster.len() ==> roster[insert_position(
            roster,
            initiative,
        )].initiative <= initiative,
    decreases roster.len(),
{
    if roster.len() > 0 && roster[0].initiative > initiative {
        lemma_insert_position_bounds(roster.skip(1), initiative);
        assert forall|j: int|
            0 <= j < insert_position(roster, initiative) implies #[trigger] roster[j].initiative
            > initiative by {
            if j > 0 {
                assert(roster.skip(1)[j - 1] == roster[j]);
            }
        }
        if insert_position(roster, initiative) < roster.len() {
            assert(roster.skip(1)[insert_position(roster.skip(1), initiative)] == roster[
                insert_position(roster, initiative)]);
        }
    }
}

/// Any boundary with the same two properties is `insert_position`.
pub proof fn lemma_insert_position_unique(roster: Seq<Actor>, initiative: int, pos: int)
    requires
        0 <= pos <= roster.len(),
        forall|j: int| 0 <= j < pos ==> #[trigger] roster[j].initiative > initiative,
        pos < roster.len() ==> roster[pos].initiative <= initiative,
    ensures
        pos == insert_position(roster, initiative),
{
    lemma_insert_position_bounds(roster, initiative);
    let ip = insert_position(roster, initiative);
    if pos < ip {
        assert(roster[pos].initiative > initiative);
    } else if ip < pos {
        assert(roster[ip].initiative > initiative);
    }
}

/// Inserting a validated actor at its computed position preserves every
/// roster invariant: the size bound, name and initiative bounds, name
/// uniqueness, and the non-increasing initiative order.
pub proof fn lemma_create_preserves_roster(roster: Seq<Actor>, actor: Actor)
    requires
        roster_ok(roster),
        roster.len() < ACTOR_MAX,
        name_ok(actor.name@),
        !has_name(roster, actor.name@),
        initiative_ok(actor.initiative as int),
    ensures
        roster_ok(roster.insert(insert_position(roster, actor.initiative as int), actor)),
{
    let v = actor.initiative as int;
    let ip = insert_position(roster, v);
    lemma_insert_position_bounds(roster, v);
    let grown = roster.insert(ip, actor);
    assert forall|i: int| 0 <= i < grown.len() implies name_ok(#[trigger] grown[i].name@) by {
        if i != ip {
            let k: int = if i < ip { i } else { i - 1 };
            assert(grown[i] == roster[k]);
        }
    }
    assert forall|i: int| 0 <= i < grown.len() implies initiative_ok(
        #[trigger] grown[i].initiative as int,
    ) by {
        if i != ip {
            let k: int = if i < ip { i } else { i - 1 };
            assert(grown[i] == roster[k]);
        }
    }
    assert forall|i: int, j: int| 0 <= i < j < grown.len() implies #[trigger] grown[i].name@
        != #[trigger] grown[j].name@ by {
        if i != ip && j != ip {
            let ki: int = if i < ip { i } else { i - 1 };
            let kj: int = if j < ip { j } else { j - 1 };
            assert(grown[i] == roster[ki]);
            assert(grown[j] == roster[kj]);
        } else if i == ip {
            let kj: int = j - 1;
            assert(grown[j] == roster[kj]);
            assert(!(roster[kj].name@ == actor.name@));
        } else {
            assert(grown[i] == roster[i]);
            assert(!(roster[i].name@ == actor.name@));
        }
    }
    assert forall|i: int, j: int| 0 <= i <= j < grown.len() implies #[trigger] grown[i].initiative
        >= #[trigger] grown[j].initiative by {
        let ki: int = if i < ip { i } else { i - 1 };
        let kj: int = if j < ip { j } else { j - 1 };
        if i != ip {
            assert(grown[i] == roster[ki]);
        }
        if j != ip {
            assert(grown[j] == roster[kj]);
        }
        if i == ip && j > ip {
            assert(roster[kj].initiative <= roster[ip].initiative);
        }
        if j == ip && i < ip {
            assert(roster[i].initiative > v);
        }
    }
}

/// All conditions under which a Create with these inputs succeeds.
pub open spec fn create_ok(roster: Seq<Actor>, name: Seq<char>, initiative: int) -> bool {
    &&& roster.len() < ACTOR_MAX
    &&& name_ok(name)
    &&& !has_name(roster, name)
    &&& initiative_ok(initiative)
}

/// The roster after a successful Create: the new actor stands at
/// `insert_position`.
pub open spec fn created_roster(roster: Seq<Actor>, actor: Actor) -> Seq<Actor> {
    roster.insert(insert_position(roster, actor.initiative as int), actor)
}

/// The turn pointer after a successful Create: moved one step right when
/// the insertion happened at or before it in a previously non-empty
/// roster (so that it keeps denoting the same actor), else unchanged.
pub open spec fn created_turn(roster: Seq<Actor>, turn: int, initiative: int) -> int {
    if roster.len() > 0 && insert_position(roster, initiative) <= turn {
        turn + 1
    } else {
        turn
    }
}

/// Adds an actor to the roster, keeping it ordered.
///
/// With a full roster the operation is rejected outright; otherwise the
/// name and the initiative are validated exactly as `validate_name` and
/// `validate_initiative` do (name first). On success the actor is placed
/// at `insert_position`, before any existing actor of equal initiative,
/// and the turn pointer is moved one step right when the insertion
/// happened at or before it in a previously non-empty roster, so that it
/// keeps denoting the same actor. On rejection nothing changes.
pub fn create_actor(
    tracker: &mut Vec<Actor>,
    turn: &mut usize,
    name: String,
    initiative: usize,
) -> (r: Result<(), TrackerError>)
    requires
        roster_ok(old(tracker)@),
        turn_ok(old(tracker)@, *old(turn) as int),
    ensures
        roster_ok(final(tracker)@),
        turn_ok(final(tracker)@, *final(turn) as int),
        r matches Err(_) ==> final(tracker)@ == old(tracker)@ && *final(turn) == *old(turn),
        old(tracker)@.len() == ACTOR_MAX ==> r == Err::<(), TrackerError>(
            TrackerError::MaximumActorsReached,
        ),
        old(tracker)@.len() < ACTOR_MAX && name@.len() == 0 ==> r == Err::<(), TrackerError>(
            TrackerError::EmptyActorName,
        ),
        old(tracker)@.len() < ACTOR_MAX && name@.len() > ACTOR_NAME_MAX_CHARS ==> r == Err::<
            (),
            TrackerError,
        >(TrackerError::ActorNameTooLong),
        old(tracker)@.len() < ACTOR_MAX && name_ok(name@) && has_name(old(tracker)@, name@)
            ==> r == Err::<(), TrackerError>(TrackerError::ActorNameAlreadyExists),
        old(tracker)@.len() < ACTOR_MAX && name_ok(name@) && !has_name(old(tracker)@, name@)
            && initiative == 0 ==> r == Err::<(), TrackerError>(TrackerError::InitiativeIsZero),
        old(tracker)@.len() < ACTOR_MAX && name_ok(name@) && !has_name(old(tracker)@, name@)
            && initiative > INITIATIVE_MAX ==> r == Err::<(), TrackerError>(
            TrackerError::InitiativeTooLarge,
        ),
        create_ok(old(tracker)@, name@, initiative as int) ==> {
            &&& r == Ok::<(), TrackerError>(())
            &&& final(tracker)@ == created_roster(old(tracker)@, (Actor { name, initiative }))
            &&& *final(turn) as int == created_turn(
                old(tracker)@,
                *old(turn) as int,
                initiative as int,
            )
        },
{
    if tracker.len() == ACTOR_MAX {
        return Err(TrackerError::MaximumActorsReached);
    }
    if let Err(e) = validate_name(tracker, &name) {
        return Err(e);
    }
    if let Err(e) = validate_initiative(initiative) {
        return Err(e);
    }
    let ghost roster0 = tracker@;
    let mut index: usize = 0;
    while index < tracker.len() && tracker[index].initiative > initiative
        invariant
            tracker@ == roster0,
            index <= tracker@.len(),
            forall|j: int| 0 <= j < index ==> #[trigger] tracker@[j].initiative > initiative,
        decreases tracker@.len() - index,
    {
        index += 1;
    }
    proof {
        lemma_insert_position_unique(roster0, initiative as int, index as int);
        lemma_create_preserves_roster(roster0, Actor { name: name, initiative });
    }
    let was_empty = tracker.len() == 0;
    let actor = Actor { name, initiative };
    tracker.insert(index, actor);
    if !was_empty && index <= *turn {
        *turn = *turn + 1;
    }
    Ok(())
}

/// Removing any actor preserves every roster invariant, and the removed
/// actor's name no longer occurs in the roster.
pub proof fn lemma_remove_preserves_roster(roster: Seq<Actor>, index: int)
    requires
        roster_ok(roster),
        0 <= index < roster.len(),
    ensures
        roster_ok(roster.remove(index)),
        !has_name(roster.remove(index), roster[index].name@),
{
    let rest = roster.remove(index);
    assert forall|i: int| 0 <= i < rest.len() implies #[trigger] rest[i] == roster[
        (if i < index {
            i
        } else {
            i + 1
        })
    ] by {}
    assert forall|i: int| 0 <= i < rest.len() implies rest[i].name@ != roster[index].name@ by {
        let k: int = if i < index {
            i
        } else {
            i + 1
        };
        assert(rest[i] == roster[k]);
    }
}

/// The turn pointer after a successful Delete at `index`: it keeps
/// denoting the same actor where that actor survives; when the active
/// actor itself is deleted, its successor (wrapping to the front)
/// becomes active; an emptied roster pins the pointer at 0.
pub open spec fn deleted_turn(roster: Seq<Actor>, turn: int, index: int) -> int {
    let remaining = roster.len() - 1;
    if remaining == 0 {
        0
    } else if index < turn {
        turn - 1
    } else if turn >= remaining {
        0
    } else {
        turn
    }
}

/// Removes the actor at `index`, shifting later actors left.
///
/// An empty roster is rejected with `TrackerEmpty`, an out-of-range index
/// with `IndexDoesNotExist`; rejection changes nothing. On success the
/// turn pointer is adjusted as `deleted_turn` describes.
pub fn delete_actor(tracker: &mut Vec<Actor>, turn: &mut usize, index: usize) -> (r: Result<
    (),
    TrackerError,
>)
    requires
        roster_ok(old(tracker)@),
        turn_ok(old(tracker)@, *old(turn) as int),
    ensures
        roster_ok(final(tracker)@),
        turn_ok(final(tracker)@, *final(turn) as int),
        r matches Err(_) ==> final(tracker)@ == old(tracker)@ && *final(turn) == *old(turn),
        old(tracker)@.len() == 0 ==> r == Err::<(), TrackerError>(TrackerError::TrackerEmpty),
        old(tracker)@.len() > 0 && index >= old(tracker)@.len() ==> r == Err::<(), TrackerError>(
            TrackerError::IndexDoesNotExist,
        ),
        index < old(tracker)@.len() ==> {
            &&& r == Ok::<(), TrackerError>(())
            &&& final(tracker)@ == old(tracker)@.remove(index as int)
            &&& *final(turn) as int == deleted_turn(old(tracker)@, *old(turn) as int, index as int)
        },
{
    if let Err(e) = validate_index(tracker, index) {
        return Err(e);
    }
    proof {
        lemma_remove_preserves_roster(tracker@, index as int);
    }
    tracker.remove(index);
    if tracker.len() == 0 {
        *turn = 0;
    } else if index < *turn {
        *turn = *turn - 1;
    } else if *turn >= tracker.len() {
        *turn = 0;
    }
    Ok(())
}

/// The change an Update applies to the selected actor: a new name or a
/// new initiative score.
pub enum ActorUpdate {
    Name(String),
    Initiative(usize),
}

/// The roster after renaming the actor at `index`.
pub open spec fn renamed_roster(roster: Seq<Actor>, index: int, name: String) -> Seq<Actor> {
    roster.update(index, (Actor { name: name, initiative: roster[index].initiative }))
}

/// Renaming an actor to a fresh, valid name preserves every roster
/// invariant.
pub proof fn lemma_rename_preserves_roster(roster: Seq<Actor>, index: int, name: String)
    requires
        roster_ok(roster),
        0 <= index < roster.len(),
        name_ok(name@),
        !has_name(roster, name@),
    ensures
        roster_ok(renamed_roster(roster, index, name)),
{
    let updated = renamed_roster(roster, index, name);
    assert forall|i: int, j: int| 0 <= i < j < updated.len() implies #[trigger] updated[i].name@
        != #[trigger] updated[j].name@ by {
        if i == index {
            assert(!(roster[j].name@ == name@));
        } else if j == index {
            assert(!(roster[i].name@ == name@));
        }
    }
}

/// The roster after changing the initiative of the actor at `index`:
/// the actor is taken out and re-inserted at the position its new score
/// calls for, before any existing actor of equal initiative.
pub open spec fn rescored_roster(roster: Seq<Actor>, index: int, initiative: usize) -> Seq<Actor> {
    let rest = roster.remove(index);
    rest.insert(
        insert_position(rest, initiative as int),
        (Actor { name: roster[index].name, initiative }),
    )
}

/// The turn pointer after changing the initiative of the actor at
/// `index`: it follows the actor it denoted before — the moved actor
/// itself when that one was active, else the surviving active actor
/// through the removal and re-insertion shifts.
pub open spec fn rescored_turn(roster: Seq<Actor>, turn: int, index: int, initiative: usize) -> int {
    let rest = roster.remove(index);
    let pos = insert_position(rest, initiative as int);
    if turn == index {
        pos
    } else {
        let shifted = if turn > index {
            turn - 1
        } else {
            turn
        };
        if pos <= shifted {
            shifted + 1
        } else {
            shifted
        }
    }
}

/// Replaces one field of the actor at `index`.
///
/// The index is validated first (`TrackerEmpty`, `IndexDoesNotExist`),
/// then the new value exactly as in Create; rejection changes nothing.
/// A new name must pass the length bounds and be unlike every name in
/// the roster, the target's own included. A new initiative score moves
/// the actor to the position the score calls for, and the turn pointer
/// keeps denoting the actor it denoted before the change.
pub fn update_actor(
    tracker: &mut Vec<Actor>,
    turn: &mut usize,
    index: usize,
    update: ActorUpdate,
) -> (r: Result<(), TrackerError>)
    requires
        roster_ok(old(tracker)@),
        turn_ok(old(tracker)@, *old(turn) as int),
    ensures
        roster_ok(final(tracker)@),
        turn_ok(final(tracker)@, *final(turn) as int),
        r matches Err(_) ==> final(tracker)@ == old(tracker)@ && *final(turn) == *old(turn),
        old(tracker)@.len() == 0 ==> r == Err::<(), TrackerError>(TrackerError::TrackerEmpty),
        old(tracker)@.len() > 0 && index >= old(tracker)@.len() ==> r == Err::<(), TrackerError>(
            TrackerError::IndexDoesNotExist,
        ),
        update matches ActorUpdate::Name(name) ==> index < old(tracker)@.len() ==> {
            &&& name@.len() == 0 ==> r == Err::<(), TrackerError>(TrackerError::EmptyActorName)
            &&& name@.len() > ACTOR_NAME_MAX_CHARS ==> r == Err::<(), TrackerError>(
                TrackerError::ActorNameTooLong,
            )
            &&& name_ok(name@) && has_name(old(tracker)@, name@) ==> r == Err::<(), TrackerError>(
                TrackerError::ActorNameAlreadyExists,
            )
            &&& name_ok(name@) && !has_name(old(tracker)@, name@) ==> {
                &&& r == Ok::<(), TrackerError>(())
                &&& final(tracker)@ == renamed_roster(old(tracker)@, index as int, name)
                &&& *final(turn) == *old(turn)
            }
        },
        update matches ActorUpdate::Initiative(initiative) ==> index < old(tracker)@.len() ==> {
            &&& initiative == 0 ==> r == Err::<(), TrackerError>(TrackerError::InitiativeIsZero)
            &&& initiative > INITIATIVE_MAX ==> r == Err::<(), TrackerError>(
                TrackerError::InitiativeTooLarge,
            )
            &&& initiative_ok(initiative as int) ==> {
                &&& r == Ok::<(), TrackerError>(())
                &&& final(tracker)@ == rescored_roster(old(tracker)@, index as int, initiative)
                &&& *final(turn) as int == rescored_turn(
                    old(tracker)@,
                    *old(turn) as int,
                    index as int,
                    initiative,
                )
            }
        },
{
    if let Err(e) = validate_index(tracker, index) {
        return Err(e);
    }
    match update {
        ActorUpdate::Name(name) => {
            if let Err(e) = validate_name(tracker, &name) {
                return Err(e);
            }
            proof {
                lemma_rename_preserves_roster(tracker@, index as int, name);
            }
            let initiative = tracker[index].initiative;
            tracker[index] = Actor { name, initiative };
            Ok(())
        },
        ActorUpdate::Initiative(initiative) => {
            if let Err(e) = validate_initiative(initiative) {
                return Err(e);
            }
            let ghost roster0 = tracker@;
            proof {
                lemma_remove_preserves_roster(roster0, index as int);
            }
            let actor = tracker.remove(index);
            let ghost rest = tracker@;
            let mut pos: usize = 0;
            while pos < tracker.len() && tracker[pos].initiative > initiative
                invariant
                    tracker@ == rest,
                    pos <= tracker@.len(),
                    forall|j: int| 0 <= j < pos ==> #[trigger] tracker@[j].initiative > initiative,
                decreases tracker@.len() - pos,
            {
                pos += 1;
            }
            let moved = Actor { name: actor.name, initiative };
            proof {
                lemma_insert_position_unique(rest, initiative as int, pos as int);
                lemma_create_preserves_roster(rest, moved);
            }
            tracker.insert(pos, moved);
            if *turn == index {
                *turn = pos;
            } else {
                let shifted = if *turn > index {
                    *turn - 1
                } else {
                    *turn
                };
                *turn = if pos <= shifted {
                    shifted + 1
                } else {
                    shifted
                };
            }
            Ok(())
        },
    }
}

/// Advances the turn pointer by one, wrapping at the end of the roster.
///
/// An empty roster is rejected with `TrackerEmpty` and nothing changes.
pub fn next_turn(tracker: &Vec<Actor>, turn: &mut usize) -> (r: Result<(), TrackerError>)
    requires
        turn_ok(tracker@, *old(turn) as int),
    ensures
        turn_ok(tracker@, *final(turn) as int),
        tracker@.len() == 0 ==> r == Err::<(), TrackerError>(TrackerError::TrackerEmpty)
            && *final(turn) == *old(turn),
        tracker@.len() > 0 ==> r == Ok::<(), TrackerError>(()) && *final(turn) as int == (*old(turn)
            + 1) as int % tracker@.len() as int,
{
    if tracker.len() == 0 {
        return Err(TrackerError::TrackerEmpty);
    }
    *turn = (*turn + 1) % tracker.len();
    Ok(())
}

/// Looks up the actor at `index` for display.
///
/// An empty roster is rejected with `TrackerEmpty`, an out-of-range index
/// with `IndexDoesNotExist`.
pub fn get_actor<'a>(tracker: &'a Vec<Actor>, index: usize) -> (r: Result<&'a Actor, TrackerError>)
    ensures
        tracker@.len() == 0 ==> r == Err::<&'a Actor, TrackerError>(TrackerError::TrackerEmpty),
        tracker@.len() > 0 && index >= tracker@.len() ==> r == Err::<&'a Actor, TrackerError>(
            TrackerError::IndexDoesNotExist,
        ),
        index < tracker@.len() ==> (r matches Ok(a) && *a == tracker@[index as int]),
{
    if let Err(e) = validate_index(tracker, index) {
        return Err(e);
    }
    Ok(&tracker[index])
}

} // verus!
