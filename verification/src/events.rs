//! The events of a game, read from the frames of its replay: for now, deaths.

use crate::replay::{
    copies_game, entry_at, name_path, names_at, player_tag, read_replay, recorded_players,
    tag_text, text_at, ReplayError, StartPlayer,
};
use ssbm_data::action_state::Common;
use std::collections::HashSet;
use vstd::prelude::*;
use vstd::string::*;

verus! {

broadcast use vstd::std_specs::hash::group_hash_axioms;

/// A player lost a stock.
#[derive(Debug)]
pub struct DeathEvent {
    /// The number of the frame in which the player began to die.
    pub frame: i32,
    pub port: u8,
    pub player_tag: String,
}

/// Something that happened in a game.
#[derive(Debug)]
pub enum GameEvent {
    Death(DeathEvent),
}

/// A death as plain values.
pub struct DeathView {
    pub frame: i32,
    pub port: u8,
    pub player_tag: Seq<char>,
}

/// Events as plain values.
pub open spec fn event_views(events: Seq<GameEvent>) -> Seq<DeathView> {
    events.map_values(
        |e: GameEvent|
            match e {
                GameEvent::Death(d) => DeathView {
                    frame: d.frame,
                    port: d.port,
                    player_tag: d.player_tag@,
                },
            },
    )
}

/// The frames of a game, as far as events are read from them.
#[derive(Debug)]
pub struct FrameData {
    /// The number of each frame, where the replay gives one.
    pub ids: Vec<Option<i32>>,
    /// For each port in play, the action state of its character in each frame.
    pub states: Vec<Vec<Option<u16>>>,
    /// For each port in play, its number.
    pub ports: Vec<u8>,
    /// For each port in play, the tag of its player.
    pub tags: Vec<String>,
}

/// The frames of a game as plain values.
pub struct FramesView {
    pub ids: Seq<Option<i32>>,
    pub states: Seq<Seq<Option<u16>>>,
    pub ports: Seq<u8>,
    pub tags: Seq<Seq<char>>,
}

impl View for FrameData {
    type V = FramesView;

    open spec fn view(&self) -> FramesView {
        FramesView {
            ids: self.ids@,
            states: self.states@.map_values(|s: Vec<Option<u16>>| s@),
            ports: self.ports@,
            tags: self.tags@.map_values(|t: String| t@),
        }
    }
}

/// The number of a frame, 0 where the replay gives none.
pub open spec fn frame_number(id: Option<i32>) -> i32 {
    match id {
        Some(n) => n,
        None => 0,
    }
}

/// The numbers of the frames.
pub open spec fn frame_numbers(ids: Seq<Option<i32>>) -> Seq<i32> {
    ids.map_values(|id: Option<i32>| frame_number(id))
}

/// Whether the frame at `i` was rolled back: a later frame has its number.
pub open spec fn is_rolled_back(numbers: Seq<i32>, i: int) -> bool {
    exists|j: int| i < j < numbers.len() && #[trigger] numbers[j] == numbers[i]
}

/// Whether an action state is one of the eleven in which a character dies.
pub open spec fn is_death_state(state: Option<u16>) -> bool {
    match state {
        Some(s) => s <= 10,
        None => false,
    }
}

/// Whether the frames have a shape that events can be read from: each port
/// has a state for each frame, a number and a tag.
pub open spec fn is_consistent(frames: FramesView) -> bool {
    &&& frames.ports.len() == frames.states.len()
    &&& frames.tags.len() == frames.states.len()
    &&& forall|p: int|
        0 <= p < frames.states.len() ==> (#[trigger] frames.states[p]).len() == frames.ids.len()
}

/// Whether a character counts as dying when frame `f` begins: it was in a
/// death state in the last frame before `f` that was not rolled back.
pub open spec fn dead_before(states: Seq<Option<u16>>, numbers: Seq<i32>, f: int) -> bool
    decreases f,
{
    if f <= 0 {
        false
    } else if is_rolled_back(numbers, f - 1) {
        dead_before(states, numbers, f - 1)
    } else {
        is_death_state(states[f - 1])
    }
}

/// Whether a character begins to die in frame `f`: the frame was not rolled
/// back, the character is in a death state, and was not dying already.
pub open spec fn dies_in(states: Seq<Option<u16>>, numbers: Seq<i32>, f: int) -> bool {
    !is_rolled_back(numbers, f) && is_death_state(states[f]) && !dead_before(states, numbers, f)
}

/// The death of the player at port index `p` in frame `f`.
pub open spec fn death_at(frames: FramesView, f: int, p: int) -> DeathView {
    DeathView { frame: frame_number(frames.ids[f]), port: frames.ports[p], player_tag: frames.tags[p] }
}

/// The deaths of frame `f` among the first `ports` ports, in port order.
pub open spec fn deaths_in_frame(frames: FramesView, f: int, ports: int) -> Seq<DeathView>
    decreases ports,
{
    if ports <= 0 {
        Seq::empty()
    } else {
        let before = deaths_in_frame(frames, f, ports - 1);
        if dies_in(frames.states[ports - 1], frame_numbers(frames.ids), f) {
            before.push(death_at(frames, f, ports - 1))
        } else {
            before
        }
    }
}

/// The deaths of the first `upto` frames, frame by frame.
pub open spec fn deaths_before(frames: FramesView, upto: int) -> Seq<DeathView>
    decreases upto,
{
    if upto <= 0 {
        Seq::empty()
    } else {
        deaths_before(frames, upto - 1) + deaths_in_frame(
            frames,
            upto - 1,
            frames.states.len() as int,
        )
    }
}

/// The deaths of a game.
pub open spec fn deaths_of(frames: FramesView) -> Seq<DeathView> {
    deaths_before(frames, frames.ids.len() as int)
}

/// The action states that matter to a game's events: the eleven in which a
/// character dies, and one variant for all the others.
pub enum CommonState {
    DeadDown,
    DeadLeft,
    DeadRight,
    DeadUp,
    DeadUpStar,
    DeadUpStarIce,
    DeadUpFall,
    DeadUpFallHitCamera,
    DeadUpFallHitCameraFlat,
    DeadUpFallIce,
    DeadUpFallHitCameraIce,
    Other,
}

/// The state that a number stands for.
pub open spec fn state_named(state: u16) -> CommonState {
    if state == 0 {
        CommonState::DeadDown
    } else if state == 1 {
        CommonState::DeadLeft
    } else if state == 2 {
        CommonState::DeadRight
    } else if state == 3 {
        CommonState::DeadUp
    } else if state == 4 {
        CommonState::DeadUpStar
    } else if state == 5 {
        CommonState::DeadUpStarIce
    } else if state == 6 {
        CommonState::DeadUpFall
    } else if state == 7 {
        CommonState::DeadUpFallHitCamera
    } else if state == 8 {
        CommonState::DeadUpFallHitCameraFlat
    } else if state == 9 {
        CommonState::DeadUpFallIce
    } else if state == 10 {
        CommonState::DeadUpFallHitCameraIce
    } else {
        CommonState::Other
    }
}

/// Whether a character in this state is dying.
pub open spec fn counts_as_death(state: CommonState) -> bool {
    !(state is Other)
}

/// A number stands for a death exactly where it names one of the eleven.
pub proof fn lemma_deaths_are_named(state: u16)
    ensures
        is_death_state(Some(state)) == counts_as_death(state_named(state)),
{
}

/// Names an action state through `Common::try_from` of `ssbm_data`: each of
/// the eleven `Dead...` variants, which that enum numbers 0 to 10, keeps its
/// name; every other variant, and a number that is none, is `Other`.
#[verifier::external_body]
fn common_state(state: u16) -> (named: CommonState)
    ensures
        named == state_named(state),
{
    match Common::try_from(state) {
        Ok(Common::DeadDown) => CommonState::DeadDown,
        Ok(Common::DeadLeft) => CommonState::DeadLeft,
        Ok(Common::DeadRight) => CommonState::DeadRight,
        Ok(Common::DeadUp) => CommonState::DeadUp,
        Ok(Common::DeadUpStar) => CommonState::DeadUpStar,
        Ok(Common::DeadUpStarIce) => CommonState::DeadUpStarIce,
        Ok(Common::DeadUpFall) => CommonState::DeadUpFall,
        Ok(Common::DeadUpFallHitCamera) => CommonState::DeadUpFallHitCamera,
        Ok(Common::DeadUpFallHitCameraFlat) => CommonState::DeadUpFallHitCameraFlat,
        Ok(Common::DeadUpFallIce) => CommonState::DeadUpFallIce,
        Ok(Common::DeadUpFallHitCameraIce) => CommonState::DeadUpFallHitCameraIce,
        _ => CommonState::Other,
    }
}

/// Whether a named state is one in which a character dies.
pub fn is_dying(state: &CommonState) -> (dead: bool)
    ensures
        dead == counts_as_death(*state),
{
    match state {
        CommonState::Other => false,
        _ => true,
    }
}

/// Whether an action state is one in which a character dies.
pub fn state_is_death(state: Option<u16>) -> (dead: bool)
    ensures
        dead == is_death_state(state),
{
    match state {
        Some(s) => {
            let named = common_state(s);
            is_dying(&named)
        },
        None => false,
    }
}

/// Marks the frames that were rolled back: all of equal number but the last.
pub fn rollback_flags(ids: &Vec<Option<i32>>) -> (flags: Vec<bool>)
    ensures
        flags@.len() == ids@.len(),
        forall|i: int|
            0 <= i < ids@.len() ==> #[trigger] flags@[i] == is_rolled_back(frame_numbers(ids@), i),
{
    let n = ids.len();
    let ghost numbers = frame_numbers(ids@);
    let mut flags: Vec<bool> = Vec::new();
    let mut k: usize = 0;
    while k < n
        invariant
            k <= n,
            flags@.len() == k,
        decreases n - k,
    {
        flags.push(false);
        k += 1;
    }
    let mut seen: HashSet<i32> = HashSet::new();
    let mut i: usize = n;
    while i > 0
        invariant
            n == ids@.len(),
            numbers == frame_numbers(ids@),
            i <= n,
            flags@.len() == n,
            forall|v: i32|
                seen@.contains(v) <==> exists|j: int| i <= j < n && #[trigger] numbers[j] == v,
            forall|m: int| i <= m < n ==> #[trigger] flags@[m] == is_rolled_back(numbers, m),
        decreases i,
    {
        i -= 1;
        let number: i32 = match ids[i] {
            Some(v) => v,
            None => 0,
        };
        assert(numbers[i as int] == number);
        let repeated = seen.contains(&number);
        proof {
            if repeated {
                let j = choose|j: int| i < j < n && #[trigger] numbers[j] == number;
                assert(is_rolled_back(numbers, i as int));
            }
            if is_rolled_back(numbers, i as int) {
                let j = choose|j: int| i < j < numbers.len() && #[trigger] numbers[j] == numbers[i as int];
                assert(seen@.contains(number));
            }
        }
        flags.set(i, repeated);
        let ghost before = seen@;
        seen.insert(number);
        proof {
            assert forall|v: i32| seen@.contains(v) <==> exists|j: int|
                i <= j < n && #[trigger] numbers[j] == v by {
                if seen@.contains(v) {
                    if v == number {
                        assert(numbers[i as int] == v);
                    } else {
                        assert(before.contains(v));
                        let j = choose|j: int| i + 1 <= j < n && #[trigger] numbers[j] == v;
                        assert(numbers[j] == v);
                    }
                }
                if exists|j: int| i <= j < n && #[trigger] numbers[j] == v {
                    let j = choose|j: int| i <= j < n && #[trigger] numbers[j] == v;
                    if j > i {
                        assert(before.contains(v));
                    }
                }
            }
        }
    }
    flags
}

/// Whether the frames have a shape that events can be read from.
pub fn frames_are_consistent(frames: &FrameData) -> (consistent: bool)
    ensures
        consistent == is_consistent(frames@),
{
    if frames.ports.len() != frames.states.len() || frames.tags.len() != frames.states.len() {
        return false;
    }
    let mut p: usize = 0;
    while p < frames.states.len()
        invariant
            p <= frames.states.len(),
            forall|q: int| 0 <= q < p ==> (#[trigger] frames@.states[q]).len() == frames@.ids.len(),
        decreases frames.states.len() - p,
    {
        assert(frames@.states[p as int] == frames.states@[p as int]@);
        if frames.states[p].len() != frames.ids.len() {
            return false;
        }
        p += 1;
    }
    true
}

proof fn lemma_no_deaths_in_rolled_back_frame(frames: FramesView, f: int, ports: int)
    requires
        is_rolled_back(frame_numbers(frames.ids), f),
    ensures
        deaths_in_frame(frames, f, ports) == Seq::<DeathView>::empty(),
    decreases ports,
{
    if ports > 0 {
        lemma_no_deaths_in_rolled_back_frame(frames, f, ports - 1);
    }
}

/// Reads the deaths out of the frames of a game.
///
/// Frames that were rolled back are skipped. A player dies in a frame in
/// which the character enters a death state; the frames that follow in the
/// same death state are part of the same death. The deaths come frame by
/// frame, and within one frame in port order. Frames of another shape than
/// one state, number and tag for each port are refused as `Inconsistent`.
pub fn extract_death_events(frames: &FrameData) -> (events: Result<Vec<GameEvent>, ReplayError>)
    ensures
        match events {
            Ok(deaths) => is_consistent(frames@) && event_views(deaths@) == deaths_of(frames@),
            Err(e) => !is_consistent(frames@) && e == ReplayError::Inconsistent,
        },
{
    if !frames_are_consistent(frames) {
        return Err(ReplayError::Inconsistent);
    }
    let rollbacks = rollback_flags(&frames.ids);
    let count = frames.ids.len();
    let ports = frames.states.len();
    let ghost numbers = frame_numbers(frames.ids@);
    let mut events: Vec<GameEvent> = Vec::new();
    let mut is_dead: Vec<bool> = Vec::new();
    let mut k: usize = 0;
    while k < ports
        invariant
            k <= ports,
            is_dead@.len() == k,
            forall|q: int| 0 <= q < k ==> !(#[trigger] is_dead@[q]),
        decreases ports - k,
    {
        is_dead.push(false);
        k += 1;
    }
    assert(event_views(events@) =~= deaths_before(frames@, 0));
    let mut f: usize = 0;
    while f < count
        invariant
            is_consistent(frames@),
            count == frames.ids@.len(),
            ports == frames.states@.len(),
            numbers == frame_numbers(frames.ids@),
            rollbacks@.len() == count,
            forall|i: int| 0 <= i < count ==> #[trigger] rollbacks@[i] == is_rolled_back(numbers, i),
            f <= count,
            is_dead@.len() == ports,
            forall|q: int|
                0 <= q < ports ==> #[trigger] is_dead@[q] == dead_before(
                    frames@.states[q],
                    numbers,
                    f as int,
                ),
            event_views(events@) == deaths_before(frames@, f as int),
        decreases count - f,
    {
        if rollbacks[f] {
            proof {
                lemma_no_deaths_in_rolled_back_frame(frames@, f as int, ports as int);
                assert(deaths_before(frames@, f + 1) =~= deaths_before(frames@, f as int));
            }
            f += 1;
            continue;
        }
        let ghost start = event_views(events@);
        let mut p: usize = 0;
        assert(event_views(events@) =~= start + deaths_in_frame(frames@, f as int, 0));
        while p < ports
            invariant
                is_consistent(frames@),
                count == frames.ids@.len(),
                ports == frames.states@.len(),
                numbers == frame_numbers(frames.ids@),
                f < count,
                !is_rolled_back(numbers, f as int),
                p <= ports,
                is_dead@.len() == ports,
                forall|q: int|
                    0 <= q < p ==> #[trigger] is_dead@[q] == dead_before(
                        frames@.states[q],
                        numbers,
                        f + 1,
                    ),
                forall|q: int|
                    p <= q < ports ==> #[trigger] is_dead@[q] == dead_before(
                        frames@.states[q],
                        numbers,
                        f as int,
                    ),
                event_views(events@) == start + deaths_in_frame(frames@, f as int, p as int),
            decreases ports - p,
        {
            assert(frames@.states[p as int] == frames.states@[p as int]@);
            assert(frames@.tags[p as int] == frames.tags@[p as int]@);
            let death = state_is_death(frames.states[p][f]);
            let ghost before = events@;
            if death && !is_dead[p] {
                is_dead.set(p, true);
                let frame: i32 = match frames.ids[f] {
                    Some(n) => n,
                    None => 0,
                };
                events.push(
                    GameEvent::Death(
                        DeathEvent {
                            frame,
                            port: frames.ports[p],
                            player_tag: frames.tags[p].clone(),
                        },
                    ),
                );
                proof {
                    assert(event_views(events@) =~= event_views(before).push(
                        death_at(frames@, f as int, p as int),
                    ));
                }
            } else if !death {
                is_dead.set(p, false);
            }
            p += 1;
            assert(event_views(events@) =~= start + deaths_in_frame(frames@, f as int, p as int));
        }
        f += 1;
    }
    Ok(events)
}

/// The number of each frame that a parsed game holds, in order; nothing for
/// a frame without number.
pub uninterp spec fn recorded_frame_ids(game: peppi::game::immutable::Game) -> Seq<Option<i32>>;

/// For each port of a parsed game, the action state that the game holds for
/// the port's leading character after each frame.
pub uninterp spec fn recorded_states(game: peppi::game::immutable::Game) -> Seq<
    Seq<Option<u16>>,
>;

/// The frames that a parsed game holds, with the number and the tag of each
/// of its players: the tag that the names in the metadata give for the
/// player's port.
pub open spec fn frames_of(game: peppi::game::immutable::Game) -> FramesView {
    let players = recorded_players(game);
    FramesView {
        ids: recorded_frame_ids(game),
        states: recorded_states(game),
        ports: players.map_values(|p: StartPlayer| p.port),
        tags: players.map_values(
            |p: StartPlayer|
                tag_text(
                    entry_at(game, name_path(p.port, "code"@)),
                    text_at(game, name_path(p.port, "netplay"@)),
                    p.port,
                ),
        ),
    }
}

/// Copies the number of each frame out of `Game::frames` of `peppi`, with the
/// iterator of the array that holds them; a frame without number comes out as
/// nothing. The contract names what comes out as the numbers that the game
/// holds.
#[verifier::external_body]
fn game_frame_ids(game: &peppi::game::immutable::Game) -> (ids: Vec<Option<i32>>)
    ensures
        ids@ == recorded_frame_ids(*game),
{
    game.frames.id.iter().map(|id| id.copied()).collect()
}

/// Copies out of `Game::frames` of `peppi`, for each port, the action state
/// of the port's leading character after each frame, with the iterator of
/// the array that holds them. The contract names what comes out as the
/// states that the game holds.
#[verifier::external_body]
fn game_port_states(game: &peppi::game::immutable::Game) -> (states: Vec<Vec<Option<u16>>>)
    ensures
        states@.map_values(|s: Vec<Option<u16>>| s@) == recorded_states(*game),
{
    game.frames.ports.iter().map(
        |p| p.leader.post.state.iter().map(|s| s.copied()).collect(),
    ).collect()
}

/// Copies out of a parsed game the frames that events are read from: the
/// number of each frame, the states of each port, and the number and the tag
/// of each player.
pub fn read_frames(game: &peppi::game::immutable::Game) -> (frames: FrameData)
    ensures
        frames@ == frames_of(*game),
{
    let data = read_replay(game);
    let mut ports: Vec<u8> = Vec::new();
    let mut tags: Vec<String> = Vec::new();
    let mut i: usize = 0;
    while i < data.players.len()
        invariant
            i <= data.players.len(),
            copies_game(data, *game),
            ports@.len() == i,
            tags@.len() == i,
            forall|k: int| 0 <= k < i ==> #[trigger] ports@[k] == frames_of(*game).ports[k],
            forall|k: int| 0 <= k < i ==> (#[trigger] tags@[k])@ == frames_of(*game).tags[k],
        decreases data.players.len() - i,
    {
        let port = data.players[i].port;
        let tag = player_tag(Some(&data.names[i]), port);
        assert(names_at(data.names@, i as int) == (
            entry_at(*game, name_path(port, "code"@)),
            text_at(*game, name_path(port, "netplay"@)),
        ));
        ports.push(port);
        tags.push(tag);
        i += 1;
    }
    let frames = FrameData {
        ids: game_frame_ids(game),
        states: game_port_states(game),
        ports,
        tags,
    };
    proof {
        assert(frames@.ports =~= frames_of(*game).ports);
        assert(frames@.tags =~= frames_of(*game).tags);
    }
    frames
}

/// Reads the deaths out of a parsed game: those of the frames that the game
/// holds, where each port in play has a player and a state for each frame,
/// and `Inconsistent` for any other game.
pub fn parse_slp_events(game: &peppi::game::immutable::Game) -> (events: Result<
    Vec<GameEvent>,
    ReplayError,
>)
    ensures
        match events {
            Ok(deaths) => is_consistent(frames_of(*game)) && event_views(deaths@) == deaths_of(
                frames_of(*game),
            ),
            Err(e) => !is_consistent(frames_of(*game)) && e == ReplayError::Inconsistent,
        },
{
    let frames = read_frames(game);
    extract_death_events(&frames)
}

} // verus!
