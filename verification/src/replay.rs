//! What a replay file tells about its game: who played, on which port, with
//! which character, and who won.
//!
//! The file is parsed by `peppi`, outside this library. Everything that the
//! rules read is copied out of the parsed game into plain values, and the
//! rules work on those.

use vstd::prelude::*;
use vstd::string::*;

verus! {

/// The parsed game of `peppi`. Nothing inside it is visible here: it is only
/// handed on to the functions that copy values out of it.
#[verifier::external_type_specification]
#[verifier::external_body]
pub struct ExGame(peppi::game::immutable::Game);

/// A player as the game's start block lists it.
#[derive(Debug, Clone, Copy, PartialEq, Eq, Structural)]
pub struct StartPlayer {
    pub port: u8,
    pub character: u8,
    pub costume: u8,
}

/// A player as the game's end block lists it.
#[derive(Debug, Clone, Copy, PartialEq, Eq, Structural)]
pub struct PlayerEnd {
    pub port: u8,
    pub placement: u8,
}

/// What the metadata holds under one key: nothing, a text, or a value that
/// is not a text.
#[derive(Debug, PartialEq, Eq)]
pub enum NameEntry {
    Missing,
    NotText,
    Text(String),
}

impl View for NameEntry {
    type V = Option<Option<Seq<char>>>;

    /// Nothing for a missing entry; for an entry that is there, its text, if
    /// it is one.
    open spec fn view(&self) -> Option<Option<Seq<char>>> {
        match self {
            NameEntry::Missing => None,
            NameEntry::NotText => Some(None),
            NameEntry::Text(t) => Some(Some(t@)),
        }
    }
}

/// The names that the metadata holds for one player: the entry of the
/// connect code, and the netplay name where it is a text.
#[derive(Debug)]
pub struct PlayerNames {
    pub code: NameEntry,
    pub netplay: Option<String>,
}

/// What the rules read out of a parsed replay.
#[derive(Debug)]
pub struct ReplayData {
    pub players: Vec<StartPlayer>,
    /// The names of each player, in the order of `players`.
    pub names: Vec<PlayerNames>,
    pub placements: Option<Vec<PlayerEnd>>,
    pub stage: u16,
    pub is_pal: Option<bool>,
    pub last_frame: Option<i64>,
    pub start_at: Option<String>,
    pub played_on: Option<String>,
    pub frame_count: usize,
}

/// A player of a recorded game.
#[derive(Debug)]
pub struct PlayerInfo {
    pub character_id: u8,
    pub character_color: u8,
    pub player_tag: String,
    pub port: u8,
}

/// What is shown of the game that a recording belongs to.
#[derive(Debug)]
pub struct SlippiMetadata {
    pub characters: Vec<u8>,
    pub stage: u16,
    pub players: Vec<PlayerInfo>,
    pub game_duration: i32,
    pub start_time: String,
    pub is_pal: bool,
    pub winner_port: Option<u8>,
    pub played_on: Option<String>,
    pub total_frames: i32,
}

/// The summary of a replay: what is shown of it, how many seconds the game
/// took, and when it started.
#[derive(Debug)]
pub struct ReplaySummary {
    pub metadata: SlippiMetadata,
    pub duration: u64,
    pub start_time: String,
}

/// Why nothing could be read out of a parsed replay.
#[derive(Debug, Clone, Copy, PartialEq, Eq, Structural)]
pub enum ReplayError {
    /// The parsed game does not have one state for each frame of each port,
    /// and one player for each port.
    Inconsistent,
}

/// The character that stands for a decimal digit.
pub open spec fn digit_char(d: nat) -> char {
    if d == 0 {
        '0'
    } else if d == 1 {
        '1'
    } else if d == 2 {
        '2'
    } else if d == 3 {
        '3'
    } else if d == 4 {
        '4'
    } else if d == 5 {
        '5'
    } else if d == 6 {
        '6'
    } else if d == 7 {
        '7'
    } else if d == 8 {
        '8'
    } else {
        '9'
    }
}

/// A number written in decimal, without leading zeros.
pub open spec fn decimal_text(n: nat) -> Seq<char>
    decreases n,
{
    if n < 10 {
        seq![digit_char(n)]
    } else {
        decimal_text(n / 10).push(digit_char(n % 10))
    }
}

/// The text of one decimal digit.
fn digit_text(d: u8) -> (text: &'static str)
    requires
        d < 10,
    ensures
        text@ == seq![digit_char(d as nat)],
{
    proof {
        reveal_strlit("0");
        reveal_strlit("1");
        reveal_strlit("2");
        reveal_strlit("3");
        reveal_strlit("4");
        reveal_strlit("5");
        reveal_strlit("6");
        reveal_strlit("7");
        reveal_strlit("8");
        reveal_strlit("9");
    }
    let text = if d == 0 {
        "0"
    } else if d == 1 {
        "1"
    } else if d == 2 {
        "2"
    } else if d == 3 {
        "3"
    } else if d == 4 {
        "4"
    } else if d == 5 {
        "5"
    } else if d == 6 {
        "6"
    } else if d == 7 {
        "7"
    } else if d == 8 {
        "8"
    } else {
        "9"
    };
    assert(text@ =~= seq![digit_char(d as nat)]);
    text
}

/// Writes a small number in decimal.
pub fn number_text(n: u8) -> (text: String)
    ensures
        text@ == decimal_text(n as nat),
{
    let mut text = String::new();
    if n >= 100 {
        text.append(digit_text(n / 100));
        assert(text@ =~= decimal_text((n / 100) as nat));
    }
    if n >= 10 {
        text.append(digit_text((n / 10) % 10));
        proof {
            if n >= 100 {
                assert((n as nat / 10) / 10 == n as nat / 100);
                assert(text@ =~= decimal_text((n / 10) as nat));
            } else {
                assert(text@ =~= decimal_text((n / 10) as nat));
            }
        }
    }
    text.append(digit_text(n % 10));
    assert(text@ =~= decimal_text(n as nat));
    text
}

/// `P` and the number of the port: the tag of a player without a name.
pub open spec fn port_tag(port: u8) -> Seq<char> {
    seq!['P'] + decimal_text(port as nat)
}

/// The tag under which a player is shown. Where the metadata holds a connect
/// code, the tag is the code if it is a text, and `P` and the port if it is
/// not. Where it holds none, the tag is the netplay name if that is a text,
/// and else `P` and the port.
pub open spec fn tag_text(
    code: Option<Option<Seq<char>>>,
    netplay: Option<Seq<char>>,
    port: u8,
) -> Seq<char> {
    match code {
        Some(Some(c)) => c,
        Some(None) => port_tag(port),
        None => match netplay {
            Some(n) => n,
            None => port_tag(port),
        },
    }
}

/// The names of the player at `i`, none where the metadata lists fewer players.
pub open spec fn names_at(names: Seq<PlayerNames>, i: int) -> (
    Option<Option<Seq<char>>>,
    Option<Seq<char>>,
) {
    if 0 <= i < names.len() {
        (
            names[i].code@,
            match names[i].netplay {
                Some(n) => Some(n@),
                None => None,
            },
        )
    } else {
        (None, None)
    }
}

/// The port of the winner: that of the first player placed first.
pub open spec fn winner_of(placements: Seq<PlayerEnd>) -> Option<u8>
    decreases placements.len(),
{
    if placements.len() == 0 {
        None
    } else if placements[0].placement == 0 {
        Some(placements[0].port)
    } else {
        winner_of(placements.drop_first())
    }
}

/// The 32-bit number with the low 32 bits of `x`: `x` itself where it fits,
/// and else `x` moved by a multiple of 2^32 into the range of 32 bits.
pub open spec fn wrap_i32(x: int) -> int {
    let low = x % 0x1_0000_0000;
    if low >= 0x8000_0000 {
        low - 0x1_0000_0000
    } else {
        low
    }
}

/// The number of the last frame as the summary shows it: the number that
/// the replay gives, wrapped to 32 bits, or 0 where it gives none.
pub open spec fn game_duration_of(last_frame: Option<i64>) -> int {
    match last_frame {
        Some(frames) => wrap_i32(frames as int),
        None => 0,
    }
}

/// Wraps a number to 32 bits.
pub fn wrap_to_i32(x: i64) -> (wrapped: i32)
    ensures
        wrapped == wrap_i32(x as int),
        i32::MIN <= x <= i32::MAX ==> wrapped == x,
{
    let high: i64 = x / 4294967296;
    let rest: i64 = x - high * 4294967296;
    let low: i64 = if rest < 0 {
        rest + 4294967296
    } else {
        rest
    };
    assert(low == (x as int) % 0x1_0000_0000) by {
        vstd::arithmetic::div_mod::lemma_fundamental_div_mod_converse(
            x as int,
            0x1_0000_0000,
            if rest < 0 {
                high - 1
            } else {
                high as int
            },
            low as int,
        );
    }
    if low >= 2147483648 {
        (low - 4294967296) as i32
    } else {
        low as i32
    }
}

/// The seconds that a game of `frames` frames took, at 60 frames a second.
pub open spec fn seconds_of(frames: i32) -> u64 {
    if frames <= 0 {
        0
    } else {
        (frames / 60) as u64
    }
}

/// Whether `info` shows the player at `i` of the replay.
pub open spec fn shows_player(info: PlayerInfo, data: ReplayData, i: int) -> bool {
    let player = data.players@[i];
    let (code, netplay) = names_at(data.names@, i);
    &&& info.character_id == player.character
    &&& info.character_color == player.costume
    &&& info.port == player.port
    &&& info.player_tag@ == tag_text(code, netplay, player.port)
}

/// Whether `summary` is the summary of the replay `data`, `now` being the
/// time to show where the replay does not say when it started.
pub open spec fn summarizes(summary: ReplaySummary, data: ReplayData, now: Seq<char>) -> bool {
    let meta = summary.metadata;
    &&& meta.characters@ == data.players@.map_values(|p: StartPlayer| p.character)
    &&& meta.stage == data.stage
    &&& meta.players@.len() == data.players@.len()
    &&& forall|i: int|
        0 <= i < data.players@.len() ==> shows_player(#[trigger] meta.players@[i], data, i)
    &&& meta.game_duration == game_duration_of(data.last_frame)
    &&& meta.start_time@ == match data.start_at {
        Some(t) => t@,
        None => now,
    }
    &&& meta.is_pal == match data.is_pal {
        Some(pal) => pal,
        None => false,
    }
    &&& meta.winner_port == match data.placements {
        Some(p) => winner_of(p@),
        None => None,
    }
    &&& match (meta.played_on, data.played_on) {
        (Some(a), Some(b)) => a@ == b@,
        (None, None) => true,
        _ => false,
    }
    &&& meta.total_frames == wrap_i32(data.frame_count as int)
    &&& summary.duration == seconds_of(meta.game_duration)
    &&& summary.start_time@ == meta.start_time@
}

/// The port of the winner.
pub fn winner_port(placements: &Vec<PlayerEnd>) -> (winner: Option<u8>)
    ensures
        winner == winner_of(placements@),
{
    let mut i: usize = 0;
    assert(placements@.subrange(0, placements@.len() as int) =~= placements@);
    while i < placements.len()
        invariant
            i <= placements.len(),
            winner_of(placements@) == winner_of(placements@.subrange(i as int, placements@.len() as int)),
        decreases placements.len() - i,
    {
        let ghost rest = placements@.subrange(i as int, placements@.len() as int);
        assert(rest[0] == placements@[i as int]);
        if placements[i].placement == 0 {
            return Some(placements[i].port);
        }
        assert(rest.drop_first() =~= placements@.subrange(i + 1, placements@.len() as int));
        i += 1;
    }
    None
}

/// The tag under which a player is shown.
pub fn player_tag(names: Option<&PlayerNames>, port: u8) -> (tag: String)
    ensures
        tag@ == match names {
            Some(n) => tag_text(
                n.code@,
                match n.netplay {
                    Some(t) => Some(t@),
                    None => None,
                },
                port,
            ),
            None => tag_text(None, None, port),
        },
{
    match names {
        Some(n) => {
            match &n.code {
                NameEntry::Text(code) => {
                    return code.clone();
                },
                NameEntry::NotText => {},
                NameEntry::Missing => {
                    match &n.netplay {
                        Some(name) => {
                            return name.clone();
                        },
                        None => {},
                    }
                },
            }
        },
        None => {},
    }
    proof {
        reveal_strlit("P");
    }
    let mut tag = "P".to_owned();
    tag.append(number_text(port).as_str());
    assert(tag@ =~= port_tag(port));
    tag
}

/// Summarizes a replay.
pub fn summarize_replay(data: &ReplayData, now: &str) -> (summary: ReplaySummary)
    ensures
        summarizes(summary, *data, now@),
{
    let mut characters: Vec<u8> = Vec::new();
    let mut players: Vec<PlayerInfo> = Vec::new();
    let mut i: usize = 0;
    while i < data.players.len()
        invariant
            i <= data.players.len(),
            characters@ == data.players@.subrange(0, i as int).map_values(
                |p: StartPlayer| p.character,
            ),
            players@.len() == i,
            forall|k: int| 0 <= k < i ==> shows_player(#[trigger] players@[k], *data, k),
        decreases data.players.len() - i,
    {
        let player = data.players[i];
        let names: Option<&PlayerNames> = if i < data.names.len() {
            Some(&data.names[i])
        } else {
            None
        };
        let tag = player_tag(names, player.port);
        characters.push(player.character);
        players.push(
            PlayerInfo {
                character_id: player.character,
                character_color: player.costume,
                player_tag: tag,
                port: player.port,
            },
        );
        i += 1;
        assert(characters@ =~= data.players@.subrange(0, i as int).map_values(
            |p: StartPlayer| p.character,
        ));
    }
    assert(data.players@.subrange(0, data.players@.len() as int) =~= data.players@);
    let game_duration: i32 = match data.last_frame {
        Some(frames) => wrap_to_i32(frames),
        None => 0,
    };
    let duration: u64 = if game_duration <= 0 {
        0
    } else {
        (game_duration / 60) as u64
    };
    let start_time: String = match &data.start_at {
        Some(t) => t.clone(),
        None => now.to_owned(),
    };
    let is_pal = match data.is_pal {
        Some(pal) => pal,
        None => false,
    };
    let winner = match &data.placements {
        Some(p) => winner_port(p),
        None => None,
    };
    let played_on = match &data.played_on {
        Some(p) => Some(p.clone()),
        None => None,
    };
    let total_frames: i32 = wrap_to_i32((data.frame_count as u64 % 4294967296) as i64);
    assert(wrap_i32(data.frame_count as int) == wrap_i32((data.frame_count as int) % 0x1_0000_0000))
        by {
        vstd::arithmetic::div_mod::lemma_mod_twice(data.frame_count as int, 0x1_0000_0000);
    }
    let metadata = SlippiMetadata {
        characters,
        stage: data.stage,
        players,
        game_duration,
        start_time: start_time.clone(),
        is_pal,
        winner_port: winner,
        played_on,
        total_frames,
    };
    ReplaySummary { metadata, duration, start_time }
}

/// The players that a parsed game holds in its start block, in order.
pub uninterp spec fn recorded_players(game: peppi::game::immutable::Game) -> Seq<StartPlayer>;

/// The placements that a parsed game holds in its end block, if it holds any.
pub uninterp spec fn recorded_placements(game: peppi::game::immutable::Game) -> Option<
    Seq<PlayerEnd>,
>;

/// The stage, the PAL flag and the number of frames that a parsed game holds.
pub uninterp spec fn recorded_basics(game: peppi::game::immutable::Game) -> (
    u16,
    Option<bool>,
    usize,
);

/// What the metadata of a parsed game holds under each path of keys that
/// leads to a value: the text, or nothing where the value is not a text.
pub uninterp spec fn recorded_texts(game: peppi::game::immutable::Game) -> Map<
    Seq<Seq<char>>,
    Option<Seq<char>>,
>;

/// The integers that the metadata of a parsed game holds at its top level,
/// each under its key.
pub uninterp spec fn recorded_numbers(game: peppi::game::immutable::Game) -> Map<Seq<char>, i64>;

/// A path of keys as plain values.
pub open spec fn key_path(keys: Seq<String>) -> Seq<Seq<char>> {
    keys.map_values(|k: String| k@)
}

/// What the metadata of a parsed game holds under a path of keys: nothing
/// where the path leads to no value, and else the text of the value, if it is
/// a text.
pub open spec fn entry_at(game: peppi::game::immutable::Game, path: Seq<Seq<char>>) -> Option<
    Option<Seq<char>>,
> {
    if recorded_texts(game).contains_key(path) {
        Some(recorded_texts(game)[path])
    } else {
        None
    }
}

/// The text that the metadata of a parsed game holds under a path of keys.
pub open spec fn text_at(game: peppi::game::immutable::Game, path: Seq<Seq<char>>) -> Option<
    Seq<char>,
> {
    match entry_at(game, path) {
        Some(Some(text)) => Some(text),
        _ => None,
    }
}

/// The integer that the metadata of a parsed game holds under a key.
pub open spec fn number_at(game: peppi::game::immutable::Game, key: Seq<char>) -> Option<i64> {
    if recorded_numbers(game).contains_key(key) {
        Some(recorded_numbers(game)[key])
    } else {
        None
    }
}

/// The path of keys under which the metadata holds one name of the player
/// at `port`: `players`, the number of the port, `names`, and the kind of
/// name.
pub open spec fn name_path(port: u8, kind: Seq<char>) -> Seq<Seq<char>> {
    seq!["players"@, decimal_text(port as nat), "names"@, kind]
}

/// A text that may be missing, as a plain value.
pub open spec fn text_view(text: Option<String>) -> Option<Seq<char>> {
    match text {
        Some(t) => Some(t@),
        None => None,
    }
}

/// Whether `data` holds what the rules read out of the parsed game `game`:
/// its players in order, for each player the entry of the connect code and
/// the netplay name that the metadata holds for the player's port, the
/// placements, the
/// stage, the PAL flag, the number of frames, and from the metadata the
/// last frame, the start and the platform.
pub open spec fn copies_game(data: ReplayData, game: peppi::game::immutable::Game) -> bool {
    &&& data.players@ == recorded_players(game)
    &&& data.names@.len() == data.players@.len()
    &&& forall|i: int|
        0 <= i < data.players@.len() ==> #[trigger] names_at(data.names@, i) == (
            entry_at(game, name_path(data.players@[i].port, "code"@)),
            text_at(game, name_path(data.players@[i].port, "netplay"@)),
        )
    &&& match data.placements {
        Some(p) => recorded_placements(game) == Some(p@),
        None => recorded_placements(game) is None,
    }
    &&& (data.stage, data.is_pal, data.frame_count) == recorded_basics(game)
    &&& data.last_frame == number_at(game, "lastFrame"@)
    &&& text_view(data.start_at) == text_at(game, seq!["startAt"@])
    &&& text_view(data.played_on) == text_at(game, seq!["playedOn"@])
}

/// Copies the players out of `Game::start` of `peppi`: port, character and
/// costume of each, the port as the number that `u8::from` gives for it.
/// The contract names what comes out as the players that the game holds.
#[verifier::external_body]
fn game_players(game: &peppi::game::immutable::Game) -> (players: Vec<StartPlayer>)
    ensures
        players@ == recorded_players(*game),
{
    game.start.players.iter().map(
        |p| StartPlayer { port: u8::from(p.port), character: p.character, costume: p.costume },
    ).collect()
}

/// Copies the placements out of `Game::end` of `peppi`, if the game has an
/// end block and the block has placements; each port as the number that
/// `u8::from` gives for it. The contract names what comes out as the
/// placements that the game holds.
#[verifier::external_body]
fn game_placements(game: &peppi::game::immutable::Game) -> (placements: Option<Vec<PlayerEnd>>)
    ensures
        match placements {
            Some(p) => recorded_placements(*game) == Some(p@),
            None => recorded_placements(*game) is None,
        },
{
    let players = game.end.as_ref()?.players.as_ref()?;
    Some(players.iter().map(|p| PlayerEnd { port: u8::from(p.port), placement: p.placement }).collect())
}

/// Copies the stage and the PAL flag out of `Game::start` of `peppi`, and
/// the number of frames that `Frame::len` gives. The contract names what
/// comes out as the three that the game holds.
#[verifier::external_body]
fn game_basics(game: &peppi::game::immutable::Game) -> (basics: (u16, Option<bool>, usize))
    ensures
        basics == recorded_basics(*game),
{
    (game.start.stage, game.start.is_pal, game.frames.len())
}

/// Reads what `Game::metadata` of `peppi` holds under a path of keys, with
/// `Map::get`, `Value::get` and `Value::as_str` of `serde_json`: nothing
/// where the path leads to no value, and else the text of the value, if it is
/// a text. The contract names what comes out as what the metadata holds
/// under the path, and says no more of it.
#[verifier::external_body]
fn metadata_text(game: &peppi::game::immutable::Game, keys: &Vec<String>) -> (entry: Option<
    Option<String>,
>)
    ensures
        match entry {
            Some(t) => recorded_texts(*game).contains_key(key_path(keys@)) && recorded_texts(
                *game,
            )[key_path(keys@)] == text_view(t),
            None => !recorded_texts(*game).contains_key(key_path(keys@)),
        },
{
    let mut value = game.metadata.as_ref()?.get(keys.first()?)?;
    for key in keys.iter().skip(1) {
        value = value.get(key)?;
    }
    Some(value.as_str().map(|s| s.to_string()))
}

/// Takes in what the metadata answered for a connect code.
pub fn name_entry(found: Option<Option<String>>) -> (entry: NameEntry)
    ensures
        entry@ == match found {
            Some(t) => Some(text_view(t)),
            None => None,
        },
{
    match found {
        Some(Some(text)) => NameEntry::Text(text),
        Some(None) => NameEntry::NotText,
        None => NameEntry::Missing,
    }
}

/// Takes in what the metadata answered where only a text counts.
pub fn text_entry(found: Option<Option<String>>) -> (text: Option<String>)
    ensures
        text_view(text) == match found {
            Some(Some(t)) => Some(t@),
            _ => None,
        },
{
    match found {
        Some(Some(text)) => Some(text),
        _ => None,
    }
}

/// Reads the integer that `Game::metadata` of `peppi` holds under a key, with
/// `Map::get` and `Value::as_i64` of `serde_json`. The contract names what
/// comes out as the integer that the metadata holds under the key.
#[verifier::external_body]
fn metadata_number(game: &peppi::game::immutable::Game, key: &str) -> (number: Option<i64>)
    ensures
        match number {
            Some(n) => recorded_numbers(*game).contains_key(key@) && recorded_numbers(*game)[key@]
                == n,
            None => !recorded_numbers(*game).contains_key(key@),
        },
{
    game.metadata.as_ref()?.get(key)?.as_i64()
}

/// The path of keys under which the metadata holds one name of a player.
fn name_keys(port: u8, kind: &str) -> (keys: Vec<String>)
    ensures
        key_path(keys@) == name_path(port, kind@),
{
    let mut keys: Vec<String> = Vec::new();
    keys.push("players".to_owned());
    keys.push(number_text(port));
    keys.push("names".to_owned());
    keys.push(kind.to_owned());
    assert(key_path(keys@) =~= name_path(port, kind@));
    keys
}

/// The path that consists of one key.
fn single_key(key: &str) -> (keys: Vec<String>)
    ensures
        key_path(keys@) == seq![key@],
{
    let mut keys: Vec<String> = Vec::new();
    keys.push(key.to_owned());
    assert(key_path(keys@) =~= seq![key@]);
    keys
}

/// Copies out of a parsed game what the rules read: the players with the
/// names that the metadata holds for their ports, the placements, and the
/// facts of the game.
pub fn read_replay(game: &peppi::game::immutable::Game) -> (data: ReplayData)
    ensures
        copies_game(data, *game),
{
    let players = game_players(game);
    let mut names: Vec<PlayerNames> = Vec::new();
    let mut i: usize = 0;
    while i < players.len()
        invariant
            i <= players.len(),
            names@.len() == i,
            forall|k: int|
                0 <= k < i ==> #[trigger] names_at(names@, k) == (
                    entry_at(*game, name_path(players@[k].port, "code"@)),
                    text_at(*game, name_path(players@[k].port, "netplay"@)),
                ),
        decreases players.len() - i,
    {
        let port = players[i].port;
        let code = name_entry(metadata_text(game, &name_keys(port, "code")));
        let netplay = text_entry(metadata_text(game, &name_keys(port, "netplay")));
        let ghost before = names@;
        names.push(PlayerNames { code, netplay });
        proof {
            assert forall|k: int| 0 <= k < i + 1 implies #[trigger] names_at(names@, k) == (
                entry_at(*game, name_path(players@[k].port, "code"@)),
                text_at(*game, name_path(players@[k].port, "netplay"@)),
            ) by {
                if k < i {
                    assert(names@[k] == before[k]);
                    assert(names_at(names@, k) == names_at(before, k));
                }
            }
        }
        i += 1;
    }
    let (stage, is_pal, frame_count) = game_basics(game);
    ReplayData {
        players,
        names,
        placements: game_placements(game),
        stage,
        is_pal,
        last_frame: metadata_number(game, "lastFrame"),
        start_at: text_entry(metadata_text(game, &single_key("startAt"))),
        played_on: text_entry(metadata_text(game, &single_key("playedOn"))),
        frame_count,
    }
}

/// Summarizes a parsed game: the summary is that of what the game holds.
/// `now` is the time to show where the replay does not say when it started.
pub fn summarize_game(game: &peppi::game::immutable::Game, now: &str) -> (summary: ReplaySummary)
    ensures
        exists|data: ReplayData| copies_game(data, *game) && summarizes(summary, data, now@),
{
    let data = read_replay(game);
    summarize_replay(&data, now)
}

} // verus!
