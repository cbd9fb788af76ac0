//! The engine registry built from configuration entries, and the game
//! manager that sequences position, legality, notation and engine turns.
//! Reading the configuration file and talking to the process live outside
//! the library; they hand plain values in and take plain values back.

use vstd::prelude::*;
use crate::fen::{fen_of, fen_parse, split_on_slash, split_slash, FenError, FenProcessor};
use crate::notation::pv_chinese;
use crate::protocol::{lower_of, EngineGoResult, EngineThinkingInfo, EngineType};
use crate::state::{apply_outcome, board_after, GameState, MoveError, Piece, PlayerColor, Position};

verus! {

/// How to start one engine: the executable path (possibly beginning with
/// an environment-variable segment such as `$HOME/...`) and the options
/// to set after the handshake, each with or without a value.
#[derive(Debug)]
pub struct EngineConfig {
    pub path: String,
    pub options: Vec<(String, Option<String>)>,
}

/// Why the engine registry rejected its configuration, or a lookup failed.
#[derive(Debug)]
pub enum ConfigError {
    /// A configuration entry names an engine the library does not know.
    UnknownEngine(String),
    /// No configuration was given for the requested engine.
    EngineNotConfigured,
}

/// The engine a configuration entry's name stands for, ignoring case.
pub open spec fn entry_type(name: Seq<char>) -> Option<EngineType> {
    if lower_of(name) == "pikafish"@ {
        Some(EngineType::Pikafish)
    } else {
        None
    }
}

/// The first configuration in `list` filed under `t`.
pub open spec fn find_engine(
    list: Seq<(EngineType, EngineConfig)>,
    t: EngineType,
) -> Option<EngineConfig>
    decreases list.len(),
{
    if list.len() == 0 {
        None
    } else if list[0].0 == t {
        Some(list[0].1)
    } else {
        find_engine(list.drop_first(), t)
    }
}

/// The configuration that a sequence of entries leaves filed under `t`:
/// the last entry with that name wins.
pub open spec fn table_lookup(
    entries: Seq<(String, EngineConfig)>,
    t: EngineType,
) -> Option<EngineConfig>
    decreases entries.len(),
{
    if entries.len() == 0 {
        None
    } else if entry_type(entries.last().0@) == Some(t) {
        Some(entries.last().1)
    } else {
        table_lookup(entries.drop_last(), t)
    }
}

/// The canonical name of an engine.
pub open spec fn engine_name_of(t: EngineType) -> Seq<char> {
    match t {
        EngineType::Pikafish => "pikafish"@,
    }
}

/// The engines the program can start, each with its configuration.
#[derive(Debug)]
pub struct EngineManager {
    pub engines: Vec<(EngineType, EngineConfig)>,
}

/// Replacing the one entry filed under `t` changes no other lookup.
proof fn lemma_find_engine_update(
    list: Seq<(EngineType, EngineConfig)>,
    idx: int,
    t: EngineType,
    cfg: EngineConfig,
)
    requires
        0 <= idx < list.len(),
        list[idx].0 == t,
        forall|i: int, j: int| 0 <= i < j < list.len() ==> (#[trigger] list[i].0) != (#[trigger] list[j].0),
    ensures
        find_engine(list.update(idx, (t, cfg)), t) == Some(cfg),
        forall|t2: EngineType|
            t2 != t ==> #[trigger] find_engine(list.update(idx, (t, cfg)), t2) == find_engine(
                list,
                t2,
            ),
    decreases list.len(),
{
    let upd = list.update(idx, (t, cfg));
    if idx == 0 {
        assert(upd[0] == (t, cfg));
        assert forall|t2: EngineType| t2 != t implies #[trigger] find_engine(upd, t2)
            == find_engine(list, t2) by {
            assert(upd.drop_first() =~= list.drop_first());
        }
    } else {
        assert(list[0].0 != t);
        assert(upd[0] == list[0]);
        assert(upd.drop_first() =~= list.drop_first().update(idx - 1, (t, cfg)));
        lemma_find_engine_update(list.drop_first(), idx - 1, t, cfg);
    }
}

/// Appending an entry under a fresh name changes no other lookup.
proof fn lemma_find_engine_push(list: Seq<(EngineType, EngineConfig)>, t: EngineType, cfg: EngineConfig)
    requires
        forall|i: int| 0 <= i < list.len() ==> (#[trigger] list[i].0) != t,
    ensures
        find_engine(list.push((t, cfg)), t) == Some(cfg),
        forall|t2: EngineType|
            t2 != t ==> #[trigger] find_engine(list.push((t, cfg)), t2) == find_engine(list, t2),
    decreases list.len(),
{
    let ext = list.push((t, cfg));
    if list.len() == 0 {
        assert(ext[0] == (t, cfg));
        assert forall|t2: EngineType| t2 != t implies #[trigger] find_engine(ext, t2)
            == find_engine(list, t2) by {
            assert(ext.drop_first() =~= Seq::<(EngineType, EngineConfig)>::empty());
        }
    } else {
        assert(ext[0] == list[0]);
        assert(ext.drop_first() =~= list.drop_first().push((t, cfg)));
        lemma_find_engine_push(list.drop_first(), t, cfg);
    }
}

impl EngineManager {
    /// The registry never files two configurations under one engine.
    pub open spec fn wf(&self) -> bool {
        forall|i: int, j: int|
            0 <= i < j < self.engines@.len() ==> (#[trigger] self.engines@[i].0) != (
            #[trigger] self.engines@[j].0)
    }

    /// The configuration filed under `t`, if any.
    pub open spec fn lookup(&self, t: EngineType) -> Option<EngineConfig> {
        find_engine(self.engines@, t)
    }

    /// Build the registry from configuration entries, in order; a later
    /// entry for the same engine replaces an earlier one, and the first
    /// unknown engine name fails the whole configuration.
    pub fn from_entries(entries: Vec<(String, EngineConfig)>) -> (r: Result<
        EngineManager,
        ConfigError,
    >)
        ensures
            match r {
                Ok(m) => {
                    &&& m.wf()
                    &&& forall|t: EngineType| #[trigger]
                        m.lookup(t) == table_lookup(entries@, t)
                    &&& forall|k: int|
                        0 <= k < entries@.len() ==> #[trigger] entry_type(entries@[k].0@) is Some
                },
                Err(e) => {
                    &&& e matches ConfigError::UnknownEngine(n) && exists|k: int|
                        0 <= k < entries@.len() && #[trigger] entry_type(entries@[k].0@) is None
                            && n@ == entries@[k].0@ && (forall|j: int|
                            0 <= j < k ==> #[trigger] entry_type(entries@[j].0@) is Some)
                },
            },
    {
        let ghost all = entries@;
        let mut queue = entries;
        let total = queue.len();
        let mut mgr = EngineManager { engines: Vec::new() };
        let mut i: usize = 0;
        proof {
            assert(all.len() == total as nat);
            assert(all.subrange(0, 0) =~= Seq::<(String, EngineConfig)>::empty());
        }
        while queue.len() > 0
            invariant
                mgr.wf(),
                all == entries@,
                all.len() <= usize::MAX,
                i + queue@.len() == all.len(),
                queue@ =~= all.skip(i as int),
                forall|t: EngineType| #[trigger]
                    mgr.lookup(t) == table_lookup(all.subrange(0, i as int), t),
                forall|k: int| 0 <= k < i ==> #[trigger] entry_type(all[k].0@) is Some,
            decreases queue@.len(),
        {
            let ghost done = all.subrange(0, i as int);
            let (name, cfg) = queue.remove(0);
            proof {
                assert(all.skip(i as int)[0] == all[i as int]);
                assert(all.skip(i as int).drop_first() =~= all.skip(i as int + 1));
            }
            let t = match EngineType::parse(name.as_str()) {
                Some(t) => t,
                None => {
                    proof {
                        let ghost k = i as int;
                        assert(all == entries@);
                        assert(0 <= k < entries@.len() && entry_type(entries@[k].0@) is None
                            && name@ == entries@[k].0@ && (forall|j: int|
                            0 <= j < k ==> #[trigger] entry_type(entries@[j].0@) is Some));
                    }
                    return Err(ConfigError::UnknownEngine(name));
                },
            };
            // Find an existing entry for the same engine, if any.
            let mut found: Option<usize> = None;
            let mut k: usize = 0;
            while k < mgr.engines.len()
                invariant
                    k <= mgr.engines@.len(),
                    match found {
                        Some(idx) => idx < k && mgr.engines@[idx as int].0 == t,
                        None => forall|m: int| 0 <= m < k ==> (#[trigger] mgr.engines@[m].0) != t,
                    },
                decreases mgr.engines@.len() - k,
            {
                if found.is_none() && mgr.engines[k].0 == t {
                    found = Some(k);
                }
                k = k + 1;
            }
            let ghost pre = mgr.engines@;
            match found {
                Some(idx) => {
                    mgr.engines.set(idx, (t, cfg));
                    proof {
                        lemma_find_engine_update(pre, idx as int, t, cfg);
                    }
                },
                None => {
                    mgr.engines.push((t, cfg));
                    proof {
                        lemma_find_engine_push(pre, t, cfg);
                    }
                },
            }
            proof {
                assert(all.subrange(0, i as int + 1).drop_last() =~= done);
                assert(all.subrange(0, i as int + 1).last() == all[i as int]);
                assert forall|t2: EngineType| #[trigger]
                    mgr.lookup(t2) == table_lookup(all.subrange(0, i as int + 1), t2) by {
                    if t2 == t {
                    } else {
                        assert(entry_type(all[i as int].0@) == Some(t));
                    }
                }
            }
            i = i + 1;
        }
        proof {
            assert(all.subrange(0, all.len() as int) =~= all);
        }
        Ok(mgr)
    }

    /// The names of the configured engines, in registry order.
    pub fn list_engines(&self) -> (r: Vec<String>)
        ensures
            r.deep_view() =~= self.engines@.map_values(|e: (EngineType, EngineConfig)| engine_name_of(e.0)),
    {
        let mut r: Vec<String> = Vec::new();
        let mut i: usize = 0;
        while i < self.engines.len()
            invariant
                i <= self.engines@.len(),
                r.deep_view() =~= self.engines@.subrange(0, i as int).map_values(
                    |e: (EngineType, EngineConfig)| engine_name_of(e.0),
                ),
            decreases self.engines@.len() - i,
        {
            let ghost pre = r.deep_view();
            r.push(self.engines[i].0.name());
            proof {
                assert(r.deep_view() =~= pre.push(engine_name_of(self.engines@[i as int].0)));
                assert(pre.push(engine_name_of(self.engines@[i as int].0)) =~= self.engines@.subrange(
                    0,
                    i as int + 1,
                ).map_values(|e: (EngineType, EngineConfig)| engine_name_of(e.0)));
            }
            i = i + 1;
        }
        proof {
            assert(self.engines@.subrange(0, self.engines@.len() as int) =~= self.engines@);
        }
        r
    }

    /// The configuration filed under the given engine.
    pub fn get_config(&self, engine_type: &EngineType) -> (r: Result<&EngineConfig, ConfigError>)
        ensures
            match r {
                Ok(c) => self.lookup(*engine_type) == Some(*c),
                Err(e) => self.lookup(*engine_type) is None && e is EngineNotConfigured,
            },
    {
        let mut i: usize = 0;
        while i < self.engines.len()
            invariant
                i <= self.engines@.len(),
                find_engine(self.engines@.skip(i as int), *engine_type) == find_engine(
                    self.engines@,
                    *engine_type,
                ),
                forall|m: int| 0 <= m < i ==> (#[trigger] self.engines@[m].0) != *engine_type,
            decreases self.engines@.len() - i,
        {
            proof {
                assert(self.engines@.skip(i as int)[0] == self.engines@[i as int]);
                assert(self.engines@.skip(i as int).drop_first() =~= self.engines@.skip(
                    i as int + 1,
                ));
            }
            if self.engines[i].0 == *engine_type {
                return Ok(&self.engines[i].1);
            }
            i = i + 1;
        }
        proof {
            assert(self.engines@.skip(self.engines@.len() as int).len() == 0);
        }
        Err(ConfigError::EngineNotConfigured)
    }
}

/// Path fields joined back with `/` separators.
pub open spec fn join_slash(fields: Seq<Seq<char>>) -> Seq<char>
    decreases fields.len(),
{
    if fields.len() == 0 {
        Seq::empty()
    } else if fields.len() == 1 {
        fields[0]
    } else {
        fields[0] + seq!['/'] + join_slash(fields.drop_first())
    }
}

/// Joining one more field appends a separator and the field.
proof fn lemma_join_push(fs: Seq<Seq<char>>, x: Seq<char>)
    ensures
        join_slash(fs.push(x)) == if fs.len() == 0 {
            x
        } else {
            join_slash(fs) + seq!['/'] + x
        },
    decreases fs.len(),
{
    if fs.len() == 0 {
        assert(fs.push(x) =~= seq![x]);
    } else if fs.len() == 1 {
        assert(fs.push(x)[0] == fs[0]);
        assert(fs.push(x).drop_first() =~= seq![x]);
        assert(join_slash(seq![x]) == x);
    } else {
        lemma_join_push(fs.drop_first(), x);
        assert(fs.push(x)[0] == fs[0]);
        assert(fs.push(x).drop_first() =~= fs.drop_first().push(x));
        assert(fs[0] + seq!['/'] + (join_slash(fs.drop_first()) + seq!['/'] + x) =~= (fs[0]
            + seq!['/'] + join_slash(fs.drop_first())) + seq!['/'] + x);
    }
}

impl EngineManager {
    /// Split an executable path of the form `$VAR/rest/of/path` into the
    /// variable name (without the `$`) and the rest; a path that does not
    /// begin with `$` has no such split. Resolving the variable itself is
    /// the caller's part.
    pub fn split_env_prefix(path: &str) -> (r: Option<(String, String)>)
        ensures
            match r {
                Some(p) => {
                    &&& path@.len() > 0 && path@[0] == '$'
                    &&& p.0@ == split_slash(path@)[0].drop_first()
                    &&& p.1@ == join_slash(split_slash(path@).drop_first())
                },
                None => path@.len() == 0 || path@[0] != '$',
            },
    {
        let n = path.unicode_len();
        if n == 0 || path.get_char(0) != '$' {
            return None;
        }
        let fields = split_on_slash(path);
        let ghost fv = fields.deep_view();
        proof {
            // A split always yields at least its first field.
            let f = crate::fen::take_field(path@);
            if f.len() == path@.len() {
                assert(split_slash(path@) == seq![f]);
            } else {
                assert(split_slash(path@) == seq![f] + split_slash(
                    path@.skip(f.len() as int + 1),
                ));
            }
            assert(fv.len() >= 1);
            assert(fv.len() == fields@.len());
            assert(fv[0] == fields@[0]@);
        }
        let first = fields[0].as_str();
        let first_len = first.unicode_len();
        proof {
            // The first field starts with `$`, so it is nonempty.
            assert(fv[0] == crate::fen::take_field(path@));
            assert(crate::fen::take_field(path@)[0] == path@[0]);
            assert(first@.len() >= 1);
        }
        let var = first.substring_char(1, first_len).to_owned();
        proof {
            assert(first@.subrange(1, first@.len() as int) =~= fv[0].drop_first());
        }
        let mut rest = String::new();
        let mut k: usize = 1;
        proof {
            assert(fv.subrange(1, 1) =~= Seq::<Seq<char>>::empty());
        }
        while k < fields.len()
            invariant
                fv == fields.deep_view(),
                fv.len() == fields@.len(),
                1 <= k,
                k <= fv.len() || k == 1,
                rest@ == join_slash(fv.subrange(1, k as int)),
            decreases fv.len() - k,
        {
            if k > 1 {
                let sep = "/";
                proof {
                    reveal_strlit("/");
                }
                rest.append(sep);
            }
            rest.append(fields[k].as_str());
            proof {
                assert(fv[k as int] == fields@[k as int]@);
                assert(fv.subrange(1, k as int + 1).drop_last() =~= fv.subrange(1, k as int));
                assert(fv.subrange(1, k as int + 1) =~= fv.subrange(1, k as int).push(
                    fv[k as int],
                ));
                lemma_join_push(fv.subrange(1, k as int), fv[k as int]);
                assert(rest@ =~= join_slash(fv.subrange(1, k as int + 1)));
            }
            k = k + 1;
        }
        proof {
            assert(fv.subrange(1, fv.len() as int) =~= fv.drop_first());
        }
        Some((var, rest))
    }
}

/// What starting a new game asks of the engine side: the position to
/// push, and whether the engine owns the first move.
pub struct NewGameSetup {
    pub position_fen: String,
    pub engine_starts: bool,
}

/// A report whose principal variation converts cleanly against a position.
pub open spec fn pv_converts(
    b: Seq<Option<Piece>>,
    player: PlayerColor,
    info: EngineThinkingInfo,
) -> bool {
    match info.pv {
        None => true,
        Some(pv) => pv_chinese(b, player, pv.deep_view()) is Ok,
    }
}

/// A report's content with its principal variation rendered in Chinese
/// notation against the given position.
pub open spec fn converted_info_view(
    b: Seq<Option<Piece>>,
    player: PlayerColor,
    info: EngineThinkingInfo,
) -> (int, Option<int>, Option<int>, Option<int>, Option<Seq<Seq<char>>>) {
    let base = info.view_tuple();
    (
        base.0,
        base.1,
        base.2,
        base.3,
        match base.4 {
            None => None,
            Some(pv) => Some(pv_chinese(b, player, pv)->Ok_0),
        },
    )
}

/// One game: its state and the engine's latest thinking report, with the
/// report's principal variation already rendered in Chinese notation.
/// The engine session itself is driven by the caller, which hands each
/// finished search back in as an `EngineGoResult`.
pub struct GameManager {
    pub state: GameState,
    pub think_info: Option<EngineThinkingInfo>,
}

impl GameManager {
    /// A manager over a fresh game at the standard opening position.
    pub fn new() -> (r: Self)
        ensures
            r.state.wf(),
            r.state.board@ == crate::state::initial_board(),
            r.state.current_player == PlayerColor::Red,
            r.state.history@.len() == 0,
            !r.state.flipped,
            r.think_info is None,
    {
        GameManager { state: GameState::new(), think_info: None }
    }

    /// Start a new game from the given FEN, or from the standard opening
    /// when none is given. The display flips, and the engine owns the
    /// first move, exactly when the human's color is not the side to move.
    /// The returned FEN of the fresh position is to be pushed to the
    /// engine; a rejected FEN leaves the game untouched.
    pub fn start_new_game(&mut self, player_color: PlayerColor, fen: Option<String>) -> (r: Result<
        NewGameSetup,
        FenError,
    >)
        ensures
            match r {
                Ok(setup) => {
                    &&& final(self).state.wf()
                    &&& final(self).think_info == old(self).think_info
                    &&& final(self).state.history@.len() == 0
                    &&& match fen {
                        Some(f) => fen_parse(f@) == Ok::<_, FenError>(
                            (final(self).state.board@, final(self).state.current_player),
                        ),
                        None => final(self).state.board@ == crate::state::initial_board()
                            && final(self).state.current_player == PlayerColor::Red,
                    }
                    &&& setup.engine_starts == (final(self).state.current_player
                        == player_color.opponent_spec())
                    &&& final(self).state.flipped == setup.engine_starts
                    &&& setup.position_fen@ == fen_of(
                        final(self).state.board@,
                        final(self).state.current_player,
                    )
                },
                Err(e) => {
                    &&& fen matches Some(f) && fen_parse(f@) == Err::<
                        (Seq<Option<Piece>>, PlayerColor),
                        FenError,
                    >(e)
                    &&& *final(self) == *old(self)
                },
            },
    {
        match fen {
            Some(f) => {
                let st = match FenProcessor::parse_fen(f.as_str()) {
                    Ok(st) => st,
                    Err(e) => {
                        return Err(e);
                    },
                };
                self.state = st;
            },
            None => {
                self.state = GameState::new();
            },
        }
        let engine_starts = self.state.current_player == player_color.opponent();
        if engine_starts {
            self.state.flipped = true;
        }
        let position_fen = self.state.to_fen();
        Ok(NewGameSetup { position_fen, engine_starts })
    }

    /// Play the human's move and hand back the new position's FEN, to be
    /// pushed to the engine. A rejected move leaves the game untouched.
    pub fn player_move(&mut self, move_str: &str) -> (r: Result<String, MoveError>)
        requires
            old(self).state.wf(),
        ensures
            final(self).state.wf(),
            final(self).think_info == old(self).think_info,
            match r {
                Ok(new_fen) => ({
                    let oc = apply_outcome(
                        old(self).state.board@,
                        old(self).state.current_player,
                        move_str@,
                    );
                    &&& oc is Ok
                    &&& final(self).state.board@ == board_after(
                        old(self).state.board@,
                        oc->Ok_0.0,
                        oc->Ok_0.1,
                    )
                    &&& final(self).state.current_player == old(
                        self,
                    ).state.current_player.opponent_spec()
                    &&& final(self).state.history@.len() == old(self).state.history@.len() + 1
                    &&& final(self).state.history@.last()@ == oc->Ok_0.2
                    &&& final(self).state.flipped == old(self).state.flipped
                    &&& new_fen@ == fen_of(
                        final(self).state.board@,
                        final(self).state.current_player,
                    )
                }),
                Err(e) => {
                    &&& apply_outcome(
                        old(self).state.board@,
                        old(self).state.current_player,
                        move_str@,
                    ) == Err::<(Position, Position, Seq<char>), MoveError>(e)
                    &&& *final(self) == *old(self)
                },
            },
    {
        match self.state.apply_move(move_str) {
            Ok(()) => Ok(self.state.to_fen()),
            Err(e) => Err(e),
        }
    }

    /// Take in a finished search: remember its last report (with the
    /// principal variation rendered against the position before the
    /// engine's move), play the engine's best move, and hand back the new
    /// position's FEN to push. A report whose variation does not replay,
    /// or a best move that does not apply, fails; the position is then
    /// left as it was.
    pub fn engine_move(&mut self, result: EngineGoResult) -> (r: Result<String, MoveError>)
        requires
            old(self).state.wf(),
        ensures
            final(self).state.wf(),
            ({
                let b0 = old(self).state.board@;
                let p0 = old(self).state.current_player;
                let infos = result.infos@;
                match r {
                    Ok(new_fen) => ({
                        let oc = apply_outcome(b0, p0, result.best_move@);
                        &&& infos.len() > 0 ==> pv_converts(b0, p0, infos.last()) && (final(self).think_info
                            matches Some(ti) && ti.view_tuple() == converted_info_view(
                            b0,
                            p0,
                            infos.last(),
                        ))
                        &&& infos.len() == 0 ==> final(self).think_info == old(self).think_info
                        &&& oc is Ok
                        &&& final(self).state.board@ == board_after(b0, oc->Ok_0.0, oc->Ok_0.1)
                        &&& final(self).state.current_player == p0.opponent_spec()
                        &&& final(self).state.history@.len() == old(self).state.history@.len() + 1
                        &&& final(self).state.history@.last()@ == oc->Ok_0.2
                        &&& final(self).state.flipped == old(self).state.flipped
                        &&& new_fen@ == fen_of(
                            final(self).state.board@,
                            final(self).state.current_player,
                        )
                    }),
                    Err(e) => ({
                        &&& final(self).state == old(self).state
                        &&& if infos.len() > 0 && !pv_converts(b0, p0, infos.last()) {
                            &&& infos.last().pv matches Some(pv) && pv_chinese(
                                b0,
                                p0,
                                pv.deep_view(),
                            ) == Err::<Seq<Seq<char>>, MoveError>(e)
                            &&& final(self).think_info == old(self).think_info
                        } else {
                            &&& apply_outcome(b0, p0, result.best_move@) == Err::<
                                (Position, Position, Seq<char>),
                                MoveError,
                            >(e)
                            &&& infos.len() > 0 ==> (final(self).think_info matches Some(ti)
                                && ti.view_tuple() == converted_info_view(b0, p0, infos.last()))
                            &&& infos.len() == 0 ==> final(self).think_info == old(self).think_info
                        }
                    }),
                }
            }),
    {
        if result.infos.len() > 0 {
            let last = &result.infos[result.infos.len() - 1];
            let new_pv: Option<Vec<String>> = match &last.pv {
                Some(pv) => {
                    match self.state.pv_to_chinese(pv) {
                        Ok(zh) => Some(zh),
                        Err(e) => {
                            return Err(e);
                        },
                    }
                },
                None => None,
            };
            self.think_info = Some(
                EngineThinkingInfo {
                    depth: last.depth,
                    score: last.score,
                    nps: last.nps,
                    time: last.time,
                    pv: new_pv,
                },
            );
        }
        match self.state.apply_move(result.best_move.as_str()) {
            Ok(()) => Ok(self.state.to_fen()),
            Err(e) => Err(e),
        }
    }
}

} // verus!
