//! The UCI-like engine protocol: `info` line parsing, command building,
//! and the session state machine that drives handshake, search and
//! shutdown. The process I/O around it lives outside the library; the
//! machine turns each received line into the next state and the command
//! to send, if any.

use vstd::prelude::*;
use crate::text::{parse_isize, parse_isize_spec, parse_usize, parse_usize_spec, split_words, words};

verus! {

/// Whether `p` is a prefix of `s`.
pub open spec fn has_prefix(s: Seq<char>, p: Seq<char>) -> bool {
    s.len() >= p.len() && s.subrange(0, p.len() as int) == p
}

/// Whether `n` occurs contiguously anywhere in `h`.
pub open spec fn contains_seq(h: Seq<char>, n: Seq<char>) -> bool {
    exists|j: int| 0 <= j && j + n.len() <= h.len() && #[trigger] h.subrange(j, j + n.len()) == n
}

/// Whether the needle occurs anywhere in the haystack.
pub fn str_contains(h: &str, n: &str) -> (r: bool)
    ensures
        r == contains_seq(h@, n@),
{
    let hn = h.unicode_len();
    let nn = n.unicode_len();
    if nn > hn {
        return false;
    }
    let mut j: usize = 0;
    while j <= hn - nn
        invariant
            hn == h@.len(),
            nn == n@.len(),
            nn <= hn,
            j <= hn - nn + 1,
            forall|j2: int| 0 <= j2 < j ==> #[trigger] h@.subrange(j2, j2 + nn) != n@,
        decreases hn - nn - j + 1,
    {
        let mut k: usize = 0;
        let mut matches = true;
        while k < nn
            invariant
                hn == h@.len(),
                nn == n@.len(),
                j + nn <= hn,
                k <= nn,
                matches == (h@.subrange(j as int, j + k) =~= n@.subrange(0, k as int)),
            decreases nn - k,
        {
            let hc = h.get_char(j + k);
            let nc = n.get_char(k);
            if hc != nc {
                matches = false;
                proof {
                    assert(h@.subrange(j as int, j + k + 1)[k as int] != n@.subrange(
                        0,
                        k as int + 1,
                    )[k as int]);
                }
            } else {
                proof {
                    if matches {
                        assert(h@.subrange(j as int, j + k + 1) =~= n@.subrange(0, k as int + 1));
                    } else {
                        assert(h@.subrange(j as int, j + k) != n@.subrange(0, k as int));
                        let w: int = choose|w: int|
                            0 <= w < k && h@.subrange(j as int, j + k)[w] != n@.subrange(
                                0,
                                k as int,
                            )[w];
                        assert(h@.subrange(j as int, j + k + 1)[w] != n@.subrange(
                            0,
                            k as int + 1,
                        )[w]);
                    }
                }
            }
            k = k + 1;
        }
        if matches {
            proof {
                assert(n@.subrange(0, nn as int) =~= n@);
                assert(h@.subrange(j as int, j + nn) == n@);
            }
            return true;
        }
        proof {
            assert(n@.subrange(0, nn as int) =~= n@);
        }
        j = j + 1;
    }
    false
}

/// Whether the text begins with the given prefix.
pub fn str_has_prefix(s: &str, p: &str) -> (r: bool)
    ensures
        r == has_prefix(s@, p@),
{
    let sn = s.unicode_len();
    let pn = p.unicode_len();
    if pn > sn {
        return false;
    }
    let mut k: usize = 0;
    while k < pn
        invariant
            sn == s@.len(),
            pn == p@.len(),
            pn <= sn,
            k <= pn,
            s@.subrange(0, k as int) =~= p@.subrange(0, k as int),
        decreases pn - k,
    {
        if s.get_char(k) != p.get_char(k) {
            proof {
                assert(s@.subrange(0, pn as int)[k as int] != p@.subrange(0, pn as int)[k as int]);
                assert(p@.subrange(0, pn as int) =~= p@);
            }
            return false;
        }
        proof {
            assert(s@.subrange(0, k as int + 1) =~= p@.subrange(0, k as int + 1));
        }
        k = k + 1;
    }
    proof {
        assert(s@.subrange(0, pn as int) =~= p@.subrange(0, pn as int));
        assert(p@.subrange(0, pn as int) =~= p@);
    }
    true
}

/// Why an `info` line could not be read.
#[derive(Debug, Clone, Copy, PartialEq, Eq, Structural)]
pub enum InfoParseError {
    /// The line does not begin with `info`.
    NotInfoLine,
    /// The token after `depth` is not a number.
    BadDepth,
    /// The token after `score cp` is not a number.
    BadScore,
    /// The token after `nps` is not a number.
    BadNps,
    /// The token after `time` is not a number.
    BadTime,
    /// The line never names a depth.
    MissingDepth,
}

/// One progress report of a thinking engine.
#[derive(Debug, Clone)]
pub struct EngineThinkingInfo {
    /// Search depth; the one field every report carries.
    pub depth: usize,
    /// Centipawn-like score, if reported.
    pub score: Option<isize>,
    /// Nodes per second, if reported.
    pub nps: Option<usize>,
    /// Time spent in milliseconds, if reported.
    pub time: Option<usize>,
    /// The predicted best line, as raw move strings, if reported.
    pub pv: Option<Vec<String>>,
}

impl EngineThinkingInfo {
    /// The mathematical content of a report: depth, score, nodes per
    /// second, time, and the principal variation as character sequences.
    pub open spec fn view_tuple(self) -> (
        int,
        Option<int>,
        Option<int>,
        Option<int>,
        Option<Seq<Seq<char>>>,
    ) {
        (
            self.depth as int,
            match self.score {
                Some(v) => Some(v as int),
                None => None,
            },
            match self.nps {
                Some(v) => Some(v as int),
                None => None,
            },
            match self.time {
                Some(v) => Some(v as int),
                None => None,
            },
            match self.pv {
                Some(v) => Some(v.deep_view()),
                None => None,
            },
        )
    }

    /// A copy with the same content.
    pub fn duplicate(&self) -> (r: Self)
        ensures
            r.view_tuple() == self.view_tuple(),
    {
        EngineThinkingInfo {
            depth: self.depth,
            score: self.score,
            nps: self.nps,
            time: self.time,
            pv: match &self.pv {
                Some(v) => {
                    let c = v.clone();
                    proof {
                        assert(c@ =~= v@);
                    }
                    Some(c)
                },
                None => None,
            },
        }
    }
}

impl Default for EngineThinkingInfo {
    /// An empty report: depth zero, nothing else.
    fn default() -> (r: Self)
        ensures
            r.depth == 0,
            r.score is None,
            r.nps is None,
            r.time is None,
            r.pv is None,
    {
        EngineThinkingInfo { depth: 0, score: None, nps: None, time: None, pv: None }
    }
}

/// Scan the tokens of an `info` line from index `i` on, with the fields
/// gathered so far; a later occurrence of a field overwrites an earlier
/// one, and `pv` takes the rest of the line and stops the scan.
pub open spec fn info_scan(
    toks: Seq<Seq<char>>,
    i: int,
    depth: Option<int>,
    score: Option<int>,
    nps: Option<int>,
    time: Option<int>,
) -> Result<(int, Option<int>, Option<int>, Option<int>, Option<Seq<Seq<char>>>), InfoParseError>
    decreases toks.len() - i,
{
    if i < 0 || i >= toks.len() {
        match depth {
            None => Err(InfoParseError::MissingDepth),
            Some(d) => Ok((d, score, nps, time, None)),
        }
    } else if toks[i] == "depth"@ && i + 1 < toks.len() {
        match parse_usize_spec(toks[i + 1]) {
            None => Err(InfoParseError::BadDepth),
            Some(v) => info_scan(toks, i + 2, Some(v), score, nps, time),
        }
    } else if toks[i] == "score"@ && i + 2 < toks.len() && toks[i + 1] == "cp"@ {
        match parse_isize_spec(toks[i + 2]) {
            None => Err(InfoParseError::BadScore),
            Some(v) => info_scan(toks, i + 3, depth, Some(v), nps, time),
        }
    } else if toks[i] == "nps"@ && i + 1 < toks.len() {
        match parse_usize_spec(toks[i + 1]) {
            None => Err(InfoParseError::BadNps),
            Some(v) => info_scan(toks, i + 2, depth, score, Some(v), time),
        }
    } else if toks[i] == "time"@ && i + 1 < toks.len() {
        match parse_usize_spec(toks[i + 1]) {
            None => Err(InfoParseError::BadTime),
            Some(v) => info_scan(toks, i + 2, depth, score, nps, Some(v)),
        }
    } else if toks[i] == "pv"@ && i + 1 < toks.len() {
        match depth {
            None => Err(InfoParseError::MissingDepth),
            Some(d) => Ok((d, score, nps, time, Some(toks.skip(i + 1)))),
        }
    } else {
        info_scan(toks, i + 1, depth, score, nps, time)
    }
}

/// How a line reads as a thinking report: it must begin with `info` and
/// name a depth; `score cp`, `nps`, `time` and a trailing `pv` move list
/// are optional.
pub open spec fn parse_info_spec(s: Seq<char>) -> Result<
    (int, Option<int>, Option<int>, Option<int>, Option<Seq<Seq<char>>>),
    InfoParseError,
> {
    if !has_prefix(s, "info"@) {
        Err(InfoParseError::NotInfoLine)
    } else {
        info_scan(words(s), 1, None, None, None, None)
    }
}

impl EngineThinkingInfo {
    /// Read one engine `info` line into a report.
    pub fn parse(s: &str) -> (r: Result<EngineThinkingInfo, InfoParseError>)
        ensures
            r is Ok <==> parse_info_spec(s@) is Ok,
            r matches Ok(info) ==> parse_info_spec(s@) == Ok::<
                (int, Option<int>, Option<int>, Option<int>, Option<Seq<Seq<char>>>),
                InfoParseError,
            >(info.view_tuple()),
            r matches Err(e) ==> parse_info_spec(s@) == Err::<
                (int, Option<int>, Option<int>, Option<int>, Option<Seq<Seq<char>>>),
                InfoParseError,
            >(e),
    {
        let info_lit = "info";
        proof {
            reveal_strlit("info");
        }
        if !str_has_prefix(s, info_lit) {
            return Err(InfoParseError::NotInfoLine);
        }
        let toks = split_words(s);
        let ghost tv = toks.deep_view();
        let depth_lit = String::from_str("depth");
        let score_lit = String::from_str("score");
        let cp_lit = String::from_str("cp");
        let nps_lit = String::from_str("nps");
        let time_lit = String::from_str("time");
        let pv_lit = String::from_str("pv");
        let mut depth: Option<usize> = None;
        let mut score: Option<isize> = None;
        let mut nps: Option<usize> = None;
        let mut time: Option<usize> = None;
        let mut i: usize = 1;
        while i < toks.len()
            invariant
                tv == toks.deep_view(),
                tv.len() == toks@.len(),
                depth_lit@ == "depth"@,
                score_lit@ == "score"@,
                cp_lit@ == "cp"@,
                nps_lit@ == "nps"@,
                time_lit@ == "time"@,
                pv_lit@ == "pv"@,
                1 <= i,
                i <= tv.len() + 3,
                parse_info_spec(s@) == info_scan(
                    tv,
                    i as int,
                    match depth {
                        Some(v) => Some(v as int),
                        None => None,
                    },
                    match score {
                        Some(v) => Some(v as int),
                        None => None,
                    },
                    match nps {
                        Some(v) => Some(v as int),
                        None => None,
                    },
                    match time {
                        Some(v) => Some(v as int),
                        None => None,
                    },
                ),
            decreases tv.len() + 3 - i,
        {
            let rem = toks.len() - i;
            proof {
                assert(tv[i as int] == toks@[i as int]@);
                if i + 1 < tv.len() {
                    assert(tv[i as int + 1] == toks@[i as int + 1]@);
                }
                if i + 2 < tv.len() {
                    assert(tv[i as int + 2] == toks@[i as int + 2]@);
                }
            }
            if toks[i] == depth_lit && rem > 1 {
                match parse_usize(toks[i + 1].as_str()) {
                    Some(v) => {
                        depth = Some(v);
                        i = i + 2;
                    },
                    None => {
                        return Err(InfoParseError::BadDepth);
                    },
                }
            } else if toks[i] == score_lit && rem > 2 && toks[i + 1] == cp_lit {
                match parse_isize(toks[i + 2].as_str()) {
                    Some(v) => {
                        score = Some(v);
                        i = i + 3;
                    },
                    None => {
                        return Err(InfoParseError::BadScore);
                    },
                }
            } else if toks[i] == nps_lit && rem > 1 {
                match parse_usize(toks[i + 1].as_str()) {
                    Some(v) => {
                        nps = Some(v);
                        i = i + 2;
                    },
                    None => {
                        return Err(InfoParseError::BadNps);
                    },
                }
            } else if toks[i] == time_lit && rem > 1 {
                match parse_usize(toks[i + 1].as_str()) {
                    Some(v) => {
                        time = Some(v);
                        i = i + 2;
                    },
                    None => {
                        return Err(InfoParseError::BadTime);
                    },
                }
            } else if toks[i] == pv_lit && rem > 1 {
                let d = match depth {
                    Some(d) => d,
                    None => {
                        return Err(InfoParseError::MissingDepth);
                    },
                };
                let mut pv: Vec<String> = Vec::new();
                let mut j: usize = i + 1;
                while j < toks.len()
                    invariant
                        tv == toks.deep_view(),
                        tv.len() == toks@.len(),
                        i + 1 <= j <= tv.len(),
                        pv.deep_view() =~= tv.subrange(i as int + 1, j as int),
                    decreases tv.len() - j,
                {
                    let ghost pre = pv.deep_view();
                    pv.push(toks[j].clone());
                    proof {
                        assert(toks@[j as int]@ == tv[j as int]);
                        assert(pv.deep_view() =~= pre.push(tv[j as int]));
                        assert(pre.push(tv[j as int]) =~= tv.subrange(i as int + 1, j as int + 1));
                    }
                    j = j + 1;
                }
                proof {
                    assert(tv.subrange(i as int + 1, tv.len() as int) =~= tv.skip(i as int + 1));
                }
                return Ok(EngineThinkingInfo { depth: d, score, nps, time, pv: Some(pv) });
            } else {
                i = i + 1;
            }
        }
        let d = match depth {
            Some(d) => d,
            None => {
                return Err(InfoParseError::MissingDepth);
            },
        };
        Ok(EngineThinkingInfo { depth: d, score, nps, time, pv: None })
    }
}

/// The engines the library knows how to drive. Only the UCI-like family
/// has a member today; a new protocol family becomes a new variant.
#[derive(Debug, Clone, Copy, PartialEq, Eq, Hash, Structural)]
pub enum EngineType {
    Pikafish,
}

/// What `str::to_lowercase` returns: a function of the characters alone.
pub uninterp spec fn lower_of(s: Seq<char>) -> Seq<char>;

/// Relies on str::to_lowercase for Unicode case folding; the result
/// depends only on the input characters.
#[verifier::external_body]
pub(crate) fn lowercase(s: &str) -> (r: String)
    ensures
        r@ == lower_of(s@),
{
    s.to_lowercase()
}

impl EngineType {
    /// Read an engine name, ignoring case.
    pub fn parse(s: &str) -> (r: Option<EngineType>)
        ensures
            r == if lower_of(s@) == "pikafish"@ {
                Some(EngineType::Pikafish)
            } else {
                None::<EngineType>
            },
    {
        let low = lowercase(s);
        let pika = String::from_str("pikafish");
        if low == pika {
            Some(EngineType::Pikafish)
        } else {
            None
        }
    }

    /// The engine's canonical lowercase name.
    pub fn name(&self) -> (r: String)
        ensures
            r@ == "pikafish"@,
    {
        String::from_str("pikafish")
    }
}

/// Where a session stands: the handshake runs Uninitialized through the
/// two waits to Ready; `go` moves Ready to Thinking and `bestmove` back;
/// Quit is terminal.
#[derive(Debug, Clone, Copy, PartialEq, Eq, Structural)]
pub enum SessionState {
    Uninitialized,
    AwaitUciOk,
    AwaitReadyOk,
    Ready,
    Thinking,
    Quit,
}

/// What one `go` came to: every progress report seen, and the engine's
/// chosen move.
pub struct EngineGoResult {
    pub infos: Vec<EngineThinkingInfo>,
    pub best_move: String,
}

/// The reports of a search, by their mathematical content.
pub open spec fn infos_view(v: Seq<EngineThinkingInfo>) -> Seq<
    (int, Option<int>, Option<int>, Option<int>, Option<Seq<Seq<char>>>),
> {
    v.map_values(|x: EngineThinkingInfo| x.view_tuple())
}

/// The decimal digits of a non-negative number, most significant first.
pub open spec fn dec_digits(n: int) -> Seq<char>
    decreases n,
{
    if n < 10 {
        seq![crate::fen::digit_char(n)]
    } else {
        dec_digits(n / 10) + seq![crate::fen::digit_char(n % 10)]
    }
}

/// Append one decimal digit.
fn append_any_digit(out: &mut String, d: usize)
    requires
        d <= 9,
    ensures
        final(out)@ == old(out)@.push(crate::fen::digit_char(d as int)),
{
    let lit: &'static str = match d {
        0 => "0",
        1 => "1",
        2 => "2",
        3 => "3",
        4 => "4",
        5 => "5",
        6 => "6",
        7 => "7",
        8 => "8",
        _ => "9",
    };
    proof {
        reveal_strlit("0");
        reveal_strlit("1");
        reveal_strlit("2");
        reveal_strlit("3");
        reveal_strlit("4");
        reveal_strlit("5");
        reveal_strlit("6");
        reveal_strlit("7");
        reveal_strlit("8");
        reveal_strlit("9");
        assert(lit@ =~= seq![crate::fen::digit_char(d as int)]);
    }
    out.append(lit);
    assert(out@ =~= old(out)@.push(crate::fen::digit_char(d as int)));
}

/// Append a number in decimal.
fn append_dec(out: &mut String, n: usize)
    ensures
        final(out)@ == old(out)@ + dec_digits(n as int),
    decreases n,
{
    if n < 10 {
        append_any_digit(out, n);
        assert(out@ =~= old(out)@ + dec_digits(n as int));
    } else {
        append_dec(out, n / 10);
        append_any_digit(out, n % 10);
        assert(out@ =~= old(out)@ + dec_digits(n as int));
    }
}

/// A `bestmove` line that actually carries a move.
pub open spec fn bestmove_hit(s: Seq<char>) -> bool {
    has_prefix(s, "bestmove"@) && words(s).len() >= 2
}

/// After any quit the session is Quit; quitting again changes nothing.
pub open spec fn quit_state(st: SessionState) -> SessionState {
    SessionState::Quit
}

/// A quit sends the `quit` command only the first time.
pub open spec fn quit_sends(st: SessionState) -> bool {
    st != SessionState::Quit
}

/// Quitting is idempotent: a second quit leaves the session where the
/// first left it, and sends nothing.
pub proof fn lemma_quit_idempotent(st: SessionState)
    ensures
        quit_state(quit_state(st)) == quit_state(st),
        !quit_sends(quit_state(st)),
{
}

/// A UCI-like engine session as a pure state machine: each method turns a
/// received line into the next state and the command to write, if any.
/// Spawning the process and moving the bytes is the caller's part.
pub struct UciEngine {
    /// Where the session stands.
    pub state: SessionState,
    /// The reports of the search now running, oldest first.
    pub infos: Vec<EngineThinkingInfo>,
    /// The most recent report ever parsed.
    pub last_think_info: Option<EngineThinkingInfo>,
}

impl UciEngine {
    /// A fresh session: nothing sent, nothing heard.
    pub fn new() -> (r: Self)
        ensures
            r.state == SessionState::Uninitialized,
            r.infos@.len() == 0,
            r.last_think_info is None,
    {
        UciEngine { state: SessionState::Uninitialized, infos: Vec::new(), last_think_info: None }
    }

    /// Open the handshake: the session starts waiting for `uciok`, and the
    /// returned `uci` command is to be written to the engine.
    pub fn begin_init(&mut self) -> (cmd: String)
        requires
            old(self).state == SessionState::Uninitialized,
        ensures
            final(self).state == SessionState::AwaitUciOk,
            final(self).infos == old(self).infos,
            final(self).last_think_info == old(self).last_think_info,
            cmd@ == "uci"@,
    {
        self.state = SessionState::AwaitUciOk;
        String::from_str("uci")
    }

    /// Feed one line received during the handshake. A line containing
    /// `uciok` answers the `uci` probe and asks for `isready` to be sent;
    /// one containing `readyok` completes the handshake; anything else
    /// (option advertisements and the like) is ignored.
    pub fn on_init_line(&mut self, line: &str) -> (cmd: Option<String>)
        requires
            old(self).state == SessionState::AwaitUciOk || old(self).state
                == SessionState::AwaitReadyOk,
        ensures
            final(self).infos == old(self).infos,
            final(self).last_think_info == old(self).last_think_info,
            ({
                let st = old(self).state;
                if st == SessionState::AwaitUciOk && contains_seq(line@, "uciok"@) {
                    &&& final(self).state == SessionState::AwaitReadyOk
                    &&& cmd matches Some(c) && c@ == "isready"@
                } else if st == SessionState::AwaitReadyOk && contains_seq(line@, "readyok"@) {
                    &&& final(self).state == SessionState::Ready
                    &&& cmd is None
                } else {
                    &&& final(self).state == st
                    &&& cmd is None
                }
            }),
    {
        match self.state {
            SessionState::AwaitUciOk => {
                if str_contains(line, "uciok") {
                    self.state = SessionState::AwaitReadyOk;
                    Some(String::from_str("isready"))
                } else {
                    None
                }
            },
            SessionState::AwaitReadyOk => {
                if str_contains(line, "readyok") {
                    self.state = SessionState::Ready;
                }
                None
            },
            _ => None,
        }
    }

    /// Whether the handshake is complete and no search is running.
    pub fn is_ready(&self) -> (r: bool)
        ensures
            r == (self.state == SessionState::Ready),
    {
        self.state == SessionState::Ready
    }

    /// The command that sets the engine's position to the given FEN.
    pub fn set_position(&self, fen: &str) -> (cmd: String)
        ensures
            cmd@ == "position fen "@ + fen@,
    {
        let mut out = String::from_str("position fen ");
        out.append(fen);
        out
    }

    /// The command that sets a named engine option, with or without a value.
    pub fn set_option(&self, name: &str, value: Option<&str>) -> (cmd: String)
        ensures
            match value {
                Some(v) => cmd@ == "setoption name "@ + name@ + " value "@ + v@,
                None => cmd@ == "setoption name "@ + name@,
            },
    {
        let mut out = String::from_str("setoption name ");
        out.append(name);
        match value {
            Some(v) => {
                out.append(" value ");
                out.append(v);
            },
            None => {},
        }
        out
    }

    /// Start a search: the session begins collecting reports afresh, and
    /// the returned `go` command — bounded by `movetime` when a budget is
    /// given — is to be written to the engine.
    pub fn begin_go(&mut self, think_time: Option<usize>) -> (cmd: String)
        requires
            old(self).state == SessionState::Ready,
        ensures
            final(self).state == SessionState::Thinking,
            final(self).infos@.len() == 0,
            final(self).last_think_info == old(self).last_think_info,
            match think_time {
                Some(t) => cmd@ == "go movetime "@ + dec_digits(t as int),
                None => cmd@ == "go"@,
            },
    {
        self.state = SessionState::Thinking;
        self.infos = Vec::new();
        match think_time {
            Some(t) => {
                let mut out = String::from_str("go movetime ");
                append_dec(&mut out, t);
                out
            },
            None => String::from_str("go"),
        }
    }

    /// Feed one line received while thinking. An `info` line that parses
    /// is recorded (a malformed one is ignored); a `bestmove` line that
    /// carries a move ends the search and hands back every report
    /// collected since `begin_go` together with the move; anything else
    /// is ignored.
    pub fn on_go_line(&mut self, line: &str) -> (r: Option<EngineGoResult>)
        requires
            old(self).state == SessionState::Thinking,
        ensures
            match r {
                Some(res) => {
                    &&& bestmove_hit(line@)
                    &&& final(self).state == SessionState::Ready
                    &&& res.best_move@ == words(line@)[1]
                    &&& res.infos == old(self).infos
                    &&& final(self).infos@.len() == 0
                    &&& final(self).last_think_info == old(self).last_think_info
                },
                None => {
                    &&& !bestmove_hit(line@)
                    &&& final(self).state == SessionState::Thinking
                    &&& if parse_info_spec(line@) is Ok {
                        &&& infos_view(final(self).infos@) == infos_view(old(self).infos@).push(
                            parse_info_spec(line@)->Ok_0,
                        )
                        &&& final(self).last_think_info matches Some(li) && li.view_tuple()
                            == parse_info_spec(line@)->Ok_0
                    } else {
                        *final(self) == *old(self)
                    }
                },
            },
    {
        let bestmove_lit = "bestmove";
        proof {
            reveal_strlit("bestmove");
            reveal_strlit("info");
        }
        if str_has_prefix(line, bestmove_lit) {
            let parts = split_words(line);
            if parts.len() > 1 {
                let best_move = parts[1].clone();
                proof {
                    assert(parts.deep_view()[1] == parts@[1]@);
                }
                let mut taken: Vec<EngineThinkingInfo> = Vec::new();
                core::mem::swap(&mut taken, &mut self.infos);
                self.state = SessionState::Ready;
                proof {
                    // A line that begins with `bestmove` cannot begin with
                    // `info`: the first characters differ.
                    assert(line@.subrange(0, 8)[0] == 'b');
                    if has_prefix(line@, "info"@) {
                        assert(line@.subrange(0, 4)[0] == 'i');
                        assert(false);
                    }
                }
                Some(EngineGoResult { infos: taken, best_move })
            } else {
                proof {
                    if has_prefix(line@, "info"@) {
                        assert(line@.subrange(0, 8)[0] == 'b');
                        assert(line@.subrange(0, 4)[0] == 'i');
                        assert(false);
                    }
                }
                None
            }
        } else {
            match EngineThinkingInfo::parse(line) {
                Ok(info) => {
                    let ghost pre = self.infos@;
                    self.last_think_info = Some(info.duplicate());
                    self.infos.push(info);
                    proof {
                        assert(infos_view(self.infos@) =~= infos_view(pre).push(
                            parse_info_spec(line@)->Ok_0,
                        ));
                    }
                    None
                },
                Err(_) => None,
            }
        }
    }

    /// The command that asks a thinking engine to stop early and produce
    /// its `bestmove` now; the session keeps waiting on the search.
    pub fn stop(&self) -> (cmd: String)
        ensures
            cmd@ == "stop"@,
    {
        String::from_str("stop")
    }

    /// Close the session. The first quit hands back the `quit` command to
    /// write; any further quit is harmless and sends nothing.
    pub fn quit(&mut self) -> (cmd: Option<String>)
        ensures
            final(self).state == quit_state(old(self).state),
            final(self).infos == old(self).infos,
            final(self).last_think_info == old(self).last_think_info,
            match cmd {
                Some(c) => quit_sends(old(self).state) && c@ == "quit"@,
                None => !quit_sends(old(self).state),
            },
    {
        let was_quit = self.state == SessionState::Quit;
        self.state = SessionState::Quit;
        if was_quit {
            None
        } else {
            Some(String::from_str("quit"))
        }
    }

    /// The most recent report the session has parsed, if any.
    pub fn get_last_think_info(&self) -> (r: Option<EngineThinkingInfo>)
        ensures
            match r {
                Some(i) => self.last_think_info matches Some(j) && i.view_tuple() == j.view_tuple(),
                None => self.last_think_info is None,
            },
    {
        match &self.last_think_info {
            Some(i) => Some(i.duplicate()),
            None => None,
        }
    }
}

} // verus!
