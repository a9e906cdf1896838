//! The scheduler: what to do on each tick with the commands that came in,
//! with the thresholds of playback time, and with the windows that move.
//!
//! The scheduler decides; its caller asks the media engine for positions,
//! and carries out what the scheduler hands back.

use vstd::prelude::*;
use vstd::string::*;
use crate::error::{ParseError, ParseResult, outcome, views};
use crate::number::{i32_text, parse_i32, parse_scaled, scaled_text};
use crate::scheduler::window::{
    WindowSpec, WindowSpecView, has_window, is_window, window_specs, windows_for,
};
use crate::script::{Pattern, PatternView};
use crate::table::has_name;
use crate::script::action::command_line;
use crate::text::{
    is_word, joined, lemma_words_of_joined, same, split_whitespace, texts, words,
};

pub mod window;

verus! {

/// A window on its way from one place to another while a pipeline plays
/// from `start` to `end`, in nanoseconds. On each axis the window follows
/// the ease curve where the path is `mcos`, and is at the end coordinate at
/// once where it is anything else.
#[derive(Debug)]
pub struct MovingPart {
    pub pipeline: String,
    pub window: String,
    pub start: i64,
    pub end: i64,
    pub start_x: i32,
    pub end_x: i32,
    pub start_y: i32,
    pub end_y: i32,
    pub path_x: String,
    pub path_y: String,
}

/// What a `MovingPart` is in contracts: its texts as sequences of characters.
pub struct MovingPartView {
    pub pipeline: Seq<char>,
    pub window: Seq<char>,
    pub start: i64,
    pub end: i64,
    pub start_x: i32,
    pub end_x: i32,
    pub start_y: i32,
    pub end_y: i32,
    pub path_x: Seq<char>,
    pub path_y: Seq<char>,
}

impl View for MovingPart {
    type V = MovingPartView;

    open spec fn view(&self) -> MovingPartView {
        MovingPartView {
            pipeline: self.pipeline@,
            window: self.window@,
            start: self.start,
            end: self.end,
            start_x: self.start_x,
            end_x: self.end_x,
            start_y: self.start_y,
            end_y: self.end_y,
            path_x: self.path_x@,
            path_y: self.path_y@,
        }
    }
}

/// What one message asks of the scheduler.
#[derive(Debug)]
pub enum Command {
    /// End the process.
    Terminate,
    /// Run the start-up actions again.
    Replay,
    /// Show the window of this name.
    Show(String),
    /// Start moving a window.
    Move(MovingPart),
}

/// What a `Command` is in contracts: its texts as sequences of characters.
pub enum CommandView {
    Terminate,
    Replay,
    Show(Seq<char>),
    Move(MovingPartView),
}

impl View for Command {
    type V = CommandView;

    open spec fn view(&self) -> CommandView {
        match self {
            Command::Terminate => CommandView::Terminate,
            Command::Replay => CommandView::Replay,
            Command::Show(w) => CommandView::Show(w@),
            Command::Move(p) => CommandView::Move(p@),
        }
    }
}

/// The move that the words `w` of a message describe: the window, `move`,
/// then either the pipeline and eight fields, or eight fields alone, in
/// which case the pipeline is the one that has the window's name. The
/// fields are the start time, x and y, the end time, x and y, and the paths
/// on x and on y; the times are seconds and are kept as nanoseconds.
pub open spec fn move_command<T>(
    pipes: Seq<(Seq<char>, T)>,
    windows: Seq<WindowSpecView>,
    w: Seq<Seq<char>>,
    msg: Seq<char>,
) -> Result<MovingPartView, Seq<char>> {
    if w.len() != 10 && w.len() != 11 {
        Err("Malformed move: "@ + msg)
    } else {
        let key = if w.len() == 11 {
            w[2]
        } else {
            w[0]
        };
        let f = w.skip(w.len() - 8);
        if !has_name(pipes, key) {
            Err("Pipeline not found: "@ + key)
        } else if !has_window(windows, w[0]) {
            Err("Unknown window: "@ + w[0])
        } else if scaled_text(f[0], 9) is None || scaled_text(f[3], 9) is None {
            Err("Could not parse time in move: "@ + msg)
        } else if i32_text(f[1]) is None || i32_text(f[2]) is None || i32_text(f[4]) is None
            || i32_text(f[5]) is None {
            Err("Could not parse coordinate in move: "@ + msg)
        } else {
            Ok(
                MovingPartView {
                    pipeline: key,
                    window: w[0],
                    start: scaled_text(f[0], 9)->0.signed_value(),
                    end: scaled_text(f[3], 9)->0.signed_value(),
                    start_x: i32_text(f[1])->0,
                    end_x: i32_text(f[4])->0,
                    start_y: i32_text(f[2])->0,
                    end_y: i32_text(f[5])->0,
                    path_x: f[6],
                    path_y: f[7],
                },
            )
        }
    }
}

/// What the message `msg` asks for.
pub open spec fn message<T>(
    pipes: Seq<(Seq<char>, T)>,
    windows: Seq<WindowSpecView>,
    msg: Seq<char>,
) -> Result<CommandView, Seq<char>> {
    let w = words(msg);
    if msg == " terminate"@ {
        Ok(CommandView::Terminate)
    } else if msg == "pre"@ {
        Ok(CommandView::Replay)
    } else if w.len() < 2 {
        Err("Malformed message: "@ + msg)
    } else if w[1] == "show"@ {
        if has_window(windows, w[0]) {
            Ok(CommandView::Show(w[0]))
        } else {
            Err("Unknown window: "@ + w[0])
        }
    } else if w[1] == "move"@ {
        match move_command(pipes, windows, w, msg) {
            Ok(part) => Ok(CommandView::Move(part)),
            Err(e) => Err(e),
        }
    } else {
        Err("Unknown action: "@ + w[1])
    }
}

/// The line that the action `terminate` sends asks the scheduler to end the
/// process.
pub proof fn lemma_terminate_is_read<T>(pipes: Seq<(Seq<char>, T)>, windows: Seq<WindowSpecView>)
    ensures
        message(pipes, windows, command_line(Seq::empty(), "terminate"@, Seq::empty())) == Ok::<
            CommandView,
            Seq<char>,
        >(CommandView::Terminate),
{
    reveal_strlit("terminate");
    reveal_strlit(" terminate");
    reveal_with_fuel(joined, 3);
    let parts = seq![Seq::<char>::empty(), "terminate"@];
    assert(seq![Seq::<char>::empty(), "terminate"@] + Seq::<Seq<char>>::empty() =~= parts);
    assert(parts.drop_last() =~= seq![Seq::<char>::empty()]);
    assert(command_line(Seq::empty(), "terminate"@, Seq::empty()) =~= " terminate"@);
}

/// The line that a window action `show` sends for a window that there is
/// asks the scheduler to show that window.
pub proof fn lemma_show_is_read<T>(
    pipes: Seq<(Seq<char>, T)>,
    windows: Seq<WindowSpecView>,
    window: Seq<char>,
)
    requires
        is_word(window),
        has_window(windows, window),
    ensures
        message(pipes, windows, command_line(window, "show"@, Seq::empty())) == Ok::<
            CommandView,
            Seq<char>,
        >(CommandView::Show(window)),
{
    reveal_strlit("show");
    reveal_strlit(" terminate");
    reveal_strlit("pre");
    reveal_with_fuel(joined, 3);
    let parts = seq![window, "show"@];
    assert(seq![window, "show"@] + Seq::<Seq<char>>::empty() =~= parts);
    assert(is_word("show"@));
    lemma_words_of_joined(parts);
    let line = command_line(window, "show"@, Seq::empty());
    assert(parts.drop_last() =~= seq![window]);
    assert(line =~= window + seq![' '] + "show"@);
    assert(line[0] == window[0]);
    assert(" terminate"@[0] == ' ');
    assert(line.len() > 3);
}

/// Reads a message from the command channel.
pub fn handle_message(pattern: &Pattern, windows: &Vec<WindowSpec>, msg: &str) -> (r: ParseResult<
    Command,
>)
    ensures
        outcome(r) == message(pattern.pipes@, views(windows@), msg@),
{
    if same(msg, " terminate") {
        return Ok(Command::Terminate);
    }
    if same(msg, "pre") {
        return Ok(Command::Replay);
    }
    let w = split_whitespace(msg);
    let n = w.len();
    if n < 2 {
        return Err(ParseError::report_with("Malformed message: ", msg));
    }
    let verb = w[1].as_str();
    if same(verb, "show") {
        if is_window(windows, w[0].as_str()) {
            Ok(Command::Show(w[0].clone()))
        } else {
            Err(ParseError::report_with("Unknown window: ", w[0].as_str()))
        }
    } else if same(verb, "move") {
        if n != 10 && n != 11 {
            return Err(ParseError::report_with("Malformed move: ", msg));
        }
        let key = if n == 11 {
            w[2].clone()
        } else {
            w[0].clone()
        };
        let b: usize = n - 8;
        proof {
            let f = texts(w@).skip(n - 8);
            assert(forall|k: int| 0 <= k < 8 ==> f[k] == w@[b + k]@);
        }
        if !pattern.pipes.contains_key(key.as_str()) {
            return Err(ParseError::report_with("Pipeline not found: ", key.as_str()));
        }
        if !is_window(windows, w[0].as_str()) {
            return Err(ParseError::report_with("Unknown window: ", w[0].as_str()));
        }
        let start = parse_scaled(w[b].as_str(), 9);
        let end = parse_scaled(w[b + 3].as_str(), 9);
        if start.is_none() || end.is_none() {
            return Err(ParseError::report_with("Could not parse time in move: ", msg));
        }
        let start_x = parse_i32(w[b + 1].as_str());
        let start_y = parse_i32(w[b + 2].as_str());
        let end_x = parse_i32(w[b + 4].as_str());
        let end_y = parse_i32(w[b + 5].as_str());
        if start_x.is_none() || start_y.is_none() || end_x.is_none() || end_y.is_none() {
            return Err(ParseError::report_with("Could not parse coordinate in move: ", msg));
        }
        Ok(
            Command::Move(
                MovingPart {
                    pipeline: key,
                    window: w[0].clone(),
                    start: start.unwrap().signed(),
                    end: end.unwrap().signed(),
                    start_x: start_x.unwrap(),
                    end_x: end_x.unwrap(),
                    start_y: start_y.unwrap(),
                    end_y: end_y.unwrap(),
                    path_x: w[b + 6].clone(),
                    path_y: w[b + 7].clone(),
                },
            ),
        )
    } else {
        Err(ParseError::report_with("Unknown action: ", verb))
    }
}

/// Where a window goes on one axis: to a coordinate, or from one coordinate
/// towards another along the ease curve, as far as the time has come.
#[derive(Clone, Copy, Debug, PartialEq, Eq, Structural)]
pub enum AxisTarget {
    At(i32),
    Ease { from: i32, to: i32 },
}

/// A move of a window, to be carried out now. `time` is how far the
/// pipeline has played, between `start` and `end`: what an eased axis needs.
#[derive(Debug)]
pub struct WindowMove {
    pub window: String,
    pub time: i64,
    pub start: i64,
    pub end: i64,
    pub x: AxisTarget,
    pub y: AxisTarget,
}

/// What a `WindowMove` is in contracts: its texts as sequences of characters.
pub struct WindowMoveView {
    pub window: Seq<char>,
    pub time: i64,
    pub start: i64,
    pub end: i64,
    pub x: AxisTarget,
    pub y: AxisTarget,
}

impl View for WindowMove {
    type V = WindowMoveView;

    open spec fn view(&self) -> WindowMoveView {
        WindowMoveView {
            window: self.window@,
            time: self.time,
            start: self.start,
            end: self.end,
            x: self.x,
            y: self.y,
        }
    }
}

/// Where a window goes on an axis while it is on its way. On the ease
/// curve it is at the start coordinate at the start time, where the curve
/// begins, and follows the curve from then on; on any other path it is at
/// the end coordinate at once.
pub open spec fn axis_target(path: Seq<char>, from: i32, to: i32, at_start: bool) -> AxisTarget {
    if path == "mcos"@ {
        if at_start {
            AxisTarget::At(from)
        } else {
            AxisTarget::Ease { from, to }
        }
    } else {
        AxisTarget::At(to)
    }
}

/// Whether the part is done once the pipeline is at `position`: the start
/// time and the end time are both reached.
pub open spec fn retires(part: MovingPartView, position: Option<i64>) -> bool {
    position matches Some(t) && t >= part.start && t >= part.end
}

/// The move that the part asks for when the pipeline is at `position`: none
/// while the position is unknown or before the start time, to the end
/// coordinates once the end time is reached, and along its paths between.
pub open spec fn part_move(part: MovingPartView, position: Option<i64>) -> Option<WindowMoveView> {
    match position {
        None => None,
        Some(t) => if t < part.start {
            None
        } else if t >= part.end {
            Some(
                WindowMoveView {
                    window: part.window,
                    time: t,
                    start: part.start,
                    end: part.end,
                    x: AxisTarget::At(part.end_x),
                    y: AxisTarget::At(part.end_y),
                },
            )
        } else {
            Some(
                WindowMoveView {
                    window: part.window,
                    time: t,
                    start: part.start,
                    end: part.end,
                    x: axis_target(part.path_x, part.start_x, part.end_x, t == part.start),
                    y: axis_target(part.path_y, part.start_y, part.end_y, t == part.start),
                },
            )
        },
    }
}

/// The position that was found for part `i`: unknown where none was given.
pub open spec fn position_of(positions: Seq<Option<i64>>, i: int) -> Option<i64> {
    if 0 <= i < positions.len() {
        positions[i]
    } else {
        None
    }
}

/// The moves that the first `n` parts ask for, in the order of the parts.
pub open spec fn moves(parts: Seq<MovingPartView>, positions: Seq<Option<i64>>, n: int) -> Seq<
    WindowMoveView,
>
    decreases n,
{
    if n <= 0 {
        Seq::empty()
    } else {
        match part_move(parts[n - 1], position_of(positions, n - 1)) {
            Some(m) => moves(parts, positions, n - 1).push(m),
            None => moves(parts, positions, n - 1),
        }
    }
}

/// Those of the first `n` parts that are not done, in their order.
pub open spec fn survivors(parts: Seq<MovingPartView>, positions: Seq<Option<i64>>, n: int) -> Seq<
    MovingPartView,
>
    decreases n,
{
    if n <= 0 {
        Seq::empty()
    } else if retires(parts[n - 1], position_of(positions, n - 1)) {
        survivors(parts, positions, n - 1)
    } else {
        survivors(parts, positions, n - 1).push(parts[n - 1])
    }
}

/// Whether a pipeline at `position` has played past `nanos`.
pub open spec fn crossed(position: Option<i64>, nanos: u64) -> bool {
    position matches Some(t) && t > nanos
}

/// Whether an event fires when its pipeline is found at `position`: it has
/// not fired before, and the position is past its threshold.
pub open spec fn fires(fired: bool, nanos: u64, position: Option<i64>) -> bool {
    !fired && crossed(position, nanos)
}

/// How often an event fires while its pipeline is found at the positions of
/// `trace`, one after the other.
pub open spec fn fire_count(fired: bool, nanos: u64, trace: Seq<Option<i64>>) -> nat
    decreases trace.len(),
{
    if trace.len() == 0 {
        0
    } else if fires(fired, nanos, trace[0]) {
        1 + fire_count(true, nanos, trace.skip(1))
    } else {
        fire_count(fired, nanos, trace.skip(1))
    }
}

/// An event fires at most once, however often its pipeline is found past
/// the threshold, and never again once it has fired.
pub proof fn lemma_fires_once(fired: bool, nanos: u64, trace: Seq<Option<i64>>)
    ensures
        fire_count(fired, nanos, trace) <= 1,
        fired ==> fire_count(fired, nanos, trace) == 0,
    decreases trace.len(),
{
    if trace.len() > 0 {
        lemma_fires_once(true, nanos, trace.skip(1));
        lemma_fires_once(fired, nanos, trace.skip(1));
    }
}

/// An event that has not fired fires exactly once if its pipeline is found
/// past the threshold at least once, and not at all if it never is.
pub proof fn lemma_fires_when_crossed(nanos: u64, trace: Seq<Option<i64>>)
    ensures
        (exists|k: int| 0 <= k < trace.len() && crossed(#[trigger] trace[k], nanos))
            ==> fire_count(false, nanos, trace) == 1,
        (forall|k: int| 0 <= k < trace.len() ==> !crossed(#[trigger] trace[k], nanos))
            ==> fire_count(false, nanos, trace) == 0,
    decreases trace.len(),
{
    if trace.len() > 0 {
        let rest = trace.skip(1);
        lemma_fires_when_crossed(nanos, rest);
        lemma_fires_once(true, nanos, rest);
        if !crossed(trace[0], nanos) {
            if exists|k: int| 0 <= k < trace.len() && crossed(#[trigger] trace[k], nanos) {
                let k = choose|k: int| 0 <= k < trace.len() && crossed(#[trigger] trace[k], nanos);
                assert(crossed(rest[k - 1], nanos));
            }
            assert forall|k: int| 0 <= k < rest.len() && (forall|j: int|
                0 <= j < trace.len() ==> !crossed(#[trigger] trace[j], nanos)) implies !crossed(
                #[trigger] rest[k],
                nanos,
            ) by {
                assert(rest[k] == trace[k + 1]);
            }
        }
    }
}

/// A part whose pipeline is before the start time moves no window and
/// stays; one whose pipeline has reached the end time puts its window at
/// exactly the end coordinates and is done.
pub proof fn lemma_part_ends(part: MovingPartView, t: i64)
    ensures
        t < part.start ==> part_move(part, Some(t)) is None && !retires(part, Some(t)),
        t >= part.start && t >= part.end ==> retires(part, Some(t)) && part_move(part, Some(t))
            == Some(
            WindowMoveView {
                window: part.window,
                time: t,
                start: part.start,
                end: part.end,
                x: AxisTarget::At(part.end_x),
                y: AxisTarget::At(part.end_y),
            },
        ),
{
}

/// An eased window is at exactly its start coordinates at the start time
/// and at exactly its end coordinates at the end time; between the two it
/// is on the curve from the one to the other.
pub proof fn lemma_ease_boundaries(part: MovingPartView, t: i64)
    requires
        part.start < part.end,
        part.path_x == "mcos"@,
        part.path_y == "mcos"@,
    ensures
        part_move(part, Some(part.start)) matches Some(m) && m.x == AxisTarget::At(part.start_x)
            && m.y == AxisTarget::At(part.start_y),
        part_move(part, Some(part.end)) matches Some(m) && m.x == AxisTarget::At(part.end_x) && m.y
            == AxisTarget::At(part.end_y),
        part.start < t < part.end ==> (part_move(part, Some(t)) matches Some(m) && m.x == (
        AxisTarget::Ease { from: part.start_x, to: part.end_x }) && m.y == (AxisTarget::Ease {
            from: part.start_y,
            to: part.end_y,
        }) && m.time == t && m.start == part.start && m.end == part.end),
{
}

/// A part that is done is not among the parts that are left: as many parts
/// fall away as are done, and each part that is left was there before and
/// is not done.
pub proof fn lemma_survivors(parts: Seq<MovingPartView>, positions: Seq<Option<i64>>, n: int)
    requires
        0 <= n <= parts.len(),
    ensures
        survivors(parts, positions, n).len() <= n,
        forall|k: int|
            #![trigger survivors(parts, positions, n)[k]]
            0 <= k < survivors(parts, positions, n).len() ==> exists|j: int|
                0 <= j < n && #[trigger] parts[j] == survivors(parts, positions, n)[k] && !retires(
                    parts[j],
                    position_of(positions, j),
                ),
    decreases n,
{
    if n > 0 {
        lemma_survivors(parts, positions, n - 1);
        let before = survivors(parts, positions, n - 1);
        let now = survivors(parts, positions, n);
        assert forall|k: int| 0 <= k < now.len() implies exists|j: int|
            0 <= j < n && #[trigger] parts[j] == #[trigger] now[k] && !retires(
                parts[j],
                position_of(positions, j),
            ) by {
            if k < before.len() {
                assert(now[k] == before[k]);
                let j = choose|j: int|
                    0 <= j < n - 1 && #[trigger] parts[j] == before[k] && !retires(
                        parts[j],
                        position_of(positions, j),
                    );
                assert(parts[j] == now[k]);
            } else {
                assert(parts[n - 1] == now[k]);
            }
        }
    }
}

/// The state of the scheduler: the pattern it runs, the windows of the
/// pattern's pipelines, which time events have fired, and the windows that
/// are moving.
pub struct Scheduler {
    pub pattern: Pattern,
    pub windows: Vec<WindowSpec>,
    pub fired: Vec<bool>,
    pub parts: Vec<MovingPart>,
}

/// What a `Scheduler` is in contracts: the views of its parts.
pub struct SchedulerView {
    pub pattern: PatternView,
    pub windows: Seq<WindowSpecView>,
    pub fired: Seq<bool>,
    pub parts: Seq<MovingPartView>,
}

impl View for Scheduler {
    type V = SchedulerView;

    open spec fn view(&self) -> SchedulerView {
        SchedulerView {
            pattern: self.pattern@,
            windows: views(self.windows@),
            fired: self.fired@,
            parts: views(self.parts@),
        }
    }
}

/// Whether the state holds one mark for each time event of its pattern.
pub open spec fn well_formed(s: SchedulerView) -> bool {
    s.fired.len() == s.pattern.time_events.len()
}

/// The state after the message `msg`: a move adds its part at the end, and
/// nothing else changes anything.
pub open spec fn after_message(s: SchedulerView, msg: Seq<char>) -> SchedulerView {
    match message(s.pattern.pipes, s.windows, msg) {
        Ok(CommandView::Move(part)) => SchedulerView { parts: s.parts.push(part), ..s },
        _ => s,
    }
}

/// Whether time event `i` fires when its pipeline is found at `position`.
pub open spec fn event_fires(s: SchedulerView, i: int, position: Option<i64>) -> bool {
    0 <= i < s.fired.len() && i < s.pattern.time_events.len() && fires(
        s.fired[i],
        s.pattern.time_events[i].nanos,
        position,
    )
}

/// The state after time event `i` found its pipeline at `position`.
pub open spec fn after_observation(s: SchedulerView, i: int, position: Option<i64>) -> SchedulerView {
    if event_fires(s, i, position) {
        SchedulerView { fired: s.fired.update(i, true), ..s }
    } else {
        s
    }
}

/// Whatever the scheduler takes in, it keeps one mark for each time event.
pub proof fn lemma_well_formed_kept(
    s: SchedulerView,
    msg: Seq<char>,
    i: int,
    position: Option<i64>,
    positions: Seq<Option<i64>>,
)
    requires
        well_formed(s),
    ensures
        well_formed(after_message(s, msg)),
        well_formed(after_observation(s, i, position)),
        well_formed(SchedulerView { parts: survivors(s.parts, positions, s.parts.len() as int), ..s }),
{
}

/// Once time event `i` has fired, it fires at no position, and the state
/// stays as it is.
pub proof fn lemma_fired_stays(s: SchedulerView, i: int, first: Option<i64>, then: Option<i64>)
    requires
        event_fires(s, i, first),
    ensures
        !event_fires(after_observation(s, i, first), i, then),
        after_observation(after_observation(s, i, first), i, then) == after_observation(
            s,
            i,
            first,
        ),
{
}

impl MovingPart {
    /// The same part once more.
    pub fn duplicate(&self) -> (p: MovingPart)
        ensures
            p@ == self@,
    {
        MovingPart {
            pipeline: self.pipeline.clone(),
            window: self.window.clone(),
            start: self.start,
            end: self.end,
            start_x: self.start_x,
            end_x: self.end_x,
            start_y: self.start_y,
            end_y: self.end_y,
            path_x: self.path_x.clone(),
            path_y: self.path_y.clone(),
        }
    }

    /// The move that this part asks for when its pipeline is at `position`,
    /// and whether the part is done.
    pub fn step(&self, position: Option<i64>) -> (r: (Option<WindowMove>, bool))
        ensures
            match r.0 {
                Some(m) => part_move(self@, position) == Some(m@),
                None => part_move(self@, position) is None,
            },
            r.1 == retires(self@, position),
    {
        match position {
            None => (None, false),
            Some(t) => {
                if t < self.start {
                    (None, false)
                } else if t >= self.end {
                    (
                        Some(
                            WindowMove {
                                window: self.window.clone(),
                                time: t,
                                start: self.start,
                                end: self.end,
                                x: AxisTarget::At(self.end_x),
                                y: AxisTarget::At(self.end_y),
                            },
                        ),
                        true,
                    )
                } else {
                    let x = if same(self.path_x.as_str(), "mcos") {
                        if t == self.start {
                            AxisTarget::At(self.start_x)
                        } else {
                            AxisTarget::Ease { from: self.start_x, to: self.end_x }
                        }
                    } else {
                        AxisTarget::At(self.end_x)
                    };
                    let y = if same(self.path_y.as_str(), "mcos") {
                        if t == self.start {
                            AxisTarget::At(self.start_y)
                        } else {
                            AxisTarget::Ease { from: self.start_y, to: self.end_y }
                        }
                    } else {
                        AxisTarget::At(self.end_y)
                    };
                    (
                        Some(
                            WindowMove {
                                window: self.window.clone(),
                                time: t,
                                start: self.start,
                                end: self.end,
                                x,
                                y,
                            },
                        ),
                        false,
                    )
                }
            },
        }
    }
}

impl Scheduler {
    /// The scheduler for `pattern`, before the first tick: no event has
    /// fired, and no window is moving.
    pub fn new(pattern: Pattern) -> (s: Scheduler)
        ensures
            s@ == (SchedulerView {
                pattern: pattern@,
                windows: window_specs(pattern@.pipes),
                fired: Seq::new(pattern@.time_events.len(), |i: int| false),
                parts: Seq::empty(),
            }),
            well_formed(s@),
            s.pattern == pattern,
    {
        let windows = windows_for(&pattern.pipes);
        let mut fired: Vec<bool> = Vec::new();
        while fired.len() < pattern.time_events.len()
            invariant
                fired.len() <= pattern.time_events.len(),
                forall|k: int| 0 <= k < fired.len() ==> !fired@[k],
            decreases pattern.time_events.len() - fired.len(),
        {
            fired.push(false);
        }
        let s = Scheduler { pattern, windows, fired, parts: Vec::new() };
        proof {
            assert(s@.fired =~= Seq::new(pattern@.time_events.len(), |i: int| false));
            assert(s@.parts =~= Seq::empty());
        }
        s
    }

    /// Takes in one message: a move adds its part to the moving windows.
    /// What else the message asks for is handed back for the caller to do.
    pub fn handle(&mut self, msg: &str) -> (r: ParseResult<Command>)
        ensures
            outcome(r) == message(old(self)@.pattern.pipes, old(self)@.windows, msg@),
            final(self)@ == after_message(old(self)@, msg@),
            final(self).pattern == old(self).pattern,
    {
        let r = handle_message(&self.pattern, &self.windows, msg);
        match &r {
            Ok(Command::Move(part)) => {
                let ghost before = views(self.parts@);
                self.parts.push(part.duplicate());
                assert(views(self.parts@) =~= before.push(part@));
            },
            _ => {},
        }
        r
    }

    /// Takes the next message off the command channel, if one is waiting,
    /// and takes it in. Hands back the message with what it asks for.
    /// Without a channel there is never a message.
    pub fn receive(&mut self) -> (r: Option<(String, ParseResult<Command>)>)
        ensures
            old(self).pattern.listen is None ==> r is None,
            final(self).pattern == old(self).pattern,
            match r {
                None => final(self)@ == old(self)@,
                Some((msg, c)) => outcome(c) == message(
                    old(self)@.pattern.pipes,
                    old(self)@.windows,
                    msg@,
                ) && final(self)@ == after_message(old(self)@, msg@),
            },
    {
        let msg = match &self.pattern.listen {
            None => None,
            Some(rx) => rx.try_recv(),
        };
        match msg {
            None => None,
            Some(msg) => {
                let c = self.handle(msg.as_str());
                Some((msg, c))
            },
        }
    }

    /// Whether time event `i` has yet to fire.
    pub fn is_pending(&self, i: usize) -> (b: bool)
        ensures
            b == (i < self@.fired.len() && i < self@.pattern.time_events.len() && !self@.fired[i as int]),
    {
        i < self.fired.len() && i < self.pattern.time_events.len() && !self.fired[i]
    }

    /// Tells the scheduler where the pipeline of time event `i` is. Returns
    /// whether the event fires: its actions are then to be run, now and
    /// never again.
    pub fn observe(&mut self, i: usize, position: Option<i64>) -> (fire: bool)
        ensures
            fire == event_fires(old(self)@, i as int, position),
            final(self)@ == after_observation(old(self)@, i as int, position),
            final(self).pattern == old(self).pattern,
    {
        if i >= self.fired.len() || i >= self.pattern.time_events.len() || self.fired[i] {
            return false;
        }
        match position {
            None => false,
            Some(t) => {
                let nanos = self.pattern.time_events[i].nanos;
                if t >= 0 && t as u64 > nanos {
                    self.fired.set(i, true);
                    true
                } else {
                    false
                }
            },
        }
    }

    /// One pass over the moving windows. `positions` holds for each part, in
    /// order, where its pipeline is, if that is known. Returns the moves to
    /// carry out, in order; the parts that are done are gone afterwards, and
    /// the others keep their order.
    pub fn advance(&mut self, positions: &[Option<i64>]) -> (out: Vec<WindowMove>)
        ensures
            views(out@) == moves(old(self)@.parts, positions@, old(self)@.parts.len() as int),
            final(self)@ == (SchedulerView {
                parts: survivors(old(self)@.parts, positions@, old(self)@.parts.len() as int),
                ..old(self)@
            }),
            final(self).pattern == old(self).pattern,
    {
        let mut out: Vec<WindowMove> = Vec::new();
        let mut left: Vec<MovingPart> = Vec::new();
        let ghost parts = views(self.parts@);
        let mut i: usize = 0;
        proof {
            assert(views(out@) =~= moves(parts, positions@, 0));
            assert(views(left@) =~= survivors(parts, positions@, 0));
        }
        while i < self.parts.len()
            invariant
                i <= self.parts.len(),
                *self == *old(self),
                parts == views(self.parts@),
                views(out@) == moves(parts, positions@, i as int),
                views(left@) == survivors(parts, positions@, i as int),
            decreases self.parts.len() - i,
        {
            let position = if i < positions.len() {
                positions[i]
            } else {
                None
            };
            let (m, done) = self.parts[i].step(position);
            let ghost out_before = views(out@);
            let ghost left_before = views(left@);
            match m {
                Some(m) => {
                    out.push(m);
                    assert(views(out@) =~= out_before.push(m@));
                },
                None => {},
            }
            if !done {
                let p = self.parts[i].duplicate();
                left.push(p);
                assert(views(left@) =~= left_before.push(p@));
            }
            i += 1;
        }
        self.parts = left;
        out
    }
}

} // verus!
