//! What a script can make happen: the actions, and what each of them asks of
//! the media engine or of the scheduler when it runs.

use vstd::prelude::*;
use vstd::string::*;
use crate::channel::CommandSender;
use crate::error::{ParseError, ParseResult, annotated, outcome, views};
use crate::number::{i32_text, is_float, is_float_text, parse_i32, parse_scaled, scaled_text};
use crate::script::Pattern;
use crate::table::has_name;
use crate::text::{LineCursor, join, joined, same, split_whitespace, texts, words};

verus! {

/// The state that a play action puts a pipeline into.
#[derive(Clone, Copy, Debug, PartialEq, Eq, Structural)]
pub enum PlayState {
    Start,
    Pause,
    Ready,
    Stop,
}

/// One of the four orientations that a property can be set to.
#[derive(Clone, Copy, Debug, PartialEq, Eq, Structural)]
pub enum Orientation {
    Identity,
    QuarterRight,
    Half,
    QuarterLeft,
}

/// A property value, read from text as its type tag says. A float is kept as
/// the text that was found to write one.
#[derive(Debug)]
pub enum PropertyValue {
    Int(i32),
    Float(String),
    Text(String),
    Turn(Orientation),
}

/// What a `PropertyValue` is in contracts: its text as a sequence of characters.
pub enum PropertyValueView {
    Int(i32),
    Float(Seq<char>),
    Text(Seq<char>),
    Turn(Orientation),
}

impl View for PropertyValue {
    type V = PropertyValueView;

    open spec fn view(&self) -> PropertyValueView {
        match self {
            PropertyValue::Int(i) => PropertyValueView::Int(*i),
            PropertyValue::Float(s) => PropertyValueView::Float(s@),
            PropertyValue::Text(s) => PropertyValueView::Text(s@),
            PropertyValue::Turn(o) => PropertyValueView::Turn(*o),
        }
    }
}

/// A request to set one property of one element of one pipeline.
#[derive(Debug)]
pub struct PropertySet {
    pub pipe: String,
    pub element: String,
    pub prop: String,
    pub value: PropertyValue,
}

/// What a `PropertySet` is in contracts: its texts as sequences of characters.
pub struct PropertySetView {
    pub pipe: Seq<char>,
    pub element: Seq<char>,
    pub prop: Seq<char>,
    pub value: PropertyValueView,
}

impl View for PropertySet {
    type V = PropertySetView;

    open spec fn view(&self) -> PropertySetView {
        PropertySetView {
            pipe: self.pipe@,
            element: self.element@,
            prop: self.prop@,
            value: self.value@,
        }
    }
}

/// The orientation that the index `v` stands for.
pub open spec fn orientation_text(v: Seq<char>) -> Option<Orientation> {
    if v == "0"@ {
        Some(Orientation::Identity)
    } else if v == "1"@ {
        Some(Orientation::QuarterRight)
    } else if v == "2"@ {
        Some(Orientation::Half)
    } else if v == "3"@ {
        Some(Orientation::QuarterLeft)
    } else {
        None
    }
}

/// The value that the text `v` gives under the type tag `type_`, or the
/// message that says why it gives none.
pub open spec fn property_value(type_: Seq<char>, v: Seq<char>) -> Result<
    PropertyValueView,
    Seq<char>,
> {
    if type_ == "int"@ {
        match i32_text(v) {
            Some(i) => Ok(PropertyValueView::Int(i)),
            None => Err("Unable to parse "@ + v + " as "@ + type_),
        }
    } else if type_ == "float"@ {
        if is_float(v) {
            Ok(PropertyValueView::Float(v))
        } else {
            Err("Unable to parse "@ + v + " as "@ + type_)
        }
    } else if type_ == "string"@ {
        Ok(PropertyValueView::Text(v))
    } else if type_ == "GstOrientation"@ {
        match orientation_text(v) {
            Some(o) => Ok(PropertyValueView::Turn(o)),
            None => Err("Unknown GstOrientation index: "@ + v),
        }
    } else {
        Err("Unknown parameter type: "@ + type_)
    }
}

/// The request that `set_property` makes of its arguments.
pub open spec fn property_set(
    pipe: Seq<char>,
    element: Seq<char>,
    prop: Seq<char>,
    type_: Seq<char>,
    v: Seq<char>,
) -> Result<PropertySetView, Seq<char>> {
    match property_value(type_, v) {
        Ok(value) => Ok(PropertySetView { pipe, element, prop, value }),
        Err(e) => Err(e),
    }
}

/// The error for a value that its type tag does not accept.
fn unparsable(value: &str, type_: &str) -> (e: ParseError)
    ensures
        e@ == "Unable to parse "@ + value@ + " as "@ + type_@,
{
    let mut m = "Unable to parse ".to_owned();
    m.append(value);
    m.append(" as ");
    m.append(type_);
    ParseError::report_string(m)
}

/// Reads `value` as the type tag says.
pub fn typed_value(type_: &str, value: String) -> (r: ParseResult<PropertyValue>)
    ensures
        outcome(r) == property_value(type_@, value@),
{
    if same(type_, "int") {
        match parse_i32(value.as_str()) {
            Some(i) => Ok(PropertyValue::Int(i)),
            None => Err(unparsable(value.as_str(), type_)),
        }
    } else if same(type_, "float") {
        if is_float_text(value.as_str()) {
            Ok(PropertyValue::Float(value))
        } else {
            Err(unparsable(value.as_str(), type_))
        }
    } else if same(type_, "string") {
        Ok(PropertyValue::Text(value))
    } else if same(type_, "GstOrientation") {
        let v = value.as_str();
        if same(v, "0") {
            Ok(PropertyValue::Turn(Orientation::Identity))
        } else if same(v, "1") {
            Ok(PropertyValue::Turn(Orientation::QuarterRight))
        } else if same(v, "2") {
            Ok(PropertyValue::Turn(Orientation::Half))
        } else if same(v, "3") {
            Ok(PropertyValue::Turn(Orientation::QuarterLeft))
        } else {
            Err(ParseError::report_with("Unknown GstOrientation index: ", v))
        }
    } else {
        Err(ParseError::report_with("Unknown parameter type: ", type_))
    }
}

/// The one place where text becomes a typed property value: the request to
/// set `prop` of `element` in `pipe` to `value`, read as `type_` says.
pub fn set_property(pipe: String, element: String, prop: String, type_: String, value: String) -> (r:
    ParseResult<PropertySet>)
    ensures
        outcome(r) == property_set(pipe@, element@, prop@, type_@, value@),
{
    match typed_value(type_.as_str(), value) {
        Ok(value) => Ok(PropertySet { pipe, element, prop, value }),
        Err(e) => Err(e),
    }
}

/// A command for a window, sent as one line of text to the scheduler.
pub struct WindowAction {
    pub window: String,
    pub action: String,
    pub settings: Vec<String>,
    pub chan: CommandSender,
}

/// A change of a pipeline's state.
#[derive(Debug)]
pub struct PlayAction {
    pub pipeline: String,
    pub action: PlayState,
}

/// A seek of a pipeline to a position, in nanoseconds, at a playback rate,
/// which is kept as the text that was found to write a float.
#[derive(Debug)]
pub struct SeekAction {
    pub pipeline: String,
    pub rate: String,
    pub position: u64,
}

/// The setting of a property of an element of a pipeline, with the value
/// still as text: it is read when the action runs.
#[derive(Debug)]
pub struct SetPropAction {
    pub pipeline: String,
    pub element: String,
    pub prop: String,
    pub type_: String,
    pub setting: String,
}

/// An action of any of the four kinds.
pub enum Action {
    Window(WindowAction),
    Play(PlayAction),
    Seek(SeekAction),
    SetProp(SetPropAction),
}

/// What an action of any kind is in contracts: all of it but the channel of
/// a window action.
pub enum ActionView {
    Window { window: Seq<char>, action: Seq<char>, settings: Seq<Seq<char>> },
    Play { pipeline: Seq<char>, state: PlayState },
    Seek { pipeline: Seq<char>, rate: Seq<char>, position: u64 },
    SetProp {
        pipeline: Seq<char>,
        element: Seq<char>,
        prop: Seq<char>,
        type_: Seq<char>,
        setting: Seq<char>,
    },
}

impl View for WindowAction {
    type V = ActionView;

    open spec fn view(&self) -> ActionView {
        ActionView::Window {
            window: self.window@,
            action: self.action@,
            settings: texts(self.settings@),
        }
    }
}

impl View for PlayAction {
    type V = ActionView;

    open spec fn view(&self) -> ActionView {
        ActionView::Play { pipeline: self.pipeline@, state: self.action }
    }
}

impl View for SeekAction {
    type V = ActionView;

    open spec fn view(&self) -> ActionView {
        ActionView::Seek { pipeline: self.pipeline@, rate: self.rate@, position: self.position }
    }
}

impl View for SetPropAction {
    type V = ActionView;

    open spec fn view(&self) -> ActionView {
        ActionView::SetProp {
            pipeline: self.pipeline@,
            element: self.element@,
            prop: self.prop@,
            type_: self.type_@,
            setting: self.setting@,
        }
    }
}

impl View for Action {
    type V = ActionView;

    open spec fn view(&self) -> ActionView {
        match self {
            Action::Window(a) => a@,
            Action::Play(a) => a@,
            Action::Seek(a) => a@,
            Action::SetProp(a) => a@,
        }
    }
}

/// What running an action comes to: a line went onto the command channel or
/// could not, or there is a request for the media engine, or the action
/// could not be carried out and says why.
#[derive(Debug)]
pub enum Effect {
    Sent,
    Undelivered,
    SetState { pipe: String, state: PlayState },
    Seek { pipe: String, rate: String, position: u64 },
    SetProperty(PropertySet),
    Rejected(ParseError),
}

/// What an `Effect` is in contracts: its texts as sequences of characters, and
/// of an error its message.
pub enum EffectView {
    Sent,
    Undelivered,
    SetState { pipe: Seq<char>, state: PlayState },
    Seek { pipe: Seq<char>, rate: Seq<char>, position: u64 },
    SetProperty(PropertySetView),
    Rejected(Seq<char>),
}

impl View for Effect {
    type V = EffectView;

    open spec fn view(&self) -> EffectView {
        match self {
            Effect::Sent => EffectView::Sent,
            Effect::Undelivered => EffectView::Undelivered,
            Effect::SetState { pipe, state } => EffectView::SetState { pipe: pipe@, state: *state },
            Effect::Seek { pipe, rate, position } => EffectView::Seek {
                pipe: pipe@,
                rate: rate@,
                position: *position,
            },
            Effect::SetProperty(p) => EffectView::SetProperty(p@),
            Effect::Rejected(e) => EffectView::Rejected(e@),
        }
    }
}

/// The line that a window action sends: the window, the verb and the
/// arguments, with one space between each two.
pub open spec fn command_line(window: Seq<char>, action: Seq<char>, settings: Seq<Seq<char>>) -> Seq<
    char,
> {
    joined(seq![window, action] + settings)
}

/// Whether the action `a`, if it is a window action, sends on the channel
/// with the mark `channel`.
pub open spec fn sends_on(a: Action, channel: int) -> bool {
    a matches Action::Window(w) ==> w.chan.channel() == channel
}

/// Whether every window action among `actions` sends on the channel with
/// the mark `channel`.
pub open spec fn all_send_on(actions: Seq<Action>, channel: int) -> bool {
    forall|i: int| 0 <= i < actions.len() ==> sends_on(#[trigger] actions[i], channel)
}

/// What a window action comes to once the channel has said whether it took
/// the line.
pub open spec fn delivery(sent: bool) -> EffectView {
    if sent {
        EffectView::Sent
    } else {
        EffectView::Undelivered
    }
}

/// Whether running the action `a` may come to `e`. A window action is sent
/// or not, as the channel decides; every other action comes to one effect.
pub open spec fn allowed(a: ActionView, e: EffectView) -> bool {
    match a {
        ActionView::Window { .. } => e is Sent || e is Undelivered,
        ActionView::Play { pipeline, state } => e == (EffectView::SetState { pipe: pipeline, state }),
        ActionView::Seek { pipeline, rate, position } => e == (EffectView::Seek {
            pipe: pipeline,
            rate,
            position,
        }),
        ActionView::SetProp { pipeline, element, prop, type_, setting } => match property_set(
            pipeline,
            element,
            prop,
            type_,
            setting,
        ) {
            Ok(p) => e == EffectView::SetProperty(p),
            Err(m) => e == EffectView::Rejected(annotated("set_property"@, m)),
        },
    }
}

/// Something that can be run, any number of times.
pub trait EventAction {
    /// Whether running this may come to `e`.
    spec fn may_yield(&self, e: EffectView) -> bool;

    /// Runs the action.
    fn exec(&self) -> (e: Effect)
        ensures
            self.may_yield(e@),
    ;
}

impl Effect {
    /// What a window action comes to once the channel has said whether it
    /// took the line.
    pub fn delivered(sent: bool) -> (e: Effect)
        ensures
            e@ == delivery(sent),
    {
        if sent {
            Effect::Sent
        } else {
            Effect::Undelivered
        }
    }
}

impl WindowAction {
    /// A command `action` for `window` with the arguments `settings`, to be
    /// sent through `chan`.
    pub fn new(window: String, action: String, settings: Vec<String>, chan: CommandSender) -> (a:
        WindowAction)
        ensures
            a@ == (ActionView::Window {
                window: window@,
                action: action@,
                settings: texts(settings@),
            }),
            a.chan == chan,
    {
        WindowAction { window, action, settings, chan }
    }

    /// The line that this action sends.
    pub fn line(&self) -> (s: String)
        ensures
            s@ == command_line(self.window@, self.action@, texts(self.settings@)),
    {
        let mut parts: Vec<String> = Vec::new();
        parts.push(self.window.clone());
        parts.push(self.action.clone());
        let mut i: usize = 0;
        while i < self.settings.len()
            invariant
                i <= self.settings.len(),
                texts(parts@) == seq![self.window@, self.action@] + texts(self.settings@).take(
                    i as int,
                ),
            decreases self.settings.len() - i,
        {
            let ghost before = texts(parts@);
            parts.push(self.settings[i].clone());
            proof {
                assert(texts(parts@) =~= before.push(self.settings@[i as int]@));
                assert(texts(self.settings@).take(i + 1) =~= texts(self.settings@).take(
                    i as int,
                ).push(self.settings@[i as int]@));
            }
            i += 1;
        }
        proof {
            assert(texts(self.settings@).take(i as int) =~= texts(self.settings@));
            assert(texts(parts@).skip(0) =~= texts(parts@));
        }
        join(parts.as_slice(), 0)
    }
}

impl EventAction for WindowAction {
    open spec fn may_yield(&self, e: EffectView) -> bool {
        allowed(self@, e)
    }

    /// Sends the line of this action through its channel. Whether the
    /// channel takes it is for the channel to say.
    fn exec(&self) -> (e: Effect) {
        Effect::delivered(self.chan.send(self.line()))
    }
}

impl EventAction for PlayAction {
    open spec fn may_yield(&self, e: EffectView) -> bool {
        allowed(self@, e)
    }

    /// Asks for the state change.
    fn exec(&self) -> (e: Effect) {
        Effect::SetState { pipe: self.pipeline.clone(), state: self.action }
    }
}

impl EventAction for SeekAction {
    open spec fn may_yield(&self, e: EffectView) -> bool {
        allowed(self@, e)
    }

    /// Asks for the seek.
    fn exec(&self) -> (e: Effect) {
        Effect::Seek { pipe: self.pipeline.clone(), rate: self.rate.clone(), position: self.position }
    }
}

impl EventAction for SetPropAction {
    open spec fn may_yield(&self, e: EffectView) -> bool {
        allowed(self@, e)
    }

    /// Reads the value as its type tag says and asks for the property to be
    /// set; a value that cannot be read so is reported.
    fn exec(&self) -> (e: Effect) {
        match set_property(
            self.pipeline.clone(),
            self.element.clone(),
            self.prop.clone(),
            self.type_.clone(),
            self.setting.clone(),
        ) {
            Ok(p) => Effect::SetProperty(p),
            Err(err) => Effect::Rejected(err.annotate("set_property")),
        }
    }
}

impl EventAction for Action {
    open spec fn may_yield(&self, e: EffectView) -> bool {
        allowed(self@, e)
    }

    /// Runs the action, whatever its kind.
    fn exec(&self) -> (e: Effect) {
        match self {
            Action::Window(a) => a.exec(),
            Action::Play(a) => a.exec(),
            Action::Seek(a) => a.exec(),
            Action::SetProp(a) => a.exec(),
        }
    }
}

/// The state that the word `s` names.
pub open spec fn play_state_text(s: Seq<char>) -> Option<PlayState> {
    if s == "start"@ {
        Some(PlayState::Start)
    } else if s == "pause"@ {
        Some(PlayState::Pause)
    } else if s == "ready"@ {
        Some(PlayState::Ready)
    } else if s == "stop"@ {
        Some(PlayState::Stop)
    } else {
        None
    }
}

/// The action that the words `args` describe: `act`, a pipeline of `pipes`,
/// a verb and what the verb takes. The time and the rate of a seek are
/// floats; the time is in thousandths of a second and is read exactly.
pub open spec fn single_event<T>(pipes: Seq<(Seq<char>, T)>, args: Seq<Seq<char>>) -> Result<
    ActionView,
    Seq<char>,
> {
    if args.len() == 0 {
        Err("Missing event header"@)
    } else if args[0] != "act"@ {
        Err("Unknown event header: "@ + args[0])
    } else if args.len() < 3 {
        Err("Missing argument in event: "@ + joined(args))
    } else if !has_name(pipes, args[1]) {
        Err("Unknown pipeline: "@ + args[1])
    } else if args[2] == "prop"@ {
        if args.len() < 6 {
            Err("Missing argument in event: "@ + joined(args))
        } else {
            Ok(
                ActionView::SetProp {
                    pipeline: args[1],
                    element: args[3],
                    prop: args[4],
                    type_: args[5],
                    setting: joined(args.skip(6)),
                },
            )
        }
    } else if args[2] == "play"@ {
        if args.len() < 4 {
            Err("Missing argument in event: "@ + joined(args))
        } else {
            match play_state_text(args[3]) {
                Some(state) => Ok(ActionView::Play { pipeline: args[1], state }),
                None => Err("Unknown pipeline state: "@ + args[3]),
            }
        }
    } else if args[2] == "seek"@ {
        if args.len() < 5 {
            Err("Missing argument in event: "@ + joined(args))
        } else {
            match scaled_text(args[3], 6) {
                None => Err("Could not parse as float: "@ + args[3]),
                Some(time) => if is_float(args[4]) {
                    Ok(
                        ActionView::Seek {
                            pipeline: args[1],
                            rate: args[4],
                            position: time.unsigned_value(),
                        },
                    )
                } else {
                    Err("Could not parse as float: "@ + args[4])
                },
            }
        }
    } else if args[2] == "window"@ {
        if args.len() < 4 {
            Err("Missing argument in event: "@ + joined(args))
        } else {
            Ok(ActionView::Window { window: args[1], action: args[3], settings: args.skip(4) })
        }
    } else {
        Err("Unknown event type: "@ + args[2])
    }
}

/// The actions of a block, read one per line from line `pos` on, up to the
/// line whose first word is `parw`. The result is the actions and the index
/// of the line after that one.
pub open spec fn wrap_block<T>(
    pipes: Seq<(Seq<char>, T)>,
    lines: Seq<Seq<char>>,
    pos: int,
    actions: Seq<ActionView>,
) -> Result<(Seq<ActionView>, int), Seq<char>>
    decreases lines.len() - pos,
{
    if pos < 0 || pos >= lines.len() {
        Err("Iterator ended before closing the action block"@)
    } else {
        let w = words(lines[pos]);
        if w.len() > 0 && w[0] == "parw"@ {
            Ok((actions, pos + 1))
        } else {
            match single_event(pipes, w) {
                Err(e) => Err(annotated("wrap"@, e)),
                Ok(a) => wrap_block(pipes, lines, pos + 1, actions.push(a)),
            }
        }
    }
}

/// The index of the first line that the reading of a block from line `pos`
/// on leaves unread: the line after the closing one, the line after the
/// first that is no action, or where the lines end.
pub open spec fn block_stop<T>(pipes: Seq<(Seq<char>, T)>, lines: Seq<Seq<char>>, pos: int) -> int
    decreases lines.len() - pos,
{
    if pos < 0 || pos >= lines.len() {
        pos
    } else {
        let w = words(lines[pos]);
        if (w.len() > 0 && w[0] == "parw"@) || single_event(pipes, w) is Err {
            pos + 1
        } else {
            block_stop(pipes, lines, pos + 1)
        }
    }
}

/// The index of the first line that the reading of a list of actions
/// leaves unread: only a block reads lines.
pub open spec fn leading_stop<T>(
    pipes: Seq<(Seq<char>, T)>,
    args: Seq<Seq<char>>,
    lines: Seq<Seq<char>>,
    pos: int,
) -> int {
    if args.len() > 0 && args[0] != "terminate"@ && args[0] != "act"@ && args[0] == "wrap"@ {
        block_stop(pipes, lines, pos)
    } else {
        pos
    }
}

/// The list of actions that the words `args` begin: `terminate`, one action
/// after `act`, or after `wrap` the block that the lines from `pos` on hold.
/// The result is the actions and the index of the first line not read.
pub open spec fn leading_event<T>(
    pipes: Seq<(Seq<char>, T)>,
    args: Seq<Seq<char>>,
    lines: Seq<Seq<char>>,
    pos: int,
) -> Result<(Seq<ActionView>, int), Seq<char>> {
    if args.len() == 0 {
        Err("Missing condition"@)
    } else if args[0] == "terminate"@ {
        Ok(
            (
                seq![
                    ActionView::Window {
                        window: Seq::empty(),
                        action: "terminate"@,
                        settings: Seq::empty(),
                    },
                ],
                pos,
            ),
        )
    } else if args[0] == "act"@ {
        match single_event(pipes, args) {
            Ok(a) => Ok((seq![a], pos)),
            Err(e) => Err(annotated("act"@, e)),
        }
    } else if args[0] == "wrap"@ {
        wrap_block(pipes, lines, pos, Seq::empty())
    } else {
        Err("Unknown condition: "@ + args[0])
    }
}

/// The error for an event that lacks a word.
fn incomplete(args: &[String]) -> (e: ParseError)
    ensures
        e@ == "Missing argument in event: "@ + joined(texts(args@)),
{
    proof {
        assert(texts(args@).skip(0) =~= texts(args@));
    }
    ParseError::report_with("Missing argument in event: ", join(args, 0).as_str())
}

/// The words of `args` from index `from` on, each copied.
fn rest(args: &[String], from: usize) -> (v: Vec<String>)
    requires
        from <= args@.len(),
    ensures
        texts(v@) == texts(args@).skip(from as int),
{
    let mut v: Vec<String> = Vec::new();
    let mut i: usize = from;
    while i < args.len()
        invariant
            from <= i <= args@.len(),
            texts(v@) == texts(args@).subrange(from as int, i as int),
        decreases args@.len() - i,
    {
        let ghost before = texts(v@);
        v.push(args[i].clone());
        proof {
            assert(texts(v@) =~= before.push(args@[i as int]@));
            assert(texts(args@).subrange(from as int, i + 1) =~= before.push(args@[i as int]@));
        }
        i += 1;
    }
    proof {
        assert(texts(args@).subrange(from as int, i as int) =~= texts(args@).skip(from as int));
    }
    v
}

/// Reads one action from the words of a line.
pub fn parse_single_event(pattern: &Pattern, chan: &CommandSender, args: &[String]) -> (r:
    ParseResult<Action>)
    ensures
        outcome(r) == single_event(pattern.pipes@, texts(args@)),
        r matches Ok(a) ==> sends_on(a, chan.channel()),
{
    if args.len() == 0 {
        return Err(ParseError::report("Missing event header"));
    }
    if !same(args[0].as_str(), "act") {
        return Err(ParseError::report_with("Unknown event header: ", args[0].as_str()));
    }
    if args.len() < 3 {
        return Err(incomplete(args));
    }
    if !pattern.pipes.contains_key(args[1].as_str()) {
        return Err(ParseError::report_with("Unknown pipeline: ", args[1].as_str()));
    }
    let verb = args[2].as_str();
    if same(verb, "prop") {
        if args.len() < 6 {
            return Err(incomplete(args));
        }
        Ok(
            Action::SetProp(
                SetPropAction {
                    pipeline: args[1].clone(),
                    element: args[3].clone(),
                    prop: args[4].clone(),
                    type_: args[5].clone(),
                    setting: join(args, 6),
                },
            ),
        )
    } else if same(verb, "play") {
        if args.len() < 4 {
            return Err(incomplete(args));
        }
        let word = args[3].as_str();
        let state = if same(word, "start") {
            PlayState::Start
        } else if same(word, "pause") {
            PlayState::Pause
        } else if same(word, "ready") {
            PlayState::Ready
        } else if same(word, "stop") {
            PlayState::Stop
        } else {
            return Err(ParseError::report_with("Unknown pipeline state: ", word));
        };
        Ok(Action::Play(PlayAction { pipeline: args[1].clone(), action: state }))
    } else if same(verb, "seek") {
        if args.len() < 5 {
            return Err(incomplete(args));
        }
        let time = match parse_scaled(args[3].as_str(), 6) {
            Some(t) => t,
            None => {
                return Err(ParseError::report_with("Could not parse as float: ", args[3].as_str()));
            },
        };
        if !is_float_text(args[4].as_str()) {
            return Err(ParseError::report_with("Could not parse as float: ", args[4].as_str()));
        }
        Ok(
            Action::Seek(
                SeekAction {
                    pipeline: args[1].clone(),
                    rate: args[4].clone(),
                    position: time.unsigned(),
                },
            ),
        )
    } else if same(verb, "window") {
        if args.len() < 4 {
            return Err(incomplete(args));
        }
        Ok(
            Action::Window(
                WindowAction::new(args[1].clone(), args[3].clone(), rest(args, 4), chan.another()),
            ),
        )
    } else {
        Err(ParseError::report_with("Unknown event type: ", verb))
    }
}

/// Reads a list of actions: what `args` begins, and for a block the lines
/// at the cursor. Afterwards the cursor stands after the last line that was
/// read: the closing line of the block, or the line that was refused.
#[verifier::loop_isolation(false)]
pub fn parse_leading_event(
    pattern: &Pattern,
    chan: &CommandSender,
    args: &[String],
    cursor: &mut LineCursor,
) -> (r: ParseResult<Vec<Action>>)
    ensures
        final(cursor).lines == old(cursor).lines,
        match r {
            Ok(v) => leading_event(
                pattern.pipes@,
                texts(args@),
                texts(old(cursor).lines@),
                old(cursor).pos as int,
            ) == Ok::<(Seq<ActionView>, int), Seq<char>>((views(v@), final(cursor).pos as int)),
            Err(e) => leading_event(
                pattern.pipes@,
                texts(args@),
                texts(old(cursor).lines@),
                old(cursor).pos as int,
            ) == Err::<(Seq<ActionView>, int), Seq<char>>(e@),
        },
        final(cursor).pos == leading_stop(
            pattern.pipes@,
            texts(args@),
            texts(old(cursor).lines@),
            old(cursor).pos as int,
        ),
        r matches Ok(v) ==> all_send_on(v@, chan.channel()),
{
    let mut actions: Vec<Action> = Vec::new();
    assert(views(actions@) =~= Seq::<ActionView>::empty());
    if args.len() == 0 {
        return Err(ParseError::report("Missing condition"));
    }
    let head = args[0].as_str();
    if same(head, "terminate") {
        let a = Action::Window(
            WindowAction::new(String::new(), "terminate".to_owned(), Vec::new(), chan.another()),
        );
        proof {
            assert(texts(Seq::<String>::empty()) =~= Seq::<Seq<char>>::empty());
        }
        actions.push(a);
        assert(views(actions@) =~= seq![a@]);
        Ok(actions)
    } else if same(head, "act") {
        match parse_single_event(pattern, chan, args) {
            Ok(a) => {
                actions.push(a);
                assert(views(actions@) =~= seq![a@]);
                Ok(actions)
            },
            Err(e) => Err(e.annotate("act")),
        }
    } else if same(head, "wrap") {
        let ghost lines = texts(cursor.lines@);
        let ghost total = wrap_block(pattern.pipes@, lines, cursor.pos as int, Seq::empty());
        let mut p: usize = cursor.pos;
        loop
            invariant
                *cursor == *old(cursor),
                all_send_on(actions@, chan.channel()),
                wrap_block(pattern.pipes@, lines, p as int, views(actions@)) == total,
                block_stop(pattern.pipes@, lines, p as int) == block_stop(
                    pattern.pipes@,
                    lines,
                    old(cursor).pos as int,
                ),
            decreases cursor.lines.len() - p,
        {
            if p >= cursor.lines.len() {
                cursor.pos = p;
                return Err(ParseError::report("Iterator ended before closing the action block"));
            }
            let w = split_whitespace(cursor.lines[p].as_str());
            assert(lines[p as int] == cursor.lines@[p as int]@);
            if w.len() > 0 && same(w[0].as_str(), "parw") {
                cursor.pos = p + 1;
                return Ok(actions);
            }
            match parse_single_event(pattern, chan, w.as_slice()) {
                Ok(a) => {
                    let ghost before = views(actions@);
                    actions.push(a);
                    assert(views(actions@) =~= before.push(a@));
                },
                Err(e) => {
                    cursor.pos = p + 1;
                    return Err(e.annotate("wrap"));
                },
            }
            p += 1;
        }
    } else {
        Err(ParseError::report_with("Unknown condition: ", head))
    }
}

/// A block whose first line closes it holds no action, and is valid.
pub proof fn lemma_empty_block<T>(
    pipes: Seq<(Seq<char>, T)>,
    args: Seq<Seq<char>>,
    lines: Seq<Seq<char>>,
    pos: int,
)
    requires
        args.len() > 0,
        args[0] == "wrap"@,
        0 <= pos < lines.len(),
        words(lines[pos]).len() > 0,
        words(lines[pos])[0] == "parw"@,
    ensures
        leading_event(pipes, args, lines, pos) == Ok::<(Seq<ActionView>, int), Seq<char>>(
            (Seq::empty(), pos + 1),
        ),
{
    reveal_strlit("wrap");
    reveal_strlit("terminate");
    reveal_strlit("act");
    assert("wrap"@.len() == 4);
    assert("terminate"@.len() == 9);
    assert("act"@.len() == 3);
}

/// A block that no line closes before the lines end is never valid,
/// whatever has been read of it.
pub proof fn lemma_unclosed_block<T>(
    pipes: Seq<(Seq<char>, T)>,
    lines: Seq<Seq<char>>,
    pos: int,
    actions: Seq<ActionView>,
)
    requires
        0 <= pos,
        forall|k: int|
            pos <= k < lines.len() ==> !(words(#[trigger] lines[k]).len() > 0 && words(
                lines[k],
            )[0] == "parw"@),
    ensures
        wrap_block(pipes, lines, pos, actions) is Err,
    decreases lines.len() - pos,
{
    if pos < lines.len() {
        match single_event(pipes, words(lines[pos])) {
            Err(e) => {},
            Ok(a) => {
                lemma_unclosed_block(pipes, lines, pos + 1, actions.push(a));
            },
        }
    }
}

} // verus!
