//! The script compiler: templates, their instances, and the pattern that a
//! whole script describes.

use vstd::prelude::*;
use vstd::string::*;
use vstd::slice::slice_subrange;
use crate::error::{ParseError, ParseResult, annotated, outcome, views};
use crate::number::{
    i64_text, is_float, is_float_text, parse_i64, parse_scaled, parse_usize, scaled_text,
    usize_text,
};
use crate::channel::{CommandReceiver, command_channel};
use crate::script::action::{
    Action, ActionView, PropertySet, PropertySetView, all_send_on, leading_event,
    parse_leading_event, property_set, set_property, single_event, wrap_block,
};
use crate::table::{
    Table, distinct_names, has_name, lemma_position, lemma_put_distinct, lookup, position, put,
};
use crate::text::{
    LineCursor, command_lines, join, joined, lemma_texts_skip, same, script_lines,
    split_whitespace, starts_with, texts, words,
};

pub mod action;

verus! {

/// A setting that an instance exports instead of applying it to an element.
/// A float is kept as the text that was found to write one.
#[derive(Debug)]
pub enum ParsedSetting {
    Int(i64),
    Float(String),
    String(String),
}

/// What a `ParsedSetting` is in contracts: its text as a sequence of characters.
pub enum ParsedSettingView {
    Int(i64),
    Float(Seq<char>),
    String(Seq<char>),
}

impl View for ParsedSetting {
    type V = ParsedSettingView;

    open spec fn view(&self) -> ParsedSettingView {
        match self {
            ParsedSetting::Int(i) => ParsedSettingView::Int(*i),
            ParsedSetting::Float(s) => ParsedSettingView::Float(s@),
            ParsedSetting::String(s) => ParsedSettingView::String(s@),
        }
    }
}

/// One line of a template's body: set `prop`, of type `type_`, to `value`,
/// which is a literal or a reference `$N` to the N-th argument.
#[derive(Debug)]
pub struct Instruction {
    pub prop: String,
    pub type_: String,
    pub value: String,
}

/// What an `Instruction` is in contracts: its texts as sequences of characters.
pub struct InstructionView {
    pub prop: Seq<char>,
    pub type_: Seq<char>,
    pub value: Seq<char>,
}

impl View for Instruction {
    type V = InstructionView;

    open spec fn view(&self) -> InstructionView {
        InstructionView { prop: self.prop@, type_: self.type_@, value: self.value@ }
    }
}

/// The instructions of a template for one target, in the order of the script.
#[derive(Debug)]
pub struct InstructionGroup {
    pub target: String,
    pub instructions: Vec<Instruction>,
}

impl View for InstructionGroup {
    type V = (Seq<char>, Seq<InstructionView>);

    open spec fn view(&self) -> (Seq<char>, Seq<InstructionView>) {
        (self.target@, views(self.instructions@))
    }
}

/// A blueprint for a pipeline: its description, the number of arguments that
/// an instance takes, and for each target the instructions to carry out on
/// it. No target has two groups, and the groups stand in the order in which
/// their targets first came.
#[derive(Debug)]
pub struct Template {
    pipeline: String,
    arg_count: usize,
    settings: Vec<InstructionGroup>,
}

/// What a `Template` is in contracts: its texts as sequences of characters.
pub struct TemplateView {
    pub pipeline: Seq<char>,
    pub arg_count: nat,
    pub settings: Seq<(Seq<char>, Seq<InstructionView>)>,
}

impl View for Template {
    type V = TemplateView;

    closed spec fn view(&self) -> TemplateView {
        TemplateView {
            pipeline: self.pipeline@,
            arg_count: self.arg_count as nat,
            settings: views(self.settings@),
        }
    }
}

/// `groups` with `ins` at the end of the group of `target`; a target that
/// has no group yet gets one at the end.
pub open spec fn with_instruction(
    groups: Seq<(Seq<char>, Seq<InstructionView>)>,
    target: Seq<char>,
    ins: InstructionView,
) -> Seq<(Seq<char>, Seq<InstructionView>)> {
    let i = position(groups, target, 0);
    if i < groups.len() {
        groups.update(i, (target, groups[i].1.push(ins)))
    } else {
        groups.push((target, seq![ins]))
    }
}

/// One more instruction leaves no target with two groups.
pub proof fn lemma_with_instruction_distinct(
    groups: Seq<(Seq<char>, Seq<InstructionView>)>,
    target: Seq<char>,
    ins: InstructionView,
)
    requires
        distinct_names(groups),
    ensures
        distinct_names(with_instruction(groups, target, ins)),
{
    lemma_position(groups, target, 0);
}

/// The body of a template read from line `pos` on: each line gives a target
/// and an instruction, up to the line that begins with `war`. The result is
/// the groups and the index of the line after that one.
pub open spec fn template_body(
    lines: Seq<Seq<char>>,
    pos: int,
    groups: Seq<(Seq<char>, Seq<InstructionView>)>,
) -> Result<(Seq<(Seq<char>, Seq<InstructionView>)>, int), Seq<char>>
    decreases lines.len() - pos,
{
    if pos < 0 || pos >= lines.len() {
        Err("Iterator ended before constructing custom pipeline"@)
    } else if "war"@.is_prefix_of(lines[pos]) {
        Ok((groups, pos + 1))
    } else {
        let w = words(lines[pos]);
        if w.len() != 4 {
            Err("Incorrect number of arguments in custom pipeline instruction: "@ + lines[pos])
        } else {
            template_body(
                lines,
                pos + 1,
                with_instruction(
                    groups,
                    w[0],
                    InstructionView { prop: w[1], type_: w[2], value: w[3] },
                ),
            )
        }
    }
}

/// The index of the first line that the reading of a template's body from
/// line `pos` on leaves unread: the line after the closing one, the line
/// after the first that has not four words, or where the lines end.
pub open spec fn template_body_stop(lines: Seq<Seq<char>>, pos: int) -> int
    decreases lines.len() - pos,
{
    if pos < 0 || pos >= lines.len() {
        pos
    } else if "war"@.is_prefix_of(lines[pos]) || words(lines[pos]).len() != 4 {
        pos + 1
    } else {
        template_body_stop(lines, pos + 1)
    }
}

/// The index of the first line that the reading of a template leaves
/// unread. A header that is refused leaves every line unread.
pub open spec fn template_stop(args: Seq<Seq<char>>, lines: Seq<Seq<char>>, pos: int) -> int {
    if args.len() < 2 || usize_text(args[1]) is None {
        pos
    } else {
        template_body_stop(lines, pos)
    }
}

/// The template that a header and the lines from `pos` on describe: its
/// name, the template, and the index of the line after its body.
pub open spec fn template_text(args: Seq<Seq<char>>, lines: Seq<Seq<char>>, pos: int) -> Result<
    ((Seq<char>, TemplateView), int),
    Seq<char>,
> {
    if args.len() < 2 {
        Err("Missing name or parameter count of custom pipeline"@)
    } else {
        match usize_text(args[1]) {
            None => Err("could not parse parameter count: "@ + args[1]),
            Some(n) => match template_body(lines, pos, Seq::empty()) {
                Err(e) => Err(e),
                Ok((groups, next)) => Ok(
                    (
                        (
                            args[0],
                            TemplateView {
                                pipeline: joined(args.skip(2)),
                                arg_count: n as nat,
                                settings: groups,
                            },
                        ),
                        next,
                    ),
                ),
            },
        }
    }
}

/// What an instance of a template is: the name and description of the
/// pipeline to build, the properties to set on its elements, in order, and
/// the settings it exports.
#[derive(Debug)]
pub struct PipeInstance {
    pub name: String,
    pub description: String,
    pub assignments: Vec<PropertySet>,
    pub exported: Table<ParsedSetting>,
}

/// What a `PipeInstance` is in contracts: its texts as sequences of characters.
pub struct PipeInstanceView {
    pub name: Seq<char>,
    pub description: Seq<char>,
    pub assignments: Seq<PropertySetView>,
    pub exported: Seq<(Seq<char>, ParsedSettingView)>,
}

impl View for PipeInstance {
    type V = PipeInstanceView;

    open spec fn view(&self) -> PipeInstanceView {
        PipeInstanceView {
            name: self.name@,
            description: self.description@,
            assignments: views(self.assignments@),
            exported: self.exported@,
        }
    }
}

/// What the value of an instruction stands for: the K-th argument for `$K`
/// with K from 1 to the number of arguments, the value itself if it does not
/// begin with `$`.
pub open spec fn argument(value: Seq<char>, args: Seq<Seq<char>>) -> Result<Seq<char>, Seq<char>> {
    if value.len() > 0 && value[0] == '$' {
        match usize_text(value.subrange(1, value.len() as int)) {
            None => Err("Could not parse argument index"@),
            Some(k) => if k < 1 {
                Err("Argument index less than one"@)
            } else if k > args.len() {
                Err("Argument index greater than number of arguments"@)
            } else {
                Ok(args[k - 1])
            },
        }
    } else {
        Ok(value)
    }
}

/// The exported setting that the text `v` gives under the type tag `type_`.
pub open spec fn exported_value(type_: Seq<char>, v: Seq<char>) -> Result<
    ParsedSettingView,
    Seq<char>,
> {
    if type_ == "int"@ {
        match i64_text(v) {
            Some(i) => Ok(ParsedSettingView::Int(i)),
            None => Err("Failed to parse setting as int"@),
        }
    } else if type_ == "float"@ {
        if is_float(v) {
            Ok(ParsedSettingView::Float(v))
        } else {
            Err("Failed to parse setting as float"@)
        }
    } else if type_ == "string"@ {
        Ok(ParsedSettingView::String(v))
    } else {
        Err("Unknown type: "@ + type_)
    }
}

/// The instance after one instruction for `target`: under the target `raw`
/// the value is exported under the property's name, and replaces what was
/// exported under that name; under any other target it is one more
/// property to set on the element of that name.
pub open spec fn apply_instruction(
    inst: PipeInstanceView,
    target: Seq<char>,
    ins: InstructionView,
    args: Seq<Seq<char>>,
) -> Result<PipeInstanceView, Seq<char>> {
    match argument(ins.value, args) {
        Err(e) => Err(e),
        Ok(v) => if target == "raw"@ {
            match exported_value(ins.type_, v) {
                Err(e) => Err(e),
                Ok(x) => Ok(
                    PipeInstanceView {
                        name: inst.name,
                        description: inst.description,
                        assignments: inst.assignments,
                        exported: put(inst.exported, ins.prop, x),
                    },
                ),
            }
        } else {
            match property_set(inst.name, target, ins.prop, ins.type_, v) {
                Err(e) => Err(annotated("set_property"@, e)),
                Ok(p) => Ok(
                    PipeInstanceView {
                        name: inst.name,
                        description: inst.description,
                        assignments: inst.assignments.push(p),
                        exported: inst.exported,
                    },
                ),
            }
        },
    }
}

/// The instance after the instructions of one group from index `i` on.
pub open spec fn apply_group(
    inst: PipeInstanceView,
    target: Seq<char>,
    instructions: Seq<InstructionView>,
    i: int,
    args: Seq<Seq<char>>,
) -> Result<PipeInstanceView, Seq<char>>
    decreases instructions.len() - i,
{
    if i < 0 || i >= instructions.len() {
        Ok(inst)
    } else {
        match apply_instruction(inst, target, instructions[i], args) {
            Err(e) => Err(e),
            Ok(next) => apply_group(next, target, instructions, i + 1, args),
        }
    }
}

/// The instance after the groups from index `g` on.
pub open spec fn apply_settings(
    inst: PipeInstanceView,
    settings: Seq<(Seq<char>, Seq<InstructionView>)>,
    g: int,
    args: Seq<Seq<char>>,
) -> Result<PipeInstanceView, Seq<char>>
    decreases settings.len() - g,
{
    if g < 0 || g >= settings.len() {
        Ok(inst)
    } else {
        match apply_group(inst, settings[g].0, settings[g].1, 0, args) {
            Err(e) => Err(e),
            Ok(next) => apply_settings(next, settings, g + 1, args),
        }
    }
}

/// The instance of `t` under the name `name` with the arguments `args`.
pub open spec fn instantiate(t: TemplateView, name: Seq<char>, args: Seq<Seq<char>>) -> Result<
    PipeInstanceView,
    Seq<char>,
> {
    if args.len() != t.arg_count {
        Err("Incorrect number of arguments"@)
    } else {
        apply_settings(
            PipeInstanceView {
                name,
                description: t.pipeline,
                assignments: Seq::empty(),
                exported: Seq::empty(),
            },
            t.settings,
            0,
            args,
        )
    }
}

/// The value that an instruction stands for.
pub fn resolve(value: &str, args: &[String]) -> (r: ParseResult<String>)
    ensures
        outcome(r) == argument(value@, texts(args@)),
{
    if starts_with(value, "$") {
        proof {
            reveal_strlit("$");
            assert("$"@.len() == 1 && "$"@[0] == '$');
            assert(value@.subrange(0, 1)[0] == '$');
        }
        let n = value.unicode_len();
        let index = parse_usize(value.substring_char(1, n));
        match index {
            None => Err(ParseError::report("Could not parse argument index")),
            Some(k) => {
                if k < 1 {
                    Err(ParseError::report("Argument index less than one"))
                } else if k > args.len() {
                    Err(ParseError::report("Argument index greater than number of arguments"))
                } else {
                    Ok(args[k - 1].clone())
                }
            },
        }
    } else {
        proof {
            reveal_strlit("$");
            assert("$"@.len() == 1 && "$"@[0] == '$');
            if value@.len() > 0 && value@[0] == '$' {
                assert("$"@ =~= value@.subrange(0, 1));
            }
        }
        Ok(value.to_owned())
    }
}

/// Reads `value` as the type tag of an exported setting says.
pub fn export(type_: &str, value: String) -> (r: ParseResult<ParsedSetting>)
    ensures
        outcome(r) == exported_value(type_@, value@),
{
    if same(type_, "int") {
        match parse_i64(value.as_str()) {
            Some(i) => Ok(ParsedSetting::Int(i)),
            None => Err(ParseError::report("Failed to parse setting as int")),
        }
    } else if same(type_, "float") {
        if is_float_text(value.as_str()) {
            Ok(ParsedSetting::Float(value))
        } else {
            Err(ParseError::report("Failed to parse setting as float"))
        }
    } else if same(type_, "string") {
        Ok(ParsedSetting::String(value))
    } else {
        Err(ParseError::report_with("Unknown type: ", type_))
    }
}

impl Template {
    #[verifier::type_invariant]
    spec fn no_target_twice(self) -> bool {
        distinct_names(views(self.settings@))
    }

    /// A template without instructions.
    pub fn new(pipeline: String, arg_count: usize) -> (t: Template)
        ensures
            t@ == (TemplateView {
                pipeline: pipeline@,
                arg_count: arg_count as nat,
                settings: Seq::empty(),
            }),
            distinct_names(t@.settings),
    {
        let settings: Vec<InstructionGroup> = Vec::new();
        assert(views(settings@) =~= Seq::<(Seq<char>, Seq<InstructionView>)>::empty());
        Template { pipeline, arg_count, settings }
    }

    /// The description of the pipeline.
    pub fn pipeline(&self) -> (s: &String)
        ensures
            s@ == self@.pipeline,
    {
        &self.pipeline
    }

    /// The number of arguments that an instance takes.
    pub fn arg_count(&self) -> (n: usize)
        ensures
            n == self@.arg_count,
    {
        self.arg_count
    }

    /// The groups of instructions, no two of them for the same target.
    pub fn settings(&self) -> (groups: &Vec<InstructionGroup>)
        ensures
            views(groups@) == self@.settings,
            distinct_names(self@.settings),
    {
        proof {
            use_type_invariant(self);
        }
        &self.settings
    }

    /// Adds `ins` at the end of the group of `target`; a target that has no
    /// group yet gets one at the end.
    #[verifier::loop_isolation(false)]
    pub fn add_instruction(&mut self, target: String, ins: Instruction)
        ensures
            final(self)@ == (TemplateView {
                pipeline: old(self)@.pipeline,
                arg_count: old(self)@.arg_count,
                settings: with_instruction(old(self)@.settings, target@, ins@),
            }),
            distinct_names(final(self)@.settings),
    {
        let ghost before = views(self.settings@);
        proof {
            use_type_invariant(&*self);
            lemma_with_instruction_distinct(before, target@, ins@);
        }
        let mut taken = Template::new(String::new(), 0);
        core::mem::swap(self, &mut taken);
        let pipeline = taken.pipeline;
        let arg_count = taken.arg_count;
        let mut settings = taken.settings;
        let mut i: usize = 0;
        while i < settings.len() && !same(settings[i].target.as_str(), target.as_str())
            invariant
                i <= settings.len(),
                views(settings@) == before,
                position(before, target@, i as int) == position(before, target@, 0),
            decreases settings.len() - i,
        {
            i += 1;
        }
        if i < settings.len() {
            let ghost old_group = settings@[i as int];
            settings[i].instructions.push(ins);
            proof {
                assert(views(settings@[i as int].instructions@) =~= views(
                    old_group.instructions@,
                ).push(ins@));
                assert(views(settings@) =~= with_instruction(before, target@, ins@));
            }
        } else {
            let mut instructions: Vec<Instruction> = Vec::new();
            instructions.push(ins);
            let group = InstructionGroup { target, instructions };
            proof {
                assert(views(group.instructions@) =~= seq![ins@]);
            }
            settings.push(group);
            proof {
                assert(views(settings@) =~= with_instruction(before, target@, ins@));
            }
        }
        *self = Template { pipeline, arg_count, settings };
    }

    /// Reads a template: `args` is its header after the word `raw` (name,
    /// number of arguments, description), and the cursor stands at the first
    /// line of its body. Afterwards the cursor stands after the last line
    /// that was read: the closing line, or the line that was refused.
    #[verifier::loop_isolation(false)]
    pub fn parse_command(args: &[String], cursor: &mut LineCursor) -> (r: ParseResult<
        (String, Template),
    >)
        ensures
            final(cursor).lines == old(cursor).lines,
            match r {
                Ok((name, t)) => template_text(
                    texts(args@),
                    texts(old(cursor).lines@),
                    old(cursor).pos as int,
                ) == Ok::<((Seq<char>, TemplateView), int), Seq<char>>(
                    ((name@, t@), final(cursor).pos as int),
                ),
                Err(e) => template_text(
                    texts(args@),
                    texts(old(cursor).lines@),
                    old(cursor).pos as int,
                ) == Err::<((Seq<char>, TemplateView), int), Seq<char>>(e@),
            },
            final(cursor).pos == template_stop(
                texts(args@),
                texts(old(cursor).lines@),
                old(cursor).pos as int,
            ),
            r matches Ok((_, t)) ==> distinct_names(t@.settings),
    {
        if args.len() < 2 {
            return Err(ParseError::report("Missing name or parameter count of custom pipeline"));
        }
        let name = args[0].clone();
        let arg_count = match parse_usize(args[1].as_str()) {
            Some(n) => n,
            None => {
                return Err(
                    ParseError::report_with("could not parse parameter count: ", args[1].as_str()),
                );
            },
        };
        let mut t = Template::new(join(args, 2), arg_count);
        let mut p: usize = cursor.pos;
        let ghost lines = texts(cursor.lines@);
        let ghost total = template_body(lines, cursor.pos as int, Seq::empty());
        loop
            invariant
                *cursor == *old(cursor),
                t@.pipeline == joined(texts(args@).skip(2)),
                t@.arg_count == arg_count,
                template_body(lines, p as int, t@.settings) == total,
                distinct_names(t@.settings),
                template_body_stop(lines, p as int) == template_body_stop(
                    lines,
                    old(cursor).pos as int,
                ),
            decreases cursor.lines.len() - p,
        {
            if p >= cursor.lines.len() {
                cursor.pos = p;
                return Err(
                    ParseError::report("Iterator ended before constructing custom pipeline"),
                );
            }
            let line = cursor.lines[p].as_str();
            assert(lines[p as int] == line@);
            if starts_with(line, "war") {
                cursor.pos = p + 1;
                return Ok((name, t));
            }
            let vals = split_whitespace(line);
            if vals.len() != 4 {
                let e = ParseError::report_with(
                    "Incorrect number of arguments in custom pipeline instruction: ",
                    line,
                );
                cursor.pos = p + 1;
                return Err(e);
            }
            t.add_instruction(
                vals[0].clone(),
                Instruction { prop: vals[1].clone(), type_: vals[2].clone(), value: vals[3].clone() },
            );
            p += 1;
        }
    }

    /// The instance of this template under `name` with `args`. The number of
    /// arguments must be the one the template was declared with.
    #[verifier::loop_isolation(false)]
    pub fn generate(&self, name: String, args: &[String]) -> (r: ParseResult<PipeInstance>)
        ensures
            outcome(r) == instantiate(self@, name@, texts(args@)),
    {
        if args.len() != self.arg_count {
            return Err(ParseError::report("Incorrect number of arguments"));
        }
        let mut inst = PipeInstance {
            name,
            description: self.pipeline.clone(),
            assignments: Vec::new(),
            exported: Table::new(),
        };
        let ghost settings = views(self.settings@);
        let ghost given = texts(args@);
        let ghost total = instantiate(self@, name@, given);
        assert(views(inst.assignments@) =~= Seq::<PropertySetView>::empty());
        let mut g: usize = 0;
        while g < self.settings.len()
            invariant
                g <= self.settings.len(),
                apply_settings(inst@, settings, g as int, given) == total,
            decreases self.settings.len() - g,
        {
            let group = &self.settings[g];
            assert(settings[g as int] == group@);
            let ghost instructions = views(group.instructions@);
            let mut i: usize = 0;
            while i < group.instructions.len()
                invariant
                    i <= group.instructions.len(),
                    total == match apply_group(inst@, group.target@, instructions, i as int, given) {
                        Err(e) => Err(e),
                        Ok(next) => apply_settings(next, settings, g + 1, given),
                    },
                decreases group.instructions.len() - i,
            {
                let ins = &group.instructions[i];
                assert(instructions[i as int] == ins@);
                let v = match resolve(ins.value.as_str(), args) {
                    Ok(v) => v,
                    Err(e) => {
                        return Err(e);
                    },
                };
                if same(group.target.as_str(), "raw") {
                    let x = match export(ins.type_.as_str(), v) {
                        Ok(x) => x,
                        Err(e) => {
                            return Err(e);
                        },
                    };
                    inst.exported.insert(ins.prop.clone(), x);
                } else {
                    let p = match set_property(
                        inst.name.clone(),
                        group.target.clone(),
                        ins.prop.clone(),
                        ins.type_.clone(),
                        v,
                    ) {
                        Ok(p) => p,
                        Err(e) => {
                            return Err(e.annotate("set_property"));
                        },
                    };
                    let ghost before = views(inst.assignments@);
                    inst.assignments.push(p);
                    assert(views(inst.assignments@) =~= before.push(p@));
                }
                i += 1;
            }
            g += 1;
        }
        Ok(inst)
    }
}

/// A template that declares N arguments has no instance with any other
/// number of them: the attempt fails, and says so.
pub proof fn lemma_argument_count(t: TemplateView, name: Seq<char>, args: Seq<Seq<char>>)
    requires
        args.len() != t.arg_count,
    ensures
        instantiate(t, name, args) == Err::<PipeInstanceView, Seq<char>>(
            "Incorrect number of arguments"@,
        ),
{
}

/// A value `$K` stands for the K-th argument where K is from 1 to the number
/// of arguments, and for nothing where K is outside that range.
pub proof fn lemma_reference(value: Seq<char>, args: Seq<Seq<char>>, k: usize)
    requires
        value.len() > 0,
        value[0] == '$',
        usize_text(value.subrange(1, value.len() as int)) == Some(k),
    ensures
        1 <= k <= args.len() ==> argument(value, args) == Ok::<Seq<char>, Seq<char>>(args[k - 1]),
        !(1 <= k <= args.len()) ==> argument(value, args) is Err,
{
}

/// An instruction whose value stands for nothing makes its group fail.
pub proof fn lemma_group_fails(
    inst: PipeInstanceView,
    target: Seq<char>,
    instructions: Seq<InstructionView>,
    from: int,
    i: int,
    args: Seq<Seq<char>>,
)
    requires
        0 <= from <= i < instructions.len(),
        argument(instructions[i].value, args) is Err,
    ensures
        apply_group(inst, target, instructions, from, args) is Err,
    decreases i - from,
{
    if from < i {
        match apply_instruction(inst, target, instructions[from], args) {
            Err(e) => {},
            Ok(next) => {
                lemma_group_fails(next, target, instructions, from + 1, i, args);
            },
        }
    }
}

/// A group that fails whatever the instance was before it makes the
/// instantiation fail.
pub proof fn lemma_settings_fail(
    inst: PipeInstanceView,
    settings: Seq<(Seq<char>, Seq<InstructionView>)>,
    from: int,
    g: int,
    i: int,
    args: Seq<Seq<char>>,
)
    requires
        0 <= from <= g < settings.len(),
        0 <= i < settings[g].1.len(),
        argument(settings[g].1[i].value, args) is Err,
    ensures
        apply_settings(inst, settings, from, args) is Err,
    decreases g - from,
{
    if from < g {
        match apply_group(inst, settings[from].0, settings[from].1, 0, args) {
            Err(e) => {},
            Ok(next) => {
                lemma_settings_fail(next, settings, from + 1, g, i, args);
            },
        }
    } else {
        lemma_group_fails(inst, settings[g].0, settings[g].1, 0, i, args);
    }
}

/// A template with an instruction whose value stands for nothing under
/// `args`, such as a reference outside the range of the arguments, has no
/// instance with them.
pub proof fn lemma_bad_reference_fails(
    t: TemplateView,
    name: Seq<char>,
    args: Seq<Seq<char>>,
    g: int,
    i: int,
)
    requires
        0 <= g < t.settings.len(),
        0 <= i < t.settings[g].1.len(),
        argument(t.settings[g].1[i].value, args) is Err,
    ensures
        instantiate(t, name, args) is Err,
{
    if args.len() == t.arg_count {
        lemma_settings_fail(
            PipeInstanceView {
                name,
                description: t.pipeline,
                assignments: Seq::empty(),
                exported: Seq::empty(),
            },
            t.settings,
            0,
            g,
            i,
            args,
        );
    }
}

/// A bridge between two pipelines: what leaves `elem_a` of `pipe_a` enters
/// `elem_b` of `pipe_b`.
#[derive(Debug)]
pub struct Plug {
    pub elem_a: String,
    pub pipe_a: String,
    pub elem_b: String,
    pub pipe_b: String,
}

/// What a `Plug` is in contracts: its texts as sequences of characters.
pub struct PlugView {
    pub elem_a: Seq<char>,
    pub pipe_a: Seq<char>,
    pub elem_b: Seq<char>,
    pub pipe_b: Seq<char>,
}

impl View for Plug {
    type V = PlugView;

    open spec fn view(&self) -> PlugView {
        PlugView {
            elem_a: self.elem_a@,
            pipe_a: self.pipe_a@,
            elem_b: self.elem_b@,
            pipe_b: self.pipe_b@,
        }
    }
}

/// An element that an action names, to be looked for once the pipelines are
/// built, with what to report if it is not there.
#[derive(Debug)]
pub struct ElementCheck {
    pub pipe: String,
    pub element: String,
    pub failure: String,
}

/// What an `ElementCheck` is in contracts: its texts as sequences of characters.
pub struct ElementCheckView {
    pub pipe: Seq<char>,
    pub element: Seq<char>,
    pub failure: Seq<char>,
}

impl View for ElementCheck {
    type V = ElementCheckView;

    open spec fn view(&self) -> ElementCheckView {
        ElementCheckView { pipe: self.pipe@, element: self.element@, failure: self.failure@ }
    }
}

/// The checks for the elements that the first `n` of `actions` name, in
/// order: one for each action that sets a property. The failure names the
/// element, after the contexts in which the action was read: `outer`, then
/// `inner`.
pub open spec fn element_checks(
    actions: Seq<ActionView>,
    inner: Seq<char>,
    outer: Seq<char>,
    n: int,
) -> Seq<ElementCheckView>
    decreases n,
{
    if n <= 0 {
        Seq::empty()
    } else {
        match actions[n - 1] {
            ActionView::SetProp { pipeline, element, .. } => element_checks(
                actions,
                inner,
                outer,
                n - 1,
            ).push(
                ElementCheckView {
                    pipe: pipeline,
                    element,
                    failure: annotated(outer, annotated(inner, "Unknown element: "@ + element)),
                },
            ),
            _ => element_checks(actions, inner, outer, n - 1),
        }
    }
}

/// The actions to run when a pipeline reaches the end of its stream.
pub struct EndEvent {
    pub pipe: String,
    pub actions: Vec<Action>,
}

impl View for EndEvent {
    type V = (Seq<char>, Seq<ActionView>);

    open spec fn view(&self) -> (Seq<char>, Seq<ActionView>) {
        (self.pipe@, views(self.actions@))
    }
}

/// The actions to run once a pipeline has played past a threshold, in
/// nanoseconds.
pub struct TimeEvent {
    pub pipe: String,
    pub nanos: u64,
    pub actions: Vec<Action>,
}

/// What a `TimeEvent` is in contracts: its texts as sequences of characters.
pub struct TimeEventView {
    pub pipe: Seq<char>,
    pub nanos: u64,
    pub actions: Seq<ActionView>,
}

impl View for TimeEvent {
    type V = TimeEventView;

    open spec fn view(&self) -> TimeEventView {
        TimeEventView { pipe: self.pipe@, nanos: self.nanos, actions: views(self.actions@) }
    }
}

/// What a script describes: its templates, the instances to build, the
/// bridges between them, and the actions to run at the start, at the end of
/// a stream and at thresholds of playback time.
pub struct Pattern {
    pub blocks: Table<Template>,
    pub pipes: Table<PipeInstance>,
    pub listen: Option<CommandReceiver>,
    pub time_events: Vec<TimeEvent>,
    pub pre_events: Vec<Action>,
    pub end_events: Vec<EndEvent>,
    pub plugs: Vec<Plug>,
    pub element_checks: Vec<ElementCheck>,
}

/// What a `Pattern` is in contracts: all of it but the channel.
pub struct PatternView {
    pub blocks: Seq<(Seq<char>, TemplateView)>,
    pub pipes: Seq<(Seq<char>, PipeInstanceView)>,
    pub time_events: Seq<TimeEventView>,
    pub pre_events: Seq<ActionView>,
    pub end_events: Seq<(Seq<char>, Seq<ActionView>)>,
    pub plugs: Seq<PlugView>,
    pub element_checks: Seq<ElementCheckView>,
}

impl View for Pattern {
    type V = PatternView;

    open spec fn view(&self) -> PatternView {
        PatternView {
            blocks: self.blocks@,
            pipes: self.pipes@,
            time_events: views(self.time_events@),
            pre_events: views(self.pre_events@),
            end_events: views(self.end_events@),
            plugs: views(self.plugs@),
            element_checks: views(self.element_checks@),
        }
    }
}

/// Whether every window action of the events sends on the channel with the
/// mark `channel`.
pub open spec fn events_send_on(events: Seq<TimeEvent>, channel: int) -> bool {
    forall|i: int| 0 <= i < events.len() ==> all_send_on((#[trigger] events[i]).actions@, channel)
}

/// Whether every window action of the events sends on the channel with the
/// mark `channel`.
pub open spec fn ends_send_on(events: Seq<EndEvent>, channel: int) -> bool {
    forall|i: int| 0 <= i < events.len() ==> all_send_on((#[trigger] events[i]).actions@, channel)
}

/// The template for a source that plays an mp3 file.
pub open spec fn mp3_input() -> TemplateView {
    TemplateView {
        pipeline: "filesrc name=src ! decodebin ! audioconvert ! audioresample ! proxysink name=audio_out"@,
        arg_count: 1,
        settings: with_instruction(
            Seq::empty(),
            "src"@,
            InstructionView { prop: "location"@, type_: "string"@, value: "$1"@ },
        ),
    }
}

/// The template for a source that plays an mp4 file, sound and picture apart.
pub open spec fn mp4_input() -> TemplateView {
    TemplateView {
        pipeline: "filesrc name=src ! decodebin name=demux demux. ! videoconvert ! proxysink name=video_out demux. ! audioconvert ! audioresample ! proxysink name=audio_out"@,
        arg_count: 1,
        settings: with_instruction(
            Seq::empty(),
            "src"@,
            InstructionView { prop: "location"@, type_: "string"@, value: "$1"@ },
        ),
    }
}

/// The template for a sink that shows a picture in a window: it exports
/// the mark of a window, and the place and size of the window from its four
/// arguments.
pub open spec fn x_output() -> TemplateView {
    TemplateView {
        pipeline: "proxysrc name=video_in ! xvimagesink name=sink"@,
        arg_count: 4,
        settings: with_instruction(
            with_instruction(
                with_instruction(
                    with_instruction(
                        with_instruction(
                            Seq::empty(),
                            "raw"@,
                            InstructionView { prop: "gtktag"@, type_: "string"@, value: "window"@ },
                        ),
                        "raw"@,
                        InstructionView { prop: "x"@, type_: "int"@, value: "$1"@ },
                    ),
                    "raw"@,
                    InstructionView { prop: "y"@, type_: "int"@, value: "$2"@ },
                ),
                "raw"@,
                InstructionView { prop: "width"@, type_: "int"@, value: "$3"@ },
            ),
            "raw"@,
            InstructionView { prop: "height"@, type_: "int"@, value: "$4"@ },
        ),
    }
}

/// The template for a sink that plays sound.
pub open spec fn audio_output() -> TemplateView {
    TemplateView {
        pipeline: "proxysrc name=audio_in ! alsasink name=sink"@,
        arg_count: 0,
        settings: Seq::empty(),
    }
}

/// The templates that every pattern starts with.
pub open spec fn preset_blocks() -> Seq<(Seq<char>, TemplateView)> {
    put(
        put(
            put(put(Seq::empty(), "mp3input"@, mp3_input()), "mp4input"@, mp4_input()),
            "xoutput"@,
            x_output(),
        ),
        "aoutput"@,
        audio_output(),
    )
}

/// The pattern of the empty script: the preset templates and nothing else.
pub open spec fn initial_pattern() -> PatternView {
    PatternView {
        blocks: preset_blocks(),
        pipes: Seq::empty(),
        time_events: Seq::empty(),
        pre_events: Seq::empty(),
        end_events: Seq::empty(),
        plugs: Seq::empty(),
        element_checks: Seq::empty(),
    }
}

/// The first index at or after `from` of an event of `pipe` at `nanos`, or
/// the length of `events` if there is none.
pub open spec fn event_position(
    events: Seq<TimeEventView>,
    pipe: Seq<char>,
    nanos: u64,
    from: int,
) -> int
    decreases events.len() - from,
{
    if 0 <= from < events.len() && !(events[from].pipe == pipe && events[from].nanos == nanos) {
        event_position(events, pipe, nanos, from + 1)
    } else {
        from
    }
}

/// Whether no two events are for the same pipeline and threshold.
pub open spec fn distinct_events(events: Seq<TimeEventView>) -> bool {
    forall|i: int, j: int|
        0 <= i < j < events.len() ==> !((#[trigger] events[i]).pipe == (#[trigger] events[j]).pipe
            && events[i].nanos == events[j].nanos)
}

/// Where `event_position` stops, and that no event before it is for the
/// pipeline and threshold.
pub proof fn lemma_event_position(
    events: Seq<TimeEventView>,
    pipe: Seq<char>,
    nanos: u64,
    from: int,
)
    requires
        0 <= from <= events.len(),
    ensures
        from <= event_position(events, pipe, nanos, from) <= events.len(),
        event_position(events, pipe, nanos, from) < events.len() ==> events[event_position(
            events,
            pipe,
            nanos,
            from,
        )].pipe == pipe && events[event_position(events, pipe, nanos, from)].nanos == nanos,
        forall|k: int|
            from <= k < event_position(events, pipe, nanos, from) ==> !((#[trigger] events[k]).pipe
                == pipe && events[k].nanos == nanos),
    decreases events.len() - from,
{
    if from < events.len() && !(events[from].pipe == pipe && events[from].nanos == nanos) {
        lemma_event_position(events, pipe, nanos, from + 1);
    }
}

/// `events` with `actions` to run when `pipe` passes `nanos`: after the
/// actions that were registered for the same pipeline and threshold, or as a
/// new event at the end.
pub open spec fn with_time_event(
    events: Seq<TimeEventView>,
    pipe: Seq<char>,
    nanos: u64,
    actions: Seq<ActionView>,
) -> Seq<TimeEventView> {
    let i = event_position(events, pipe, nanos, 0);
    if i < events.len() {
        events.update(i, TimeEventView { pipe, nanos, actions: events[i].actions + actions })
    } else {
        events.push(TimeEventView { pipe, nanos, actions })
    }
}

/// One more registration leaves no two events for the same pipeline and
/// threshold.
pub proof fn lemma_with_time_event_distinct(
    events: Seq<TimeEventView>,
    pipe: Seq<char>,
    nanos: u64,
    actions: Seq<ActionView>,
)
    requires
        distinct_events(events),
    ensures
        distinct_events(with_time_event(events, pipe, nanos, actions)),
{
    lemma_event_position(events, pipe, nanos, 0);
}

/// The pattern after the command at line `pos`, and the index of the first
/// line that the command did not read.
pub open spec fn command(lines: Seq<Seq<char>>, pos: int, p: PatternView) -> Result<
    (PatternView, int),
    Seq<char>,
> {
    let args = words(lines[pos]);
    if args.len() == 0 {
        Err("Unknown command: "@)
    } else if args[0] == "raw"@ {
        match template_text(args.skip(1), lines, pos + 1) {
            Err(e) => Err(annotated("parse_command"@, e)),
            Ok(((name, t), next)) => Ok((PatternView { blocks: put(p.blocks, name, t), ..p }, next)),
        }
    } else if args[0] == "new"@ {
        if args.len() < 3 {
            Err("Missing argument in command: "@ + lines[pos])
        } else {
            match lookup(p.blocks, args[1]) {
                None => Err("No template found: "@ + args[1]),
                Some(t) => match instantiate(t, args[2], args.skip(3)) {
                    Err(e) => Err(annotated("block.generate"@, e)),
                    Ok(inst) => Ok(
                        (PatternView { pipes: put(p.pipes, args[2], inst), ..p }, pos + 1),
                    ),
                },
            }
        }
    } else if args[0] == "plug"@ {
        if args.len() < 5 {
            Err("Missing argument in command: "@ + lines[pos])
        } else if !has_name(p.pipes, args[2]) {
            Err("No pipe found: "@ + args[2])
        } else if !has_name(p.pipes, args[4]) {
            Err("No pipe found: "@ + args[4])
        } else {
            Ok(
                (
                    PatternView {
                        plugs: p.plugs.push(
                            PlugView {
                                elem_a: args[1],
                                pipe_a: args[2],
                                elem_b: args[3],
                                pipe_b: args[4],
                            },
                        ),
                        ..p
                    },
                    pos + 1,
                ),
            )
        }
    } else if args[0] == "on"@ {
        if args.len() < 2 {
            Err("Missing argument in command: "@ + lines[pos])
        } else if args[1] == "callback"@ {
            if args.len() < 4 {
                Err("Missing argument in command: "@ + lines[pos])
            } else if !has_name(p.pipes, args[2]) {
                Err("No element found: "@ + args[2])
            } else if args[3] != "end"@ {
                Err("Unknown callback: "@ + args[3])
            } else {
                match leading_event(p.pipes, args.skip(4), lines, pos + 1) {
                    Err(e) => Err(annotated("callback end"@, e)),
                    Ok((actions, next)) => Ok(
                        (
                            PatternView {
                                end_events: p.end_events.push((args[2], actions)),
                                element_checks: p.element_checks + element_checks(
                                    actions,
                                    args[4],
                                    "callback end"@,
                                    actions.len() as int,
                                ),
                                ..p
                            },
                            next,
                        ),
                    ),
                }
            }
        } else if args[1] == "pre"@ {
            match leading_event(p.pipes, args.skip(2), lines, pos + 1) {
                Err(e) => Err(annotated("pre, parse"@, e)),
                Ok((actions, next)) => Ok(
                    (
                        PatternView {
                            pre_events: p.pre_events + actions,
                            element_checks: p.element_checks + element_checks(
                                actions,
                                args[2],
                                "pre, parse"@,
                                actions.len() as int,
                            ),
                            ..p
                        },
                        next,
                    ),
                ),
            }
        } else if args[1] == "progress"@ {
            if args.len() < 4 {
                Err("Missing argument in command: "@ + lines[pos])
            } else if !has_name(p.pipes, args[2]) {
                Err("No element found: "@ + args[2])
            } else {
                match scaled_text(args[3], 9) {
                    None => Err("Failed to parse time"@),
                    Some(seconds) => match leading_event(p.pipes, args.skip(4), lines, pos + 1) {
                        Err(e) => Err(annotated("progress, parse"@, e)),
                        Ok((actions, next)) => Ok(
                            (
                                PatternView {
                                    time_events: with_time_event(
                                        p.time_events,
                                        args[2],
                                        seconds.unsigned_value(),
                                        actions,
                                    ),
                                    element_checks: p.element_checks + element_checks(
                                        actions,
                                        args[4],
                                        "progress, parse"@,
                                        actions.len() as int,
                                    ),
                                    ..p
                                },
                                next,
                            ),
                        ),
                    },
                }
            }
        } else {
            Err("Unknown event type: "@ + args[1])
        }
    } else {
        Err("Unknown command: "@ + args[0])
    }
}

/// The pattern after the commands from line `pos` on.
pub open spec fn compile_from(lines: Seq<Seq<char>>, pos: int, p: PatternView) -> Result<
    PatternView,
    Seq<char>,
>
    decreases lines.len() - pos,
{
    if pos < 0 || pos >= lines.len() {
        Ok(p)
    } else {
        match command(lines, pos, p) {
            Err(e) => Err(e),
            Ok((q, next)) => if pos < next <= lines.len() {
                compile_from(lines, next, q)
            } else {
                Ok(q)
            },
        }
    }
}

/// The pattern that the script `text` describes.
pub open spec fn compile(text: Seq<char>) -> Result<PatternView, Seq<char>> {
    compile_from(script_lines(text), 0, initial_pattern())
}

/// A template's body ends after the line it began at.
pub proof fn lemma_template_body_advances(
    lines: Seq<Seq<char>>,
    pos: int,
    groups: Seq<(Seq<char>, Seq<InstructionView>)>,
)
    requires
        0 <= pos,
    ensures
        template_body(lines, pos, groups) matches Ok((_, next)) ==> pos < next <= lines.len(),
    decreases lines.len() - pos,
{
    if pos < lines.len() && !"war"@.is_prefix_of(lines[pos]) {
        let w = words(lines[pos]);
        if w.len() == 4 {
            lemma_template_body_advances(
                lines,
                pos + 1,
                with_instruction(
                    groups,
                    w[0],
                    InstructionView { prop: w[1], type_: w[2], value: w[3] },
                ),
            );
        }
    }
}

/// A block of actions ends after the line it began at.
pub proof fn lemma_wrap_block_advances<T>(
    pipes: Seq<(Seq<char>, T)>,
    lines: Seq<Seq<char>>,
    pos: int,
    actions: Seq<ActionView>,
)
    requires
        0 <= pos,
    ensures
        wrap_block(pipes, lines, pos, actions) matches Ok((_, next)) ==> pos < next <= lines.len(),
    decreases lines.len() - pos,
{
    if pos < lines.len() {
        let w = words(lines[pos]);
        if !(w.len() > 0 && w[0] == "parw"@) {
            match single_event(pipes, w) {
                Err(e) => {},
                Ok(a) => {
                    lemma_wrap_block_advances(pipes, lines, pos + 1, actions.push(a));
                },
            }
        }
    }
}

/// Every command reads its own line at least, and nothing past the last line.
pub proof fn lemma_command_advances(lines: Seq<Seq<char>>, pos: int, p: PatternView)
    requires
        0 <= pos < lines.len(),
    ensures
        command(lines, pos, p) matches Ok((_, next)) ==> pos < next <= lines.len(),
{
    let args = words(lines[pos]);
    lemma_template_body_advances(lines, pos + 1, Seq::empty());
    lemma_wrap_block_advances(p.pipes, lines, pos + 1, Seq::empty());
}

/// A command leaves no template name and no pipeline name twice, and no
/// two time events for the same pipeline and threshold.
pub proof fn lemma_command_keeps_names_distinct(lines: Seq<Seq<char>>, pos: int, p: PatternView)
    requires
        0 <= pos < lines.len(),
        distinct_names(p.blocks),
        distinct_names(p.pipes),
        distinct_events(p.time_events),
    ensures
        command(lines, pos, p) matches Ok((q, _)) ==> distinct_names(q.blocks) && distinct_names(
            q.pipes,
        ) && distinct_events(q.time_events),
{
    let args = words(lines[pos]);
    if args.len() >= 4 && args[0] == "on"@ && args[1] == "progress"@ {
        match scaled_text(args[3], 9) {
            Some(seconds) => match leading_event(p.pipes, args.skip(4), lines, pos + 1) {
                Ok((actions, _)) => {
                    lemma_with_time_event_distinct(
                        p.time_events,
                        args[2],
                        seconds.unsigned_value(),
                        actions,
                    );
                },
                Err(_) => {},
            },
            None => {},
        }
    }
    if args.len() > 0 && args[0] == "raw"@ {
        match template_text(args.skip(1), lines, pos + 1) {
            Ok(((name, t), _)) => {
                lemma_put_distinct(p.blocks, name, t);
            },
            Err(_) => {},
        }
    } else if args.len() >= 3 && args[0] == "new"@ {
        match lookup(p.blocks, args[1]) {
            Some(t) => match instantiate(t, args[2], args.skip(3)) {
                Ok(inst) => {
                    lemma_put_distinct(p.pipes, args[2], inst);
                },
                Err(_) => {},
            },
            None => {},
        }
    }
}

/// The commands from line `pos` on leave no template name and no pipeline
/// name twice.
pub proof fn lemma_compile_from_keeps_names_distinct(
    lines: Seq<Seq<char>>,
    pos: int,
    p: PatternView,
)
    requires
        0 <= pos,
        distinct_names(p.blocks),
        distinct_names(p.pipes),
        distinct_events(p.time_events),
    ensures
        compile_from(lines, pos, p) matches Ok(q) ==> distinct_names(q.blocks) && distinct_names(
            q.pipes,
        ) && distinct_events(q.time_events),
    decreases lines.len() - pos,
{
    if pos < lines.len() {
        lemma_command_keeps_names_distinct(lines, pos, p);
        match command(lines, pos, p) {
            Ok((q, next)) => {
                if pos < next <= lines.len() {
                    lemma_compile_from_keeps_names_distinct(lines, next, q);
                }
            },
            Err(_) => {},
        }
    }
}

/// In the pattern of a script no two templates have the same name, and no
/// two pipelines, and no two time events are for the same pipeline and
/// threshold.
pub proof fn lemma_compile_names_distinct(text: Seq<char>)
    ensures
        compile(text) matches Ok(q) ==> distinct_names(q.blocks) && distinct_names(q.pipes)
            && distinct_events(q.time_events),
{
    let e = Seq::<(Seq<char>, TemplateView)>::empty();
    lemma_put_distinct(e, "mp3input"@, mp3_input());
    let a = put(e, "mp3input"@, mp3_input());
    lemma_put_distinct(a, "mp4input"@, mp4_input());
    let b = put(a, "mp4input"@, mp4_input());
    lemma_put_distinct(b, "xoutput"@, x_output());
    let c = put(b, "xoutput"@, x_output());
    lemma_put_distinct(c, "aoutput"@, audio_output());
    lemma_compile_from_keeps_names_distinct(script_lines(text), 0, initial_pattern());
}

/// Adds the checks for the elements that `actions` name.
fn note_elements(checks: &mut Vec<ElementCheck>, actions: &Vec<Action>, inner: &str, outer: &str)
    ensures
        views(final(checks)@) == views(old(checks)@) + element_checks(
            views(actions@),
            inner@,
            outer@,
            actions@.len() as int,
        ),
{
    let ghost before = views(checks@);
    let ghost all = views(actions@);
    let mut i: usize = 0;
    assert(views(checks@) =~= before + element_checks(all, inner@, outer@, 0));
    while i < actions.len()
        invariant
            i <= actions.len(),
            all == views(actions@),
            views(checks@) == before + element_checks(all, inner@, outer@, i as int),
        decreases actions.len() - i,
    {
        let ghost now = views(checks@);
        match &actions[i] {
            Action::SetProp(a) => {
                let failure = ParseError::report_with("Unknown element: ", a.element.as_str()).annotate(
                    inner,
                ).annotate(outer).message();
                let check = ElementCheck {
                    pipe: a.pipeline.clone(),
                    element: a.element.clone(),
                    failure,
                };
                checks.push(check);
                proof {
                    assert(all[i as int] == actions@[i as int]@);
                    assert(views(checks@) =~= now.push(check@));
                    assert(now.push(check@) =~= before + element_checks(
                        all,
                        inner@,
                        outer@,
                        i + 1,
                    ));
                }
            },
            _ => {
                proof {
                    assert(all[i as int] == actions@[i as int]@);
                }
            },
        }
        i += 1;
    }
}

impl Pattern {
    /// Whether every window action of the pattern sends on the channel with
    /// the mark `channel`.
    pub open spec fn sends_on(&self, channel: int) -> bool {
        &&& all_send_on(self.pre_events@, channel)
        &&& events_send_on(self.time_events@, channel)
        &&& ends_send_on(self.end_events@, channel)
    }

    /// The pattern of the empty script: the preset templates and nothing else.
    pub fn default() -> (p: Pattern)
        ensures
            p@ == initial_pattern(),
            distinct_events(p@.time_events),
            p.listen is None,
            forall|channel: int| p.sends_on(channel),
    {
        let mut blocks: Table<Template> = Table::new();
        let mut mp3 = Template::new(
            "filesrc name=src ! decodebin ! audioconvert ! audioresample ! proxysink name=audio_out".to_owned(),
            1,
        );
        mp3.add_instruction(
            "src".to_owned(),
            Instruction {
                prop: "location".to_owned(),
                type_: "string".to_owned(),
                value: "$1".to_owned(),
            },
        );
        blocks.insert("mp3input".to_owned(), mp3);
        let mut mp4 = Template::new(
            "filesrc name=src ! decodebin name=demux demux. ! videoconvert ! proxysink name=video_out demux. ! audioconvert ! audioresample ! proxysink name=audio_out".to_owned(),
            1,
        );
        mp4.add_instruction(
            "src".to_owned(),
            Instruction {
                prop: "location".to_owned(),
                type_: "string".to_owned(),
                value: "$1".to_owned(),
            },
        );
        blocks.insert("mp4input".to_owned(), mp4);
        let mut x = Template::new("proxysrc name=video_in ! xvimagesink name=sink".to_owned(), 4);
        x.add_instruction(
            "raw".to_owned(),
            Instruction {
                prop: "gtktag".to_owned(),
                type_: "string".to_owned(),
                value: "window".to_owned(),
            },
        );
        x.add_instruction(
            "raw".to_owned(),
            Instruction { prop: "x".to_owned(), type_: "int".to_owned(), value: "$1".to_owned() },
        );
        x.add_instruction(
            "raw".to_owned(),
            Instruction { prop: "y".to_owned(), type_: "int".to_owned(), value: "$2".to_owned() },
        );
        x.add_instruction(
            "raw".to_owned(),
            Instruction {
                prop: "width".to_owned(),
                type_: "int".to_owned(),
                value: "$3".to_owned(),
            },
        );
        x.add_instruction(
            "raw".to_owned(),
            Instruction {
                prop: "height".to_owned(),
                type_: "int".to_owned(),
                value: "$4".to_owned(),
            },
        );
        blocks.insert("xoutput".to_owned(), x);
        let audio = Template::new("proxysrc name=audio_in ! alsasink name=sink".to_owned(), 0);
        blocks.insert("aoutput".to_owned(), audio);
        let p = Pattern {
            blocks,
            pipes: Table::new(),
            listen: None,
            time_events: Vec::new(),
            pre_events: Vec::new(),
            end_events: Vec::new(),
            plugs: Vec::new(),
            element_checks: Vec::new(),
        };
        proof {
            assert(views(p.time_events@) =~= Seq::<TimeEventView>::empty());
            assert(views(p.pre_events@) =~= Seq::<ActionView>::empty());
            assert(views(p.end_events@) =~= Seq::<(Seq<char>, Seq<ActionView>)>::empty());
            assert(views(p.plugs@) =~= Seq::<PlugView>::empty());
            assert(views(p.element_checks@) =~= Seq::<ElementCheckView>::empty());
        }
        p
    }

    /// Registers `actions` to run when `pipe` passes `nanos`.
    #[verifier::loop_isolation(false)]
    pub fn add_time_event(&mut self, pipe: String, nanos: u64, actions: Vec<Action>)
        ensures
            final(self)@ == (PatternView {
                time_events: with_time_event(
                    old(self)@.time_events,
                    pipe@,
                    nanos,
                    views(actions@),
                ),
                ..old(self)@
            }),
            distinct_events(old(self)@.time_events) ==> distinct_events(final(self)@.time_events),
            final(self).listen == old(self).listen,
            final(self).pre_events == old(self).pre_events,
            final(self).end_events == old(self).end_events,
            forall|channel: int|
                events_send_on(old(self).time_events@, channel) && all_send_on(actions@, channel)
                    ==> events_send_on(final(self).time_events@, channel),
    {
        let ghost before = views(self.time_events@);
        proof {
            if distinct_events(before) {
                lemma_with_time_event_distinct(before, pipe@, nanos, views(actions@));
            }
        }
        let mut i: usize = 0;
        while i < self.time_events.len() && !(self.time_events[i].nanos == nanos && same(
            self.time_events[i].pipe.as_str(),
            pipe.as_str(),
        ))
            invariant
                i <= self.time_events.len(),
                *self == *old(self),
                event_position(before, pipe@, nanos, i as int) == event_position(
                    before,
                    pipe@,
                    nanos,
                    0,
                ),
            decreases self.time_events.len() - i,
        {
            i += 1;
        }
        if i < self.time_events.len() {
            let ghost old_event = self.time_events@[i as int];
            let mut more = actions;
            self.time_events[i].actions.append(&mut more);
            proof {
                assert(views(self.time_events@[i as int].actions@) =~= views(old_event.actions@)
                    + views(actions@));
                assert(views(self.time_events@) =~= with_time_event(
                    before,
                    pipe@,
                    nanos,
                    views(actions@),
                ));
            }
        } else {
            self.time_events.push(TimeEvent { pipe, nanos, actions });
            proof {
                assert(views(self.time_events@) =~= with_time_event(
                    before,
                    pipe@,
                    nanos,
                    views(actions@),
                ));
            }
        }
    }

    /// Compiles a script: every line that is not empty and no comment is a
    /// command, or belongs to the command before it.
    #[verifier::loop_isolation(false)]
    pub fn parse_pattern(text: &str) -> (r: ParseResult<Pattern>)
        ensures
            outcome(r) == compile(text@),
            r matches Ok(p) ==> p.listen is Some && distinct_names(p@.blocks) && distinct_names(
                p@.pipes,
            ) && distinct_events(p@.time_events),
            r matches Ok(p) ==> p.listen matches Some(rx) && p.sends_on(rx.channel()),
    {
        let (tx, rx) = command_channel();
        let mut pattern = Pattern::default();
        assert(pattern.sends_on(tx.channel()));
        pattern.listen = Some(rx);
        let mut cursor = LineCursor::new(command_lines(text));
        let ghost lines = texts(cursor.lines@);
        let ghost total = compile(text@);
        loop
            invariant
                texts(cursor.lines@) == lines,
                pattern.listen matches Some(rx) && rx.channel() == tx.channel(),
                pattern.sends_on(tx.channel()),
                distinct_events(pattern@.time_events),
                compile_from(lines, cursor.pos as int, pattern@) == total,
            decreases cursor.lines.len() - cursor.pos,
        {
            if cursor.is_done() {
                let _ = pattern.blocks.len();
                let _ = pattern.pipes.len();
                return Ok(pattern);
            }
            let p: usize = cursor.pos;
            let ghost before = pattern@;
            proof {
                lemma_command_advances(lines, p as int, before);
            }
            let args = split_whitespace(cursor.lines[p].as_str());
            assert(lines[p as int] == cursor.lines@[p as int]@);
            if args.len() == 0 {
                return Err(ParseError::report("Unknown command: "));
            }
            let line = cursor.lines[p].clone();
            cursor.pos = p + 1;
            let n = args.len();
            let head = args[0].as_str();
            proof {
                lemma_texts_skip(args@, 1);
                if n >= 2 {
                    lemma_texts_skip(args@, 2);
                }
                if n >= 3 {
                    lemma_texts_skip(args@, 3);
                }
                if n >= 4 {
                    lemma_texts_skip(args@, 4);
                }
            }
            if same(head, "raw") {
                match Template::parse_command(slice_subrange(args.as_slice(), 1, n), &mut cursor) {
                    Ok((name, t)) => {
                        pattern.blocks.insert(name, t);
                    },
                    Err(e) => {
                        return Err(e.annotate("parse_command"));
                    },
                }
            } else if same(head, "new") {
                if n < 3 {
                    return Err(
                        ParseError::report_with("Missing argument in command: ", line.as_str()),
                    );
                }
                let inst = match pattern.blocks.get(args[1].as_str()) {
                    None => {
                        return Err(
                            ParseError::report_with("No template found: ", args[1].as_str()),
                        );
                    },
                    Some(block) => match block.generate(
                        args[2].clone(),
                        slice_subrange(args.as_slice(), 3, n),
                    ) {
                        Ok(inst) => inst,
                        Err(e) => {
                            return Err(e.annotate("block.generate"));
                        },
                    },
                };
                pattern.pipes.insert(args[2].clone(), inst);
            } else if same(head, "plug") {
                if n < 5 {
                    return Err(
                        ParseError::report_with("Missing argument in command: ", line.as_str()),
                    );
                }
                if !pattern.pipes.contains_key(args[2].as_str()) {
                    return Err(ParseError::report_with("No pipe found: ", args[2].as_str()));
                }
                if !pattern.pipes.contains_key(args[4].as_str()) {
                    return Err(ParseError::report_with("No pipe found: ", args[4].as_str()));
                }
                let ghost plugs = views(pattern.plugs@);
                let plug = Plug {
                    elem_a: args[1].clone(),
                    pipe_a: args[2].clone(),
                    elem_b: args[3].clone(),
                    pipe_b: args[4].clone(),
                };
                pattern.plugs.push(plug);
                assert(views(pattern.plugs@) =~= plugs.push(plug@));
            } else if same(head, "on") {
                if n < 2 {
                    return Err(
                        ParseError::report_with("Missing argument in command: ", line.as_str()),
                    );
                }
                let kind = args[1].as_str();
                if same(kind, "callback") {
                    if n < 4 {
                        return Err(
                            ParseError::report_with("Missing argument in command: ", line.as_str()),
                        );
                    }
                    if !pattern.pipes.contains_key(args[2].as_str()) {
                        return Err(ParseError::report_with("No element found: ", args[2].as_str()));
                    }
                    if !same(args[3].as_str(), "end") {
                        return Err(ParseError::report_with("Unknown callback: ", args[3].as_str()));
                    }
                    let actions = match parse_leading_event(
                        &pattern,
                        &tx,
                        slice_subrange(args.as_slice(), 4, n),
                        &mut cursor,
                    ) {
                        Ok(actions) => actions,
                        Err(e) => {
                            return Err(e.annotate("callback end"));
                        },
                    };
                    note_elements(
                        &mut pattern.element_checks,
                        &actions,
                        args[4].as_str(),
                        "callback end",
                    );
                    let ghost ends = views(pattern.end_events@);
                    let event = EndEvent { pipe: args[2].clone(), actions };
                    pattern.end_events.push(event);
                    assert(views(pattern.end_events@) =~= ends.push(event@));
                } else if same(kind, "pre") {
                    let mut actions = match parse_leading_event(
                        &pattern,
                        &tx,
                        slice_subrange(args.as_slice(), 2, n),
                        &mut cursor,
                    ) {
                        Ok(actions) => actions,
                        Err(e) => {
                            return Err(e.annotate("pre, parse"));
                        },
                    };
                    note_elements(
                        &mut pattern.element_checks,
                        &actions,
                        args[2].as_str(),
                        "pre, parse",
                    );
                    let ghost pre = views(pattern.pre_events@);
                    let ghost added = views(actions@);
                    pattern.pre_events.append(&mut actions);
                    assert(views(pattern.pre_events@) =~= pre + added);
                } else if same(kind, "progress") {
                    if n < 4 {
                        return Err(
                            ParseError::report_with("Missing argument in command: ", line.as_str()),
                        );
                    }
                    if !pattern.pipes.contains_key(args[2].as_str()) {
                        return Err(ParseError::report_with("No element found: ", args[2].as_str()));
                    }
                    let seconds = match parse_scaled(args[3].as_str(), 9) {
                        Some(s) => s,
                        None => {
                            return Err(ParseError::report("Failed to parse time"));
                        },
                    };
                    let actions = match parse_leading_event(
                        &pattern,
                        &tx,
                        slice_subrange(args.as_slice(), 4, n),
                        &mut cursor,
                    ) {
                        Ok(actions) => actions,
                        Err(e) => {
                            return Err(e.annotate("progress, parse"));
                        },
                    };
                    note_elements(
                        &mut pattern.element_checks,
                        &actions,
                        args[4].as_str(),
                        "progress, parse",
                    );
                    pattern.add_time_event(args[2].clone(), seconds.unsigned(), actions);
                } else {
                    return Err(ParseError::report_with("Unknown event type: ", kind));
                }
            } else {
                return Err(ParseError::report_with("Unknown command: ", head));
            }
            proof {
                assert(command(lines, p as int, before) == Ok::<(PatternView, int), Seq<char>>(
                    (pattern@, cursor.pos as int),
                ));
            }
        }
    }
}

} // verus!
