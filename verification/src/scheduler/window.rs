//! Which pipelines show their picture in a window, and where.

use vstd::prelude::*;
use vstd::string::*;
use crate::error::views;
use crate::script::{ParsedSetting, ParsedSettingView, PipeInstance, PipeInstanceView};
use crate::table::{Table, lookup};
use crate::text::same;

verus! {

/// A window to make for a pipeline: it has the pipeline's name.
#[derive(Debug)]
pub struct WindowSpec {
    pub name: String,
    pub x: i32,
    pub y: i32,
    pub width: i32,
    pub height: i32,
}

/// What a `WindowSpec` is in contracts: its texts as sequences of characters.
pub struct WindowSpecView {
    pub name: Seq<char>,
    pub x: i32,
    pub y: i32,
    pub width: i32,
    pub height: i32,
}

impl View for WindowSpec {
    type V = WindowSpecView;

    open spec fn view(&self) -> WindowSpecView {
        WindowSpecView {
            name: self.name@,
            x: self.x,
            y: self.y,
            width: self.width,
            height: self.height,
        }
    }
}

/// Whether the exported settings ask for a window: `gtktag` is the string
/// `window`.
pub open spec fn needs_window(exported: Seq<(Seq<char>, ParsedSettingView)>) -> bool {
    lookup(exported, "gtktag"@) == Some(ParsedSettingView::String("window"@))
}

/// The integer exported under `name`, as a coordinate; 0 where nothing is
/// exported under it, or no integer, or one that is no coordinate.
pub open spec fn int_setting(exported: Seq<(Seq<char>, ParsedSettingView)>, name: Seq<char>) -> i32 {
    match lookup(exported, name) {
        Some(ParsedSettingView::Int(i)) => if i32::MIN <= i <= i32::MAX {
            i as i32
        } else {
            0
        },
        _ => 0,
    }
}

/// The window that the settings describe for the pipeline `name`.
pub open spec fn window_of(name: Seq<char>, exported: Seq<(Seq<char>, ParsedSettingView)>) -> WindowSpecView {
    WindowSpecView {
        name,
        x: int_setting(exported, "x"@),
        y: int_setting(exported, "y"@),
        width: int_setting(exported, "width"@),
        height: int_setting(exported, "height"@),
    }
}

/// The windows of the pipelines `pipes`: one for each that asks for one, in
/// the order of the pipelines.
pub open spec fn window_specs(pipes: Seq<(Seq<char>, PipeInstanceView)>) -> Seq<WindowSpecView>
    decreases pipes.len(),
{
    if pipes.len() == 0 {
        Seq::empty()
    } else {
        let rest = window_specs(pipes.drop_last());
        let last = pipes.last();
        if needs_window(last.1.exported) {
            rest.push(window_of(last.0, last.1.exported))
        } else {
            rest
        }
    }
}

/// The first index at or after `from` of a window named `name`, or the
/// length of `windows` if there is none.
pub open spec fn window_position(windows: Seq<WindowSpecView>, name: Seq<char>, from: int) -> int
    decreases windows.len() - from,
{
    if 0 <= from < windows.len() && windows[from].name != name {
        window_position(windows, name, from + 1)
    } else {
        from
    }
}

/// Whether a window is named `name`.
pub open spec fn has_window(windows: Seq<WindowSpecView>, name: Seq<char>) -> bool {
    window_position(windows, name, 0) < windows.len()
}

/// The integer exported under `name`, as a coordinate, or 0.
pub fn exported_int(exported: &Table<ParsedSetting>, name: &str) -> (i: i32)
    ensures
        i == int_setting(exported@, name@),
{
    match exported.get(name) {
        Some(ParsedSetting::Int(i)) => {
            if -0x8000_0000 <= *i && *i <= 0x7fff_ffff {
                *i as i32
            } else {
                0
            }
        },
        _ => 0,
    }
}

/// Whether the exported settings ask for a window.
pub fn asks_for_window(exported: &Table<ParsedSetting>) -> (b: bool)
    ensures
        b == needs_window(exported@),
{
    match exported.get("gtktag") {
        Some(ParsedSetting::String(s)) => same(s.as_str(), "window"),
        _ => false,
    }
}

/// The windows to make for the pipelines `pipes`.
pub fn windows_for(pipes: &Table<PipeInstance>) -> (windows: Vec<WindowSpec>)
    ensures
        views(windows@) == window_specs(pipes@),
{
    let mut windows: Vec<WindowSpec> = Vec::new();
    let mut i: usize = 0;
    assert(views(windows@) =~= window_specs(pipes@.take(0)));
    while i < pipes.len()
        invariant
            i <= pipes@.len(),
            views(windows@) == window_specs(pipes@.take(i as int)),
        decreases pipes@.len() - i,
    {
        let inst = pipes.value_at(i);
        let ghost before = views(windows@);
        proof {
            assert(pipes@.take(i + 1).drop_last() =~= pipes@.take(i as int));
            assert(pipes@.take(i + 1).last() == pipes@[i as int]);
        }
        if asks_for_window(&inst.exported) {
            let w = WindowSpec {
                name: pipes.key_at(i).clone(),
                x: exported_int(&inst.exported, "x"),
                y: exported_int(&inst.exported, "y"),
                width: exported_int(&inst.exported, "width"),
                height: exported_int(&inst.exported, "height"),
            };
            windows.push(w);
            assert(views(windows@) =~= before.push(w@));
        }
        i += 1;
    }
    assert(pipes@.take(i as int) =~= pipes@);
    windows
}

/// Whether a window is named `name`.
pub fn is_window(windows: &Vec<WindowSpec>, name: &str) -> (b: bool)
    ensures
        b == has_window(views(windows@), name@),
{
    let mut i: usize = 0;
    while i < windows.len()
        invariant
            i <= windows.len(),
            window_position(views(windows@), name@, i as int) == window_position(
                views(windows@),
                name@,
                0,
            ),
        decreases windows.len() - i,
    {
        if same(windows[i].name.as_str(), name) {
            return true;
        }
        i += 1;
    }
    false
}

} // verus!
