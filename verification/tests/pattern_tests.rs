use live_mix::script::action::{Action, Effect, EventAction, PlayState, PropertyValue};
use live_mix::script::{ParsedSetting, Pattern};

fn error_of(script: &str) -> String {
    Pattern::parse_pattern(script).err().unwrap().message()
}

#[test]
fn the_empty_script_has_the_presets_only() {
    let p = Pattern::parse_pattern("").unwrap();
    assert_eq!(p.blocks.len(), 4);
    assert_eq!(p.pipes.len(), 0);
    assert!(p.listen.is_some());
    assert!(p.time_events.is_empty());
    assert!(p.pre_events.is_empty());
    assert!(p.end_events.is_empty());
    assert!(p.plugs.is_empty());
}

#[test]
fn comments_and_empty_lines_are_not_commands() {
    let p = Pattern::parse_pattern("// a script\n\nnew aoutput out\n\n// done\n").unwrap();
    assert_eq!(p.pipes.len(), 1);
    assert_eq!(p.pipes.key_at(0), "out");
}

#[test]
fn raw_defines_a_template() {
    let p = Pattern::parse_pattern("raw tone 1 audiotestsrc name=src ! proxysink name=audio_out\nsrc freq int $1\nwar\nnew tone t 440").unwrap();
    assert_eq!(p.blocks.len(), 5);
    assert_eq!(p.blocks.key_at(4), "tone");
    let t = p.blocks.get("tone").unwrap();
    assert_eq!(t.pipeline(), "audiotestsrc name=src ! proxysink name=audio_out");
    assert_eq!(t.arg_count(), 1);
    let inst = p.pipes.get("t").unwrap();
    assert_eq!(inst.name, "t");
    assert_eq!(inst.description, "audiotestsrc name=src ! proxysink name=audio_out");
    assert_eq!(inst.assignments.len(), 1);
    assert_eq!(inst.assignments[0].element, "src");
    assert!(matches!(inst.assignments[0].value, PropertyValue::Int(440)));
}

#[test]
fn raw_may_replace_a_preset() {
    let p = Pattern::parse_pattern("raw aoutput 0 fakesink\nwar").unwrap();
    assert_eq!(p.blocks.len(), 4);
    assert_eq!(p.blocks.key_at(3), "aoutput");
    assert_eq!(p.blocks.get("aoutput").unwrap().pipeline(), "fakesink");
}

#[test]
fn new_makes_an_instance_of_a_preset() {
    let p = Pattern::parse_pattern("new mp3input in /tmp/a.mp3\nnew xoutput win 10 20 640 480").unwrap();
    assert_eq!(p.pipes.len(), 2);
    let input = p.pipes.get("in").unwrap();
    assert_eq!(input.description, "filesrc name=src ! decodebin ! audioconvert ! audioresample ! proxysink name=audio_out");
    assert_eq!(input.assignments.len(), 1);
    assert_eq!(input.assignments[0].pipe, "in");
    assert_eq!(input.assignments[0].element, "src");
    assert_eq!(input.assignments[0].prop, "location");
    assert!(matches!(&input.assignments[0].value, PropertyValue::Text(s) if s == "/tmp/a.mp3"));
    assert_eq!(input.exported.len(), 0);
    let win = p.pipes.get("win").unwrap();
    assert!(win.assignments.is_empty());
    assert!(matches!(win.exported.get("gtktag"), Some(ParsedSetting::String(s)) if s == "window"));
    assert!(matches!(win.exported.get("x"), Some(ParsedSetting::Int(10))));
    assert!(matches!(win.exported.get("y"), Some(ParsedSetting::Int(20))));
    assert!(matches!(win.exported.get("width"), Some(ParsedSetting::Int(640))));
    assert!(matches!(win.exported.get("height"), Some(ParsedSetting::Int(480))));
}

#[test]
fn new_with_a_wrong_number_of_arguments_creates_no_pipe() {
    assert_eq!(error_of("new mp3input in"), "block.generate: Incorrect number of arguments");
    assert_eq!(error_of("new mp3input in a b"), "block.generate: Incorrect number of arguments");
    assert_eq!(error_of("new aoutput out extra"), "block.generate: Incorrect number of arguments");
    assert_eq!(error_of("new xoutput win 0 0 ten 10"), "block.generate: Failed to parse setting as int");
}

#[test]
fn new_needs_a_known_template() {
    assert_eq!(error_of("new nothing x"), "No template found: nothing");
    assert_eq!(error_of("new aoutput"), "Missing argument in command: new aoutput");
}

#[test]
fn a_template_error_names_its_context() {
    assert_eq!(error_of("raw t one x\nwar"), "parse_command: could not parse parameter count: one");
    assert_eq!(error_of("raw t 1 x\nsrc a b"), "parse_command: Incorrect number of arguments in custom pipeline instruction: src a b");
    assert_eq!(error_of("raw t 1 x"), "parse_command: Iterator ended before constructing custom pipeline");
}

#[test]
fn plug_bridges_two_known_pipes() {
    let p = Pattern::parse_pattern("new mp3input in a.mp3\nnew aoutput out\nplug audio_out in audio_in out").unwrap();
    assert_eq!(p.plugs.len(), 1);
    assert_eq!(p.plugs[0].elem_a, "audio_out");
    assert_eq!(p.plugs[0].pipe_a, "in");
    assert_eq!(p.plugs[0].elem_b, "audio_in");
    assert_eq!(p.plugs[0].pipe_b, "out");
    assert_eq!(error_of("new aoutput out\nplug a in b out"), "No pipe found: in");
    assert_eq!(error_of("new aoutput out\nplug a out b other"), "No pipe found: other");
    assert_eq!(error_of("new aoutput out\nplug a out b"), "Missing argument in command: plug a out b");
    assert_eq!(error_of("plug a out b out\nnew aoutput out"), "No pipe found: out");
}

#[test]
fn on_pre_appends_to_the_start_up_actions() {
    let p = Pattern::parse_pattern("new aoutput out\non pre act out play start\non pre wrap\nact out play pause\nact out play stop\nparw\non pre terminate").unwrap();
    assert_eq!(p.pre_events.len(), 4);
    assert!(matches!(&p.pre_events[0], Action::Play(a) if a.action == PlayState::Start));
    assert!(matches!(&p.pre_events[1], Action::Play(a) if a.action == PlayState::Pause));
    assert!(matches!(&p.pre_events[2], Action::Play(a) if a.action == PlayState::Stop));
    assert!(matches!(&p.pre_events[3], Action::Window(a) if a.action == "terminate" && a.window.is_empty()));
    assert!(matches!(p.pre_events[3].exec(), Effect::Sent));
    assert_eq!(p.listen.as_ref().unwrap().try_recv(), Some(" terminate".to_string()));
}

#[test]
fn on_callback_registers_actions_for_the_end_of_a_stream() {
    let p = Pattern::parse_pattern("new aoutput out\non callback out end wrap\nparw\non callback out end act out play stop").unwrap();
    assert_eq!(p.end_events.len(), 2);
    assert_eq!(p.end_events[0].pipe, "out");
    assert!(p.end_events[0].actions.is_empty());
    assert_eq!(p.end_events[1].actions.len(), 1);
    assert_eq!(error_of("on callback out end terminate"), "No element found: out");
    assert_eq!(error_of("new aoutput out\non callback out begin terminate"), "Unknown callback: begin");
    assert_eq!(error_of("new aoutput out\non callback out end act out fly"), "callback end: act: Unknown event type: fly");
    assert_eq!(error_of("new aoutput out\non callback out"), "Missing argument in command: on callback out");
}

#[test]
fn on_progress_registers_actions_for_a_threshold() {
    let p = Pattern::parse_pattern("new aoutput out\nnew aoutput two\non progress out 2.0 act out play pause\non progress two 2.0 terminate\non progress out 0.5 wrap\nparw").unwrap();
    assert_eq!(p.time_events.len(), 3);
    assert_eq!(p.time_events[0].pipe, "out");
    assert_eq!(p.time_events[0].nanos, 2_000_000_000);
    assert_eq!(p.time_events[0].actions.len(), 1);
    assert_eq!(p.time_events[1].pipe, "two");
    assert_eq!(p.time_events[1].nanos, 2_000_000_000);
    assert_eq!(p.time_events[2].pipe, "out");
    assert_eq!(p.time_events[2].nanos, 500_000_000);
    assert!(p.time_events[2].actions.is_empty());
}

#[test]
fn actions_for_the_same_threshold_are_merged_in_order() {
    let p = Pattern::parse_pattern("new aoutput out\non progress out 2.0 act out play pause\non progress out 1 act out play ready\non progress out 2 act out play stop").unwrap();
    assert_eq!(p.time_events.len(), 2);
    assert_eq!(p.time_events[0].nanos, 2_000_000_000);
    assert_eq!(p.time_events[0].actions.len(), 2);
    assert!(matches!(&p.time_events[0].actions[0], Action::Play(a) if a.action == PlayState::Pause));
    assert!(matches!(&p.time_events[0].actions[1], Action::Play(a) if a.action == PlayState::Stop));
    assert_eq!(p.time_events[1].nanos, 1_000_000_000);
}

#[test]
fn on_progress_needs_a_known_pipe_and_a_time() {
    assert_eq!(error_of("on progress out 2.0 terminate"), "No element found: out");
    assert_eq!(error_of("new aoutput out\non progress out soon terminate"), "Failed to parse time");
    assert_eq!(error_of("new aoutput out\non progress out 2 maybe"), "progress, parse: Unknown condition: maybe");
    assert_eq!(error_of("new aoutput out\non progress out 2"), "progress, parse: Missing condition");
    assert_eq!(error_of("new aoutput out\non progress out"), "Missing argument in command: on progress out");
    assert_eq!(error_of("new aoutput out\non progress out -1 terminate\nnope"), "Unknown command: nope");
}

#[test]
fn a_threshold_may_be_any_float() {
    let p = Pattern::parse_pattern("new aoutput out\non progress out 2e0 terminate\non progress out 20e-1 terminate\non progress out inf terminate\non progress out nan terminate").unwrap();
    assert_eq!(p.time_events.len(), 3);
    assert_eq!(p.time_events[0].nanos, 2_000_000_000);
    assert_eq!(p.time_events[0].actions.len(), 2);
    assert_eq!(p.time_events[1].nanos, u64::MAX);
    assert_eq!(p.time_events[2].nanos, 0);
}

#[test]
fn a_negative_threshold_is_zero() {
    let p = Pattern::parse_pattern("new aoutput out\non progress out -1 terminate").unwrap();
    assert_eq!(p.time_events[0].nanos, 0);
}

#[test]
fn unknown_commands_are_reported_with_their_word() {
    assert_eq!(error_of("fly away"), "Unknown command: fly");
    assert_eq!(error_of("   "), "Unknown command: ");
    assert_eq!(error_of("on"), "Missing argument in command: on");
    assert_eq!(error_of("on later terminate"), "Unknown event type: later");
    assert_eq!(error_of("on pre"), "pre, parse: Missing condition");
    assert_eq!(error_of("on pre wrap\nact x play start"), "pre, parse: wrap: Unknown pipeline: x");
    assert_eq!(error_of("on pre wrap"), "pre, parse: Iterator ended before closing the action block");
}

#[test]
fn a_pipe_must_exist_before_it_is_named() {
    assert_eq!(error_of("on pre act out play start\nnew aoutput out"), "pre, parse: act: Unknown pipeline: out");
    assert!(Pattern::parse_pattern("new aoutput out\non pre act out play start").is_ok());
}

#[test]
fn a_pipe_made_twice_is_the_later_one() {
    let p = Pattern::parse_pattern("new mp3input a one.mp3\nnew aoutput b\nnew mp3input a two.mp3").unwrap();
    assert_eq!(p.pipes.len(), 2);
    assert_eq!(p.pipes.key_at(0), "a");
    assert!(matches!(&p.pipes.get("a").unwrap().assignments[0].value, PropertyValue::Text(s) if s == "two.mp3"));
}

#[test]
fn a_pattern_hands_out_what_is_to_be_built() {
    let mut pattern = Pattern::parse_pattern(
        "new mp3input in a.mp3\nnew aoutput out\nplug audio_out in audio_in out\non callback in end wrap\nact in seek 0 1\nact in play start\nparw\non pre act out prop sink volume float 0.5",
    )
    .unwrap();
    let mut built: Vec<(String, String, usize)> = Vec::new();
    for i in 0..pattern.pipes.len() {
        let inst = pattern.pipes.value_at(i);
        assert_eq!(&inst.name, pattern.pipes.key_at(i));
        built.push((pattern.pipes.key_at(i).clone(), inst.description.clone(), inst.assignments.len()));
    }
    assert_eq!(built.len(), 2);
    assert_eq!(built[0].2, 1);
    let ends = std::mem::take(&mut pattern.end_events);
    assert!(pattern.end_events.is_empty());
    assert_eq!(ends.len(), 1);
    let mut asked: Vec<String> = Vec::new();
    for event in ends {
        let actions = event.actions;
        let run = move || {
            let mut seen = Vec::new();
            for a in &actions {
                match a.exec() {
                    Effect::Seek { pipe, rate, position } => seen.push(format!("seek {} {} {}", pipe, rate, position)),
                    Effect::SetState { pipe, state } => seen.push(format!("state {} {:?}", pipe, state)),
                    other => panic!("{:?}", other),
                }
            }
            seen
        };
        asked.extend(run());
    }
    assert_eq!(asked, vec!["seek in 1 0".to_string(), "state in Start".to_string()]);
    match pattern.pre_events[0].exec() {
        Effect::SetProperty(set) => {
            assert_eq!((set.pipe.as_str(), set.element.as_str(), set.prop.as_str()), ("out", "sink", "volume"));
            assert!(matches!(&set.value, PropertyValue::Float(text) if text.parse::<f64>() == Ok(0.5)));
        }
        other => panic!("{:?}", other),
    }
}

#[test]
fn the_elements_that_actions_name_are_noted_with_their_context() {
    let p = Pattern::parse_pattern(
        "new aoutput out\non pre act out prop sink volume float 0.5\non progress out 1 wrap\nact out play start\nact out prop vol level int 3\nparw\non callback out end act out prop eq band string low",
    )
    .unwrap();
    let noted: Vec<(&str, &str, &str)> = p
        .element_checks
        .iter()
        .map(|c| (c.pipe.as_str(), c.element.as_str(), c.failure.as_str()))
        .collect();
    assert_eq!(
        noted,
        vec![
            ("out", "sink", "pre, parse: act: Unknown element: sink"),
            ("out", "vol", "progress, parse: wrap: Unknown element: vol"),
            ("out", "eq", "callback end: act: Unknown element: eq"),
        ]
    );
    assert!(Pattern::parse_pattern("new aoutput out\non pre act out play start").unwrap().element_checks.is_empty());
}
