use live_mix::script::action::{Orientation, PropertyValue};
use live_mix::script::{export, resolve, ParsedSetting, Pattern, Template};
use live_mix::text::LineCursor;

fn owned(v: &[&str]) -> Vec<String> {
    v.iter().map(|s| s.to_string()).collect()
}

fn template(header: &[&str], body: &[&str]) -> Template {
    let mut cursor = LineCursor::new(owned(body));
    Template::parse_command(&owned(header), &mut cursor).unwrap().1
}

#[test]
fn a_template_has_a_header_and_a_body() {
    let mut cursor = LineCursor::new(owned(&["e p int 5", "raw x int $1", "  e   q string $2", "war", "next"]));
    let (name, t) = Template::parse_command(&owned(&["name", "2", "a", "!", "b"]), &mut cursor).unwrap();
    assert_eq!(name, "name");
    assert_eq!(t.arg_count(), 2);
    assert_eq!(t.pipeline(), "a ! b");
    assert_eq!(t.settings().len(), 2);
    assert_eq!(t.settings()[0].target, "e");
    assert_eq!(t.settings()[0].instructions.len(), 2);
    assert_eq!(t.settings()[0].instructions[0].prop, "p");
    assert_eq!(t.settings()[0].instructions[0].type_, "int");
    assert_eq!(t.settings()[0].instructions[0].value, "5");
    assert_eq!(t.settings()[0].instructions[1].prop, "q");
    assert_eq!(t.settings()[0].instructions[1].value, "$2");
    assert_eq!(t.settings()[1].target, "raw");
    assert_eq!(t.settings()[1].instructions[0].prop, "x");
    assert_eq!(cursor.pos, 4);
}

#[test]
fn a_template_may_have_no_description_and_no_body() {
    let mut cursor = LineCursor::new(owned(&["warp anything"]));
    let (name, t) = Template::parse_command(&owned(&["n", "0"]), &mut cursor).unwrap();
    assert_eq!(name, "n");
    assert_eq!(t.pipeline(), "");
    assert_eq!(t.arg_count(), 0);
    assert!(t.settings().is_empty());
    assert_eq!(cursor.pos, 1);
}

#[test]
fn a_header_needs_a_name_and_a_count() {
    let mut cursor = LineCursor::new(owned(&["war"]));
    let e = Template::parse_command(&owned(&["only"]), &mut cursor).err().unwrap();
    assert_eq!(e.message(), "Missing name or parameter count of custom pipeline");
    assert_eq!(cursor.pos, 0);
}

#[test]
fn a_count_that_is_no_number_is_reported_with_its_text() {
    let mut cursor = LineCursor::new(owned(&["war"]));
    let e = Template::parse_command(&owned(&["n", "two", "x"]), &mut cursor).err().unwrap();
    assert_eq!(e.message(), "could not parse parameter count: two");
    assert_eq!(cursor.pos, 0);
}

#[test]
fn a_body_line_has_four_words() {
    let mut cursor = LineCursor::new(owned(&["e p int 5", "e p int", "war"]));
    let e = Template::parse_command(&owned(&["n", "0", "x"]), &mut cursor).err().unwrap();
    assert_eq!(e.message(), "Incorrect number of arguments in custom pipeline instruction: e p int");
    assert_eq!(cursor.pos, 2);
    assert_eq!(cursor.lines[cursor.pos], "war");
    let mut cursor = LineCursor::new(owned(&["e p string a b", "war"]));
    assert!(Template::parse_command(&owned(&["n", "0", "x"]), &mut cursor).is_err());
    assert_eq!(cursor.pos, 1);
    assert_eq!(cursor.lines[cursor.pos], "war");
}

#[test]
fn a_body_must_be_closed() {
    let mut cursor = LineCursor::new(owned(&["e p int 5"]));
    let e = Template::parse_command(&owned(&["n", "0", "x"]), &mut cursor).err().unwrap();
    assert_eq!(e.message(), "Iterator ended before constructing custom pipeline");
    assert_eq!(cursor.pos, 1);
    assert!(cursor.is_done());
    let mut cursor = LineCursor::new(Vec::new());
    assert!(Template::parse_command(&owned(&["n", "0", "x"]), &mut cursor).is_err());
    assert_eq!(cursor.pos, 0);
}

#[test]
fn a_wrong_number_of_arguments_makes_no_instance() {
    let t = template(&["n", "2", "src"], &["war"]);
    for args in [owned(&[]), owned(&["a"]), owned(&["a", "b", "c"])] {
        let e = t.generate("p".to_string(), &args).err().unwrap();
        assert_eq!(e.message(), "Incorrect number of arguments");
    }
    assert!(t.generate("p".to_string(), &owned(&["a", "b"])).is_ok());
}

#[test]
fn a_reference_stands_for_the_argument_of_its_number() {
    let args = owned(&["first", "second", "third"]);
    assert_eq!(resolve("$1", &args).unwrap(), "first");
    assert_eq!(resolve("$2", &args).unwrap(), "second");
    assert_eq!(resolve("$3", &args).unwrap(), "third");
    assert_eq!(resolve("$+2", &args).unwrap(), "second");
    assert_eq!(resolve("literal", &args).unwrap(), "literal");
    assert_eq!(resolve("", &args).unwrap(), "");
    assert_eq!(resolve("a$1", &args).unwrap(), "a$1");
}

#[test]
fn a_reference_outside_the_arguments_fails() {
    let args = owned(&["first", "second"]);
    assert_eq!(resolve("$0", &args).err().unwrap().message(), "Argument index less than one");
    assert_eq!(
        resolve("$3", &args).err().unwrap().message(),
        "Argument index greater than number of arguments"
    );
    assert_eq!(resolve("$x", &args).err().unwrap().message(), "Could not parse argument index");
    assert_eq!(resolve("$", &args).err().unwrap().message(), "Could not parse argument index");
    assert!(resolve("$1", &[]).is_err());
}

#[test]
fn a_bad_reference_fails_the_instantiation() {
    let t = template(&["n", "1", "src"], &["e p string $1", "e q string $2", "war"]);
    let e = t.generate("p".to_string(), &owned(&["a"])).err().unwrap();
    assert_eq!(e.message(), "Argument index greater than number of arguments");
    let t = template(&["n", "1", "src"], &["raw p string $0", "war"]);
    assert!(t.generate("p".to_string(), &owned(&["a"])).is_err());
}

#[test]
fn an_instance_sets_properties_and_exports_settings() {
    let t = template(
        &["n", "2", "filesrc", "name=src", "!", "sink"],
        &["src location string $1", "raw x int $2", "flip method GstOrientation 2", "raw tag string lit", "src level float 0.5", "war"],
    );
    let inst = t.generate("pipe".to_string(), &owned(&["/tmp/a.mp3", "-7"])).unwrap();
    assert_eq!(inst.name, "pipe");
    assert_eq!(inst.description, "filesrc name=src ! sink");
    assert_eq!(inst.assignments.len(), 3);
    assert_eq!(inst.assignments[0].pipe, "pipe");
    assert_eq!(inst.assignments[0].element, "src");
    assert_eq!(inst.assignments[0].prop, "location");
    assert!(matches!(&inst.assignments[0].value, PropertyValue::Text(s) if s == "/tmp/a.mp3"));
    assert_eq!(inst.assignments[1].element, "src");
    assert!(matches!(&inst.assignments[1].value, PropertyValue::Float(s) if s == "0.5"));
    assert_eq!(inst.assignments[2].element, "flip");
    assert!(matches!(&inst.assignments[2].value, PropertyValue::Turn(Orientation::Half)));
    assert_eq!(inst.exported.len(), 2);
    assert!(matches!(inst.exported.get("x"), Some(ParsedSetting::Int(-7))));
    assert!(matches!(inst.exported.get("tag"), Some(ParsedSetting::String(s)) if s == "lit"));
}

#[test]
fn a_later_export_replaces_an_earlier_one() {
    let t = template(&["n", "0", "src"], &["raw x int 1", "raw y int 2", "raw x int 3", "war"]);
    let inst = t.generate("p".to_string(), &[]).unwrap();
    assert_eq!(inst.exported.len(), 2);
    assert_eq!(inst.exported.key_at(0), "x");
    assert!(matches!(inst.exported.get("x"), Some(ParsedSetting::Int(3))));
    assert!(matches!(inst.exported.get("y"), Some(ParsedSetting::Int(2))));
}

#[test]
fn a_value_that_its_type_refuses_fails_the_instantiation() {
    let t = template(&["n", "1", "src"], &["e p int $1", "war"]);
    let e = t.generate("p".to_string(), &owned(&["abc"])).err().unwrap();
    assert_eq!(e.message(), "set_property: Unable to parse abc as int");
    let t = template(&["n", "1", "src"], &["raw p int $1", "war"]);
    let e = t.generate("p".to_string(), &owned(&["abc"])).err().unwrap();
    assert_eq!(e.message(), "Failed to parse setting as int");
    let t = template(&["n", "0", "src"], &["raw p bool true", "war"]);
    assert_eq!(t.generate("p".to_string(), &[]).err().unwrap().message(), "Unknown type: bool");
}

#[test]
fn exported_settings_are_read_by_their_type() {
    assert!(matches!(export("int", "12".to_string()), Ok(ParsedSetting::Int(12))));
    assert!(matches!(export("float", "1.5".to_string()), Ok(ParsedSetting::Float(s)) if s == "1.5"));
    assert!(matches!(export("string", "a b".to_string()), Ok(ParsedSetting::String(s)) if s == "a b"));
    assert_eq!(
        export("float", "fast".to_string()).err().unwrap().message(),
        "Failed to parse setting as float"
    );
    assert!(export("GstOrientation", "1".to_string()).is_err());
}

#[test]
fn templates_are_built_step_by_step() {
    let mut t = Template::new("src ! sink".to_string(), 3);
    assert_eq!(t.pipeline(), "src ! sink");
    assert_eq!(t.arg_count(), 3);
    assert!(t.settings().is_empty());
    let ins = |p: &str| live_mix::script::Instruction {
        prop: p.to_string(),
        type_: "int".to_string(),
        value: "1".to_string(),
    };
    t.add_instruction("a".to_string(), ins("p"));
    t.add_instruction("b".to_string(), ins("q"));
    t.add_instruction("a".to_string(), ins("r"));
    assert_eq!(t.settings().len(), 2);
    assert_eq!(t.settings()[0].target, "a");
    assert_eq!(t.settings()[0].instructions.len(), 2);
    assert_eq!(t.settings()[0].instructions[1].prop, "r");
    assert_eq!(t.settings()[1].target, "b");
}

#[test]
fn the_presets_are_what_their_scripts_describe() {
    let p = Pattern::default();
    assert!(p.listen.is_none());
    assert_eq!(p.blocks.len(), 4);
    assert_eq!(p.blocks.key_at(0), "mp3input");
    assert_eq!(p.blocks.key_at(1), "mp4input");
    assert_eq!(p.blocks.key_at(2), "xoutput");
    assert_eq!(p.blocks.key_at(3), "aoutput");
    let scripts = [
        "raw mp3input 1 filesrc name=src ! decodebin     ! audioconvert ! audioresample ! proxysink name=audio_out\nsrc location string $1\nwar",
        "raw mp4input 1 filesrc name=src ! decodebin name=demux     demux. ! videoconvert ! proxysink name=video_out     demux. ! audioconvert ! audioresample ! proxysink name=audio_out\nsrc location string $1\nwar",
        "raw xoutput 4 proxysrc name=video_in ! xvimagesink name=sink\nraw gtktag string window\nraw x int $1\nraw y int $2\nraw width int $3\nraw height int $4\nwar",
        "raw aoutput 0 proxysrc name=audio_in ! alsasink name=sink\nwar",
    ];
    for (i, script) in scripts.iter().enumerate() {
        let mut lines = script.split('\n');
        let header: Vec<String> = lines.next().unwrap().split_whitespace().skip(1).map(|s| s.to_string()).collect();
        let mut cursor = LineCursor::new(lines.map(|s| s.to_string()).collect());
        let (name, t) = Template::parse_command(&header, &mut cursor).unwrap();
        assert_eq!(p.blocks.key_at(i), &name);
        assert_eq!(format!("{:?}", p.blocks.value_at(i)), format!("{:?}", t));
    }
}
