use story_zone::compile::{build_world, compile};
use story_zone::grammar::Expected;
use story_zone::zone::Zone;
use story_zone::script::{Command, FilterOperation, Line, Ops, TextPart};

fn zone_of(text: &str) -> Zone {
    let compiled = compile(text).expect("the script compiles");
    assert_eq!(compiled.rest, None);
    compiled.zone
}

fn label_list(text: &str) -> Vec<String> {
    zone_of(text).scene_names()
}

#[test]
fn compiles_the_two_scene_script() {
    let zone = zone_of("default:\n  (1) hello [shop|go shopping]\nshop:\n  * end\n");
    assert_eq!(zone.scene_names(), vec!["default".to_string(), "shop".to_string()]);
    let scenes = zone.scenes();
    assert_eq!(scenes[0].lines.len(), 1);
    match &scenes[0].lines[0] {
        Line::TextLine(text) => {
            assert!(!text.include_in_summary);
            match &text.filter.as_ref().unwrap().operation {
                FilterOperation::IntLiteral(1) => {}
                other => panic!("unexpected filter {:?}", other),
            }
            assert_eq!(text.parts.len(), 2);
            match &text.parts[0] {
                TextPart::Text(t) => assert_eq!(t, " hello "),
                other => panic!("unexpected part {:?}", other),
            }
            match &text.parts[1] {
                TextPart::Link(link) => {
                    assert_eq!(link.destination, "shop");
                    assert_eq!(link.text, "go shopping");
                }
                other => panic!("unexpected part {:?}", other),
            }
        }
        other => panic!("unexpected line {:?}", other),
    }
    assert!(matches!(scenes[1].lines[0], Line::CommandLine(Command::End)));
}

#[test]
fn nested_scenes_are_flattened_in_order() {
    let names = label_list("a:\n  one\n  b:\n    two\n    c:\n      three\n  d:\n    four\ne:\n  five\n");
    assert_eq!(names, vec!["a", "a.b", "a.b.c", "a.d", "e"]);
}

#[test]
fn branch_mark_is_read() {
    let zone = zone_of("menu: ??\n  pick [opt1|one]\n  opt1:\n    done\n");
    assert!(zone.scenes()[0].branch);
    assert!(!zone.scenes()[1].branch);
    assert_eq!(zone.scenes()[1].label, "menu.opt1");
}

#[test]
fn text_after_the_last_scene_is_left_unread() {
    let compiled = compile("a:\n  one\n!!!\n").unwrap();
    assert_eq!(compiled.rest, Some(9));
    assert_eq!(compiled.zone.scene_names(), vec!["a"]);
    let compiled = compile("a:\n  hi\n@@@").unwrap();
    assert_eq!(compiled.rest, Some(8));
    assert_eq!(compiled.zone.scene_names(), vec!["a"]);
    let zone = build_world("a:\n  hi\n@@@".to_string()).unwrap();
    assert_eq!(zone.scene_names(), vec!["a"]);
    let compiled = compile("a:\n  one\n  [bad\n  two\nb:\n  x\n").unwrap();
    assert_eq!(compiled.rest, Some(9));
    assert_eq!(compiled.zone.scene_names(), vec!["a"]);
    assert_eq!(compiled.zone.scenes()[0].lines.len(), 1);
    let compiled = compile("a\n").unwrap();
    assert_eq!(compiled.rest, Some(0));
    assert!(compiled.zone.scenes().is_empty());
}

#[test]
fn a_scene_that_cannot_be_read_is_an_error() {
    let err = compile("default:\n").unwrap_err();
    assert_eq!((err.position, err.expected), (9, Expected::Indentation));
    assert!(build_world("default:\n".to_string()).is_none());
    let err = compile("a:\nb:\n  x\n").unwrap_err();
    assert_eq!((err.position, err.expected), (3, Expected::Indentation));
    let err = compile("a: x\n").unwrap_err();
    assert_eq!((err.position, err.expected), (3, Expected::LineEnd));
    let err = compile("a: ?? x\n").unwrap_err();
    assert_eq!((err.position, err.expected), (5, Expected::LineEnd));
    let err = compile("a:\n  [\n").unwrap_err();
    assert_eq!((err.position, err.expected), (5, Expected::Entry));
    let err = compile("a:\n  one\nb:\n  two\nc:").unwrap_err();
    assert_eq!((err.position, err.expected), (20, Expected::LineEnd));
}

#[test]
fn the_empty_text_is_a_script_without_scenes() {
    let zone = zone_of("");
    assert!(zone.scenes().is_empty());
    assert_eq!(compile("\n\n  \n").unwrap().rest, None);
}

#[test]
fn precedence_of_the_filter_language() {
    let zone = zone_of("a:\n  (2 + 3 * 4 = 14) shown\n");
    let line = &zone.scenes()[0].lines[0];
    let filter = match line {
        Line::TextLine(text) => &text.filter.as_ref().unwrap().operation,
        other => panic!("unexpected line {:?}", other),
    };
    let top = match filter {
        FilterOperation::OperatorCall(call) => call,
        other => panic!("unexpected filter {:?}", other),
    };
    assert_eq!(top.operator, Ops::Eq);
    assert!(matches!(top.right, FilterOperation::IntLiteral(14)));
    let sum = match &top.left {
        FilterOperation::OperatorCall(call) => call,
        other => panic!("unexpected filter {:?}", other),
    };
    assert_eq!(sum.operator, Ops::Add);
    assert!(matches!(sum.left, FilterOperation::IntLiteral(2)));
    let product = match &sum.right {
        FilterOperation::OperatorCall(call) => call,
        other => panic!("unexpected filter {:?}", other),
    };
    assert_eq!(product.operator, Ops::Mul);
    assert!(matches!(product.left, FilterOperation::IntLiteral(3)));
    assert!(matches!(product.right, FilterOperation::IntLiteral(4)));
}

#[test]
fn header_seeds_items_and_variables() {
    let text = "* set_item gold\n  name: Gold coin\n  details: Shiny.\n* set lives = 3\n* set seen\n---\ndefault:\n  hi\n";
    let zone = zone_of(text);
    assert_eq!(zone.initialize.len(), 3);
    match &zone.initialize[0] {
        Command::SetItem(item) => {
            assert_eq!(item.key, "gold");
            assert_eq!(item.name.as_deref(), Some("Gold coin"));
            assert_eq!(item.details.as_deref(), Some("Shiny."));
        }
        other => panic!("unexpected command {:?}", other),
    }
    match &zone.initialize[1] {
        Command::Assign(set) => assert_eq!((set.name.as_str(), set.value), ("lives", 3)),
        other => panic!("unexpected command {:?}", other),
    }
    match &zone.initialize[2] {
        Command::Assign(set) => assert_eq!((set.name.as_str(), set.value), ("seen", 1)),
        other => panic!("unexpected command {:?}", other),
    }
}

#[test]
fn item_changes_add_up_and_minus_adds_nothing() {
    let zone = zone_of("a:\n  * item +gold +gold -key +gold\n");
    match &zone.scenes()[0].lines[0] {
        Line::CommandLine(Command::Item(items)) => {
            assert_eq!(items.change.get(&"gold".to_string()), Some(3));
            assert_eq!(items.change.get(&"key".to_string()), Some(0));
            assert_eq!(items.change.get(&"none".to_string()), None);
        }
        other => panic!("unexpected line {:?}", other),
    }
}

#[test]
fn links_resolve_to_the_nearest_scene() {
    let text = "a:\n  [x|to x]\n  x:\n    inner [x|again] [b|out]\nx:\n  outer\nb:\n  * next x\n";
    let zone = zone_of(text);
    let dest = |scene: usize, line: usize, part: usize| -> String {
        match &zone.scenes()[scene].lines[line] {
            Line::TextLine(text) => match &text.parts[part] {
                TextPart::Link(link) => link.destination.clone(),
                other => panic!("unexpected part {:?}", other),
            },
            other => panic!("unexpected line {:?}", other),
        }
    };
    assert_eq!(zone.scene_names(), vec!["a", "a.x", "x", "b"]);
    assert_eq!(dest(0, 0, 0), "a.x");
    assert_eq!(dest(1, 0, 1), "a.x");
    assert_eq!(dest(1, 0, 3), "b");
    match &zone.scenes()[3].lines[0] {
        Line::CommandLine(Command::Next(target)) => assert_eq!(target, "x"),
        other => panic!("unexpected line {:?}", other),
    }
}

#[test]
fn an_unknown_reference_is_kept_as_written() {
    let zone = zone_of("a:\n  [nowhere|go]\n");
    match &zone.scenes()[0].lines[0] {
        Line::TextLine(text) => match &text.parts[0] {
            TextPart::Link(link) => assert_eq!(link.destination, "nowhere"),
            other => panic!("unexpected part {:?}", other),
        },
        other => panic!("unexpected line {:?}", other),
    }
}

#[test]
fn an_integer_too_large_is_no_integer() {
    let zone = zone_of("a:\n  (2147483647) kept\n  (2147483648) odd\n");
    let filter = |line: usize| match &zone.scenes()[0].lines[line] {
        Line::TextLine(text) => match &text.filter.as_ref().unwrap().operation {
            FilterOperation::IntLiteral(v) => format!("int {}", v),
            FilterOperation::ReadVariable(name) => format!("var {}", name),
            other => panic!("unexpected filter {:?}", other),
        },
        other => panic!("unexpected line {:?}", other),
    };
    assert_eq!(filter(0), "int 2147483647");
    assert_eq!(filter(1), "var 2147483648");
}

#[test]
fn references_without_a_scene_are_listed() {
    let text = "a:\n  (#gone > 0) [nowhere|go] and [b|back]\n  * next away\n  * next b\nb:\n  (#a = 1 and #lost = 0) fine\n";
    let zone = zone_of(text);
    let bad: Vec<(String, String)> =
        zone.unresolved().into_iter().map(|bad| (bad.scene, bad.reference)).collect();
    let pair = |scene: &str, reference: &str| (scene.to_string(), reference.to_string());
    assert_eq!(bad, vec![pair("a", "gone"), pair("a", "nowhere"), pair("a", "away"), pair("b", "lost")]);
    assert!(zone_of("a:\n  [b|go]\nb:\n  [a|back]\n").unresolved().is_empty());
}

#[test]
fn a_label_used_twice_is_found() {
    assert_eq!(zone_of("a:\n  x\nb:\n  y\n").repeated_label(), None);
    let zone = zone_of("a:\n  x\nb:\n  y\na:\n  z\n");
    assert_eq!(zone.scene_names(), vec!["a", "b", "a"]);
    assert_eq!(zone.repeated_label(), Some(2));
    assert_eq!(zone.find_place(&"a".to_string()), Some(2));
    assert_eq!(zone.find_scene(&"b".to_string()).unwrap().label, "b");
    assert!(zone.find_scene(&"c".to_string()).is_none());
}

#[test]
fn resolving_a_full_label_keeps_it() {
    let zone = zone_of("a:\n  x\n  b:\n    y\nc:\n  z\n");
    let names = zone.scene_names();
    assert_eq!(names, vec!["a", "a.b", "c"]);
    for scene in zone.scenes() {
        for name in &names {
            assert_eq!(&scene._fix_label(&names, name), name);
        }
    }
    assert_eq!(zone.scenes()[0]._fix_label(&names, &"b".to_string()), "a.b");
    assert_eq!(zone.scenes()[1]._fix_label(&names, &"b".to_string()), "a.b");
    assert_eq!(zone.scenes()[2]._fix_label(&names, &"b".to_string()), "b");
}

#[test]
fn a_nearer_scene_answers_first() {
    let names: Vec<String> =
        vec!["a", "a.a", "a.a.b", "a.b"].into_iter().map(|n| n.to_string()).collect();
    let zone = zone_of("a:\n  x\n");
    assert_eq!(zone.scenes()[0]._fix_label(&names, &"a.b".to_string()), "a.a.b");
}

#[test]
fn labels_differ_and_the_index_points_back() {
    let text = "a:\n  one\n  b:\n    two\n    a:\n      three\n  c:\n    four\nb:\n  five\n  a:\n    six\n";
    let zone = zone_of(text);
    let names = zone.scene_names();
    assert_eq!(names, vec!["a", "a.b", "a.b.a", "a.c", "b", "b.a"]);
    assert_eq!(zone.repeated_label(), None);
    for (place, name) in names.iter().enumerate() {
        assert_eq!(zone.find_place(name), Some(place));
        assert_eq!(&zone.find_scene(name).unwrap().label, name);
    }
    assert_eq!(zone.find_place(&"a.a".to_string()), None);
}

#[test]
fn a_line_indented_deeper_is_text() {
    let zone = zone_of("a:\n  one\n     two\n  three\n");
    let texts: Vec<String> = zone.scenes()[0]
        .lines
        .iter()
        .map(|line| match line {
            Line::TextLine(text) => match &text.parts[0] {
                TextPart::Text(t) => t.clone(),
                other => panic!("unexpected part {:?}", other),
            },
            other => panic!("unexpected line {:?}", other),
        })
        .collect();
    assert_eq!(texts, vec!["one", "   two", "three"]);
}

#[test]
fn carriage_returns_and_blank_lines_are_line_ends() {
    let zone = zone_of("\r\n\na:  \r\n\r\n  one  \r\n\n  ? two\r\nb: ??\n  x\n");
    assert_eq!(zone.scene_names(), vec!["a", "b"]);
    assert_eq!(zone.scenes()[0].lines.len(), 2);
    match &zone.scenes()[0].lines[1] {
        Line::TextLine(text) => assert!(text.include_in_summary),
        other => panic!("unexpected line {:?}", other),
    }
    assert!(zone.scenes()[1].branch);
}

#[test]
fn a_header_that_cannot_be_read_is_an_error() {
    let err = compile("* end\n---\ndefault:\n  hi\n").unwrap_err();
    assert_eq!((err.position, err.expected), (0, Expected::HeaderCommand));
    let err = compile("* set x\n* item +gold\n---\ndefault:\n  hi\n").unwrap_err();
    assert_eq!((err.position, err.expected), (8, Expected::HeaderCommand));
    let err = compile("* set x\ndefault:\n  hi\n").unwrap_err();
    assert_eq!((err.position, err.expected), (8, Expected::HeaderEnd));
    let err = compile("\n--- x\ndefault:\n  hi\n").unwrap_err();
    assert_eq!((err.position, err.expected), (4, Expected::LineEnd));
    let zone = zone_of("---\ndefault:\n  hi\n");
    assert!(zone.initialize.is_empty());
    assert_eq!(zone.scene_names(), vec!["default"]);
}

#[test]
fn the_first_field_of_a_description_counts_most() {
    let text = "a:\n  * set_item k\n    name: first\n    name: second\n    name: third\n    other: x\n    details: d1\n  after\n";
    let zone = zone_of(text);
    match &zone.scenes()[0].lines[0] {
        Line::CommandLine(Command::SetItem(item)) => {
            assert_eq!(item.key, "k");
            assert_eq!(item.name.as_deref(), Some("first"));
            assert_eq!(item.details.as_deref(), Some("d1"));
        }
        other => panic!("unexpected line {:?}", other),
    }
    let text = "a:\n  * set_item k\n    other: x\n    name: second\n    name: third\n  after\n";
    let zone = zone_of(text);
    match &zone.scenes()[0].lines[0] {
        Line::CommandLine(Command::SetItem(item)) => {
            assert_eq!(item.name.as_deref(), Some("third"));
            assert_eq!(item.details, None);
        }
        other => panic!("unexpected line {:?}", other),
    }
    assert_eq!(zone.scenes()[0].lines.len(), 2);
}
