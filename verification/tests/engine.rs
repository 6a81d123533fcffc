use std::rc::Rc;
use story_zone::compile::{build_world, compile};
use story_zone::engine::{Display, DisplayProperties, EngineError, SCENE_LIMIT};
use story_zone::script::{
    Command, FilterOperation, Item, ItemCommand, Line, LineFilter, OperatorCall, Ops, Scene,
    SetCommand, TextLine, TextLink, TextPart,
};
use story_zone::session::{Message, Reaction};
use story_zone::state::{State, Status};
use story_zone::table::Table;
use story_zone::zone::Zone;

fn session(text: &str) -> Display {
    let zone = build_world(text.to_string()).expect("the script compiles");
    Display::create(DisplayProperties { zone, session_key: "test".to_string() }, None)
}

fn s(text: &str) -> String {
    text.to_string()
}

fn call(operator: Ops, left: FilterOperation, right: FilterOperation) -> FilterOperation {
    FilterOperation::OperatorCall(Box::new(OperatorCall { operator, left, right }))
}

fn lit(value: i32) -> FilterOperation {
    FilterOperation::IntLiteral(value)
}

fn filter_of(text: &str) -> FilterOperation {
    let zone = compile(&format!("a:\n  ({}) x\n", text)).expect("the filter parses").zone;
    match &zone.scenes()[0].lines[0] {
        Line::TextLine(line) => line.filter.as_ref().expect("the line has a filter").operation.clone(),
        other => panic!("unexpected line {:?}", other),
    }
}

fn first_link(display: &Display) -> TextLink {
    let scene = display.current_scene().expect("the scene exists");
    for line in &scene.lines {
        if let Line::TextLine(text) = line {
            for part in &text.parts {
                if let TextPart::Link(link) = part {
                    return TextLink { destination: link.destination.clone(), text: link.text.clone() };
                }
            }
        }
    }
    panic!("no link in the scene");
}

#[test]
fn end_to_end_hello_shop() {
    let mut display = session("default:\n  (1) hello [shop|go shopping]\nshop:\n  * end\n");
    assert_eq!(display.state.scene, "default");
    assert_eq!(display.state.line, 0);
    assert_eq!(display.state.status, Status::Running);
    assert_eq!(display.build_control(), Some(vec![0]));
    let link = first_link(&display);
    assert_eq!(link.destination, "shop");
    assert_eq!(link.text, "go shopping");

    let reaction = display.update(Message::LinkClick(link)).unwrap();
    assert_eq!(reaction, Reaction { render: true, save: true });
    assert_eq!(display.state.scene, "shop");
    assert_eq!(display.state.status, Status::Finished);
    assert_eq!(display.state.count_visits(&s("shop")), 1);
    assert_eq!(
        display.state.log,
        vec![s("<span class=\"inline-disabled-button\">go shopping</span>")]
    );

    let log_before = display.state.log.clone();
    let line_before = display.state.line;
    let reaction = display.update(Message::NextLine).unwrap();
    assert_eq!(reaction, Reaction { render: false, save: false });
    assert_eq!(display.state.log, log_before);
    assert_eq!(display.state.line, line_before);
    assert_eq!(display.state.scene, "shop");
    assert_eq!(display.state.status, Status::Finished);
    let reaction = display
        .update(Message::LinkClick(TextLink { destination: s("default"), text: s("back") }))
        .unwrap();
    assert_eq!(reaction, Reaction { render: false, save: false });
    assert_eq!(display.state.log, log_before);
    assert_eq!(display.state.scene, "shop");
    let reaction = display.update(Message::KeyboardEvent(s(" "))).unwrap();
    assert_eq!(reaction, Reaction { render: false, save: false });
    assert_eq!(display.state.log, log_before);
}

#[test]
fn next_walks_the_siblings() {
    let zone = compile("a:\n  x\n  1:\n    one\n  2:\n    two\n  3:\n    three\n").unwrap().zone;
    assert_eq!(zone.scene_names(), vec!["a", "a.1", "a.2", "a.3"]);
    assert_eq!(zone.next(&s("a.1")).unwrap(), "a.2");
    assert_eq!(zone.next(&s("a.2")).unwrap(), "a.3");
    assert_eq!(zone.next(&s("a.3")).unwrap_err().name, "a.3");
    assert_eq!(zone.next(&s("a")).unwrap_err().name, "a");
    assert_eq!(zone.next(&s("nowhere")).unwrap_err().name, "nowhere");
}

#[test]
fn next_after_the_last_nested_scene() {
    let zone = compile("a:\n  x\n  1:\n    one\n  2:\n    two\nb:\n  y\n").unwrap().zone;
    assert_eq!(zone.scene_names(), vec!["a", "a.1", "a.2", "b"]);
    assert_eq!(zone.next(&s("a.1")).unwrap(), "a.2");
    assert_eq!(zone.next(&s("a")).unwrap(), "b");
    assert_eq!(zone.next(&s("a.2")).unwrap_err().name, "a.2");
}

#[test]
fn branch_return() {
    let mut display = session(
        "default:\n  * next menu\nmenu: ??\n  pick [opt1|one]\n  opt1:\n    first\n    second\nafter:\n  never\n",
    );
    assert_eq!(display.zone.next(&s("menu.opt1")).unwrap(), "menu");
    display.advance_line(false).unwrap();
    assert_eq!(display.state.scene, "menu");
    assert_eq!(display.accepts_next(), Some(false));
    let link = first_link(&display);
    assert_eq!(link.destination, "menu.opt1");
    display.update(Message::LinkClick(link)).unwrap();
    assert_eq!((display.state.scene.as_str(), display.state.line), ("menu.opt1", 0));
    display.update(Message::NextLine).unwrap();
    assert_eq!((display.state.scene.as_str(), display.state.line), ("menu.opt1", 1));
    display.update(Message::NextLine).unwrap();
    assert_eq!((display.state.scene.as_str(), display.state.line), ("menu", 0));
    assert_eq!(display.state.count_visits(&s("menu")), 2);
    assert_eq!(
        display.state.log,
        vec![
            s("<span class=\"inline-disabled-button\">one</span>"),
            s("first"),
            s("second"),
        ]
    );
}

#[test]
fn filter_evaluation() {
    let mut state = State::new(&Vec::new());
    assert_eq!(state.eval_filter(&filter_of("2 + 3 * 4 = 14")), 1);
    assert!(state.check_filter(&LineFilter { operation: filter_of("2 + 3 * 4 = 14") }));
    assert_eq!(state.eval_filter(&filter_of("2 + 3 * 4")), 14);
    assert_eq!(state.eval_filter(&filter_of("(2 + 3) * 4")), 20);
    assert_eq!(state.eval_filter(&filter_of("7 / 2")), 3);
    assert_eq!(state.eval_filter(&filter_of("7 - 9")), -2);
    assert_eq!(state.eval_filter(&filter_of("1 or (1/0)")), 1);
    assert_eq!(state.eval_filter(&filter_of("1/0")), 0);
    assert_eq!(state.eval_filter(&filter_of("0 and (1/0)")), 0);
    assert_eq!(state.eval_filter(&filter_of("0 or 5")), 5);
    assert_eq!(state.eval_filter(&filter_of("3 and 5")), 5);
    assert_eq!(state.eval_filter(&filter_of("2 >= 2")), 1);
    assert_eq!(state.eval_filter(&filter_of("2 > 2")), 0);
    assert_eq!(state.eval_filter(&filter_of("1 <= 2")), 1);
    assert_eq!(state.eval_filter(&filter_of("1 < 1")), 0);
    assert_eq!(state.eval_filter(&filter_of("1 != 2")), 1);
    assert_eq!(state.eval_filter(&filter_of("1 == 2")), 0);

    let gold_and_shop = filter_of("$gold >= 10 and #shop = 0");
    assert_eq!(state.eval_filter(&gold_and_shop), 0);
    state.inventory.insert(s("gold"), 10);
    assert_eq!(state.eval_filter(&gold_and_shop), 1);
    state.enter(&s("shop"));
    assert_eq!(state.eval_filter(&gold_and_shop), 0);
    state.inventory.insert(s("gold"), 9);
    assert_eq!(state.eval_filter(&gold_and_shop), 0);

    state.values.insert(s("lives"), 3);
    assert_eq!(state.eval_filter(&filter_of("lives * 2")), 6);
    assert_eq!(state.eval_filter(&filter_of("unset")), 0);
}

#[test]
fn arithmetic_wraps_and_division_truncates() {
    let state = State::new(&Vec::new());
    assert_eq!(state.eval_filter(&call(Ops::Add, lit(i32::MAX), lit(1))), i32::MIN);
    assert_eq!(state.eval_filter(&call(Ops::Sub, lit(i32::MIN), lit(1))), i32::MAX);
    assert_eq!(state.eval_filter(&call(Ops::Mul, lit(65536), lit(65536))), 0);
    assert_eq!(state.eval_filter(&call(Ops::Mul, lit(i32::MAX), lit(2))), -2);
    assert_eq!(state.eval_filter(&call(Ops::Div, lit(-7), lit(2))), -3);
    assert_eq!(state.eval_filter(&call(Ops::Div, lit(7), lit(-2))), -3);
    assert_eq!(state.eval_filter(&call(Ops::Div, lit(-7), lit(-2))), 3);
    assert_eq!(state.eval_filter(&call(Ops::Div, lit(i32::MIN), lit(-1))), i32::MIN);
    assert_eq!(state.eval_filter(&call(Ops::Div, lit(5), lit(0))), 0);
}

#[test]
fn inventory_accumulation() {
    let mut state = State::new(&Vec::new());
    let mut change = Table::new();
    change.insert(s("gold"), 1);
    let command = Command::Item(ItemCommand { change });
    assert_eq!(state.count_item(&s("gold")), 0);
    state.apply(&command);
    assert_eq!(state.count_item(&s("gold")), 1);
    state.apply(&command);
    assert_eq!(state.count_item(&s("gold")), 2);
    assert_eq!(state.count_item(&s("silver")), 0);
}

#[test]
fn state_starts_from_the_header() {
    let init = vec![
        Command::SetItem(Item { key: s("gold"), name: Some(s("Gold")), details: None }),
        Command::Assign(SetCommand { name: s("lives"), value: 3 }),
        Command::SetItem(Item { key: s("gold"), name: None, details: Some(s("Shiny")) }),
        Command::Assign(SetCommand { name: s("lives"), value: 4 }),
        Command::End,
    ];
    let state = State::new(&init);
    assert_eq!(state.scene, "default");
    assert_eq!(state.line, 0);
    assert_eq!(state.status, Status::Running);
    assert!(state.log.is_empty());
    assert!(state.inventory.entries.is_empty());
    assert!(state.visits.entries.is_empty());
    assert_eq!(state.read_value(&s("lives")), 4);
    assert_eq!(state.items.len(), 1);
    assert_eq!(state.items[0].key, "gold");
    assert_eq!(state.items[0].name.as_deref(), Some("Gold"));
    assert_eq!(state.items[0].details.as_deref(), Some("Shiny"));
}

#[test]
fn item_update_keeps_unset_fields() {
    let mut item = Item { key: s("gold"), name: Some(s("Gold")), details: Some(s("Old")) };
    item.update(&Item { key: s("other"), name: None, details: Some(s("New")) });
    assert_eq!(item.key, "gold");
    assert_eq!(item.name.as_deref(), Some("Gold"));
    assert_eq!(item.details.as_deref(), Some("New"));
    item.update(&Item { key: s("gold"), name: Some(s("Coin")), details: None });
    assert_eq!(item.name.as_deref(), Some("Coin"));
    assert_eq!(item.details.as_deref(), Some("New"));
}

#[test]
fn set_item_command_merges_into_known_item() {
    let mut state = State::new(&vec![Command::SetItem(Item {
        key: s("gold"),
        name: Some(s("Gold")),
        details: None,
    })]);
    state.apply(&Command::SetItem(Item { key: s("gold"), name: None, details: Some(s("Shiny")) }));
    state.apply(&Command::SetItem(Item { key: s("key"), name: Some(s("Key")), details: None }));
    assert_eq!(state.items.len(), 2);
    assert_eq!(state.items[0].name.as_deref(), Some("Gold"));
    assert_eq!(state.items[0].details.as_deref(), Some("Shiny"));
    assert_eq!(state.items[1].key, "key");
}

#[test]
fn settling_skips_filtered_lines_and_runs_commands() {
    let mut display = session(
        "default:\n  * item +gold +gold\n  * set seen = 7\n  (0) hidden\n  ($gold = 2) rich\n  (seen = 8) no\n  last\nnext:\n  * reset\n",
    );
    display.advance_line(false).unwrap();
    assert_eq!((display.state.scene.as_str(), display.state.line), ("default", 3));
    assert_eq!(display.state.count_item(&s("gold")), 2);
    assert_eq!(display.state.read_value(&s("seen")), 7);
    assert_eq!(display.build_control(), Some(vec![3]));
    assert_eq!(display.accepts_next(), Some(true));
    display.update(Message::NextLine).unwrap();
    assert_eq!((display.state.scene.as_str(), display.state.line), ("default", 5));
    display.update(Message::KeyboardEvent(s("x"))).unwrap();
    assert_eq!((display.state.scene.as_str(), display.state.line), ("default", 5));
    let reaction = display.update(Message::KeyboardEvent(s(" "))).unwrap();
    assert_eq!(reaction, Reaction { render: true, save: false });
    assert_eq!((display.state.scene.as_str(), display.state.line), ("next", 0));
    assert_eq!(display.state.status, Status::Reset);
    assert_eq!(display.state.log, vec![s(" rich"), s("last")]);
    assert_eq!(display.accepts_next(), Some(false));

    let reaction = display.update(Message::Reset).unwrap();
    assert_eq!(reaction, Reaction { render: true, save: true });
    assert_eq!(display.state.status, Status::Running);
    assert_eq!((display.state.scene.as_str(), display.state.line), ("default", 0));
    assert!(display.state.log.is_empty());
    assert_eq!(display.state.count_item(&s("gold")), 0);
}

#[test]
fn a_script_that_runs_in_circles_is_stopped() {
    let mut display = session("default:\n  * next default\n");
    let before = display.state.clone();
    let link = TextLink { destination: s("default"), text: s("again") };
    match display.update(Message::LinkClick(link)) {
        Err(EngineError::TooManyScenes) => {}
        other => panic!("unexpected outcome {:?}", other),
    }
    assert!(display.state.log.is_empty());
    assert_eq!(display.state.scene, before.scene);
    assert_eq!(display.state.line, before.line);
    assert_eq!(display.state.count_visits(&s("default")), 0);
    match display.advance_line(false) {
        Err(EngineError::TooManyScenes) => {}
        other => panic!("unexpected outcome {:?}", other),
    }
    assert_eq!(display.state.count_visits(&s("default")) as usize, SCENE_LIMIT + 1);
}

#[test]
fn a_missing_scene_is_a_fault_that_changes_nothing() {
    let mut display = session("start:\n  hello\n  * next nowhere\n");
    assert!(display.current_scene().is_none());
    assert_eq!(display.build_control(), None);
    match display.update(Message::NextLine) {
        Err(EngineError::BadSceneName(name)) => assert_eq!(name, "default"),
        other => panic!("unexpected outcome {:?}", other),
    }
    assert_eq!(display.state.scene, "default");
    assert!(display.state.log.is_empty());

    let link = TextLink { destination: s("start"), text: s("go") };
    display.state.scene = s("start");
    display.update(Message::LinkClick(link)).unwrap();
    assert_eq!((display.state.scene.as_str(), display.state.line), ("start", 0));
    let log_before = display.state.log.clone();
    match display.update(Message::NextLine) {
        Err(EngineError::BadSceneName(name)) => assert_eq!(name, "nowhere"),
        other => panic!("unexpected outcome {:?}", other),
    }
    assert_eq!((display.state.scene.as_str(), display.state.line), ("start", 0));
    assert_eq!(display.state.log, log_before);
    assert_eq!(display.state.count_visits(&s("nowhere")), 0);
}

#[test]
fn a_menu_logs_the_lines_it_keeps() {
    let mut display = session(
        "default: ??\n  ? What now\n  not kept\n  ?(0) kept though hidden\n  [a|Go] or [b|Stay]\n  a:\n    * end\n  b:\n    * end\n",
    );
    assert_eq!(display.build_control(), Some(vec![0, 1, 3]));
    let link = TextLink { destination: s("default.b"), text: s("Stay") };
    display.update(Message::LinkClick(link)).unwrap();
    assert_eq!(
        display.state.log,
        vec![
            s("What now"),
            s(" kept though hidden"),
            s("<span class=\"inline-disabled-button\">Stay</span>"),
        ]
    );
    assert_eq!(display.state.scene, "default.b");
    assert_eq!(display.state.status, Status::Finished);
}

#[test]
fn inventory_entries() {
    let text = "* set_item gold\n  name: Gold coin\n  details: Shiny.\n* set_item rope\n  name: Rope\n---\ndefault:\n  * item +gold +gold +rope +mud -dust\n  done\n";
    let mut display = session(text);
    display.advance_line(false).unwrap();
    let entries = display.build_inventory();
    let seen: Vec<(String, Option<i32>, Option<String>)> =
        entries.into_iter().map(|e| (e.title, e.count, e.details)).collect();
    assert_eq!(
        seen,
        vec![
            (s("Gold coin"), Some(2), Some(s("Shiny."))),
            (s("Rope"), None, None),
            (s("mud"), Some(1), None),
            (s("dust"), Some(0), None),
        ]
    );
}

#[test]
fn a_restored_state_is_taken_up() {
    let zone: Rc<_> = build_world(s("default:\n  one\n  two\n")).unwrap();
    let mut saved = State::new(&Vec::new());
    saved.line = 1;
    saved.log.push_back(s("one"));
    let display = Display::create(
        DisplayProperties { zone: zone.clone(), session_key: s("k") },
        Some(saved),
    );
    assert_eq!(display.state.line, 1);
    assert_eq!(display.state.log, vec![s("one")]);
    assert_eq!(display.session_key, "k");
    let fresh = Display::create(DisplayProperties { zone, session_key: s("k") }, None);
    assert_eq!(fresh.state.line, 0);
    assert!(fresh.state.log.is_empty());
}

#[test]
fn execute_command_says_whether_to_go_on() {
    let mut display = session("default:\n  one\nother:\n  (0) no\n  yes\n");
    assert_eq!(display.execute_command(&Command::End).unwrap(), false);
    assert_eq!(display.state.status, Status::Finished);
    assert_eq!(display.execute_command(&Command::Reset).unwrap(), false);
    assert_eq!(display.state.status, Status::Reset);
    let set = Command::Assign(SetCommand { name: s("x"), value: 5 });
    assert_eq!(display.execute_command(&set).unwrap(), true);
    assert_eq!(display.state.read_value(&s("x")), 5);
    assert_eq!(display.execute_command(&Command::Next(s("other"))).unwrap(), false);
    assert_eq!((display.state.scene.as_str(), display.state.line), ("other", 1));
    display.advance_scene().unwrap_err();
    display.state.scene = s("default");
    display.advance_scene().unwrap();
    assert_eq!((display.state.scene.as_str(), display.state.line), ("other", 1));
    assert_eq!(display.state.count_visits(&s("other")), 2);
}

fn text(filter: Option<i32>, words: &str) -> Line {
    Line::TextLine(TextLine {
        filter: filter.map(|value| LineFilter { operation: lit(value) }),
        include_in_summary: false,
        parts: vec![TextPart::Text(s(words))],
    })
}

#[test]
fn a_run_of_hidden_lines_longer_than_the_limit_is_followed() {
    let hidden = SCENE_LIMIT + 5;
    let mut lines: Vec<Line> = Vec::new();
    for _ in 0..hidden {
        lines.push(text(Some(0), "hidden"));
    }
    lines.push(Line::CommandLine(Command::Assign(SetCommand { name: s("x"), value: 2 })));
    lines.push(text(Some(1), "shown"));
    let zone = Zone::new(vec![Scene { label: s("default"), branch: false, lines }], Vec::new());
    let mut display = Display::create(
        DisplayProperties { zone: Rc::new(zone), session_key: s("k") },
        None,
    );
    display.advance_line(false).unwrap();
    assert_eq!((display.state.scene.as_str(), display.state.line), ("default", hidden + 1));
    assert_eq!(display.state.read_value(&s("x")), 2);
    assert_eq!(display.build_control(), Some(vec![hidden + 1]));
    display.state.line = 0;
    let reaction = display.update(Message::NextLine).unwrap();
    assert_eq!(reaction, Reaction { render: true, save: true });
    assert_eq!(display.state.line, hidden + 1);
}

#[test]
fn a_later_description_in_the_header_adds_to_an_earlier_one() {
    let state = State::new(&vec![
        Command::SetItem(Item { key: s("k"), name: Some(s("A")), details: None }),
        Command::SetItem(Item { key: s("k"), name: None, details: Some(s("D")) }),
    ]);
    assert_eq!(state.items.len(), 1);
    assert_eq!(state.items[0].key, "k");
    assert_eq!(state.items[0].name.as_deref(), Some("A"));
    assert_eq!(state.items[0].details.as_deref(), Some("D"));
}

#[test]
fn the_last_line_of_a_choice_leads_back_to_the_menu() {
    let text = "menu: ??\n  pick [opt1|one]\n  opt1:\n    only\n";
    let zone = build_world(text.to_string()).unwrap();
    let mut state = State::new(&Vec::new());
    state.scene = s("menu.opt1");
    state.visits.insert(s("menu"), 7);
    let mut display =
        Display::create(DisplayProperties { zone, session_key: s("k") }, Some(state));
    display.advance_line(true).unwrap();
    assert_eq!((display.state.scene.as_str(), display.state.line), ("menu", 0));
    assert_eq!(display.state.count_visits(&s("menu")), 8);
    assert_eq!(display.state.status, Status::Running);
}
