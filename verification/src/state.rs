//! The state of one session: the log of what was shown, the place in the
//! script, the inventory, what is known of each item, the visit counts and
//! the variables.

use crate::filter::wrap;
use crate::script::{Command, CommandView, Item, ItemView, command_views, merge_item};
use crate::table::{Table, lookup, put};
use crate::text::string_views;
use std::collections::VecDeque;
use vstd::prelude::*;

verus! {

/// Whether the session goes on, has ended, or has ended and offers a restart.
#[derive(Debug, Clone, Copy, PartialEq, Eq, Structural)]
pub enum Status {
    Running,
    Finished,
    Reset,
}

/// The state of one session.
#[derive(Debug)]
pub struct State {
    pub log: VecDeque<String>,
    pub scene: String,
    pub line: usize,
    pub inventory: Table<i32>,
    pub items: Vec<Item>,
    pub visits: Table<u32>,
    pub values: Table<i32>,
    pub status: Status,
}

/// The state of a session as a value: each table as the list of its
/// pairs.
pub struct StateView {
    pub log: Seq<Seq<char>>,
    pub scene: Seq<char>,
    pub line: usize,
    pub inventory: Seq<(Seq<char>, i32)>,
    pub items: Seq<ItemView>,
    pub visits: Seq<(Seq<char>, u32)>,
    pub values: Seq<(Seq<char>, i32)>,
    pub status: Status,
}

/// The views of a list of items.
pub open spec fn item_views(items: Seq<Item>) -> Seq<ItemView> {
    Seq::new(items.len(), |i: int| items[i]@)
}

impl View for State {
    type V = StateView;

    open spec fn view(&self) -> StateView {
        StateView {
            log: string_views(self.log@),
            scene: self.scene@,
            line: self.line,
            inventory: self.inventory.pairs(),
            items: item_views(self.items@),
            visits: self.visits.pairs(),
            values: self.values.pairs(),
            status: self.status,
        }
    }
}

/// The number stored under `key`; 0 where the key is absent.
pub open spec fn count(pairs: Seq<(Seq<char>, i32)>, key: Seq<char>) -> i32 {
    match lookup(pairs, key) {
        Some(n) => n,
        None => 0,
    }
}

/// The inventory after each amount of `change` has been added, in order, to
/// the count of its key.
pub open spec fn add_all(inventory: Seq<(Seq<char>, i32)>, change: Seq<(Seq<char>, i32)>) -> Seq<
    (Seq<char>, i32),
>
    decreases change.len(),
{
    if change.len() == 0 {
        inventory
    } else {
        let before = add_all(inventory, change.drop_last());
        let (key, amount) = change.last();
        put(before, key, wrap(count(before, key) + amount))
    }
}

/// The number of visits recorded for `label`; 0 where there is none.
pub open spec fn visit_count(pairs: Seq<(Seq<char>, u32)>, label: Seq<char>) -> u32 {
    match lookup(pairs, label) {
        Some(n) => n,
        None => 0,
    }
}

/// The first place of an item with the key `key`.
pub open spec fn item_place(items: Seq<ItemView>, key: Seq<char>) -> Option<int>
    decreases items.len(),
{
    if items.len() == 0 {
        None
    } else {
        match item_place(items.drop_last(), key) {
            Some(i) => Some(i),
            None => if items.last().key == key {
                Some(items.len() - 1)
            } else {
                None
            },
        }
    }
}

/// `item_place` finds the first item with the key, and finds none only when
/// no item has it.
pub proof fn lemma_item_place(items: Seq<ItemView>, key: Seq<char>)
    ensures
        match item_place(items, key) {
            Some(i) => 0 <= i < items.len() && items[i].key == key && forall|j: int|
                0 <= j < i ==> items[j].key != key,
            None => forall|j: int| 0 <= j < items.len() ==> items[j].key != key,
        },
    decreases items.len(),
{
    if items.len() > 0 {
        let front = items.drop_last();
        lemma_item_place(front, key);
        assert(forall|j: int| 0 <= j < front.len() ==> front[j] == items[j]);
    }
}

/// The items after the item with the key of `item` has taken over the fields
/// that `item` sets; a new key is added at the end.
pub open spec fn upsert_item(items: Seq<ItemView>, item: ItemView) -> Seq<ItemView> {
    match item_place(items, item.key) {
        Some(i) => items.update(i, merge_item(items[i], item)),
        None => items.push(item),
    }
}

/// The items that the commands of a script's header describe: each
/// description adds to what was said of its item before.
pub open spec fn seed_items(init: Seq<CommandView>) -> Seq<ItemView>
    decreases init.len(),
{
    if init.len() == 0 {
        Seq::empty()
    } else {
        let before = seed_items(init.drop_last());
        match init.last() {
            CommandView::SetItem(item) => upsert_item(before, item),
            _ => before,
        }
    }
}

/// The variables that the commands of a script's header assign.
pub open spec fn seed_values(init: Seq<CommandView>) -> Seq<(Seq<char>, i32)>
    decreases init.len(),
{
    if init.len() == 0 {
        Seq::empty()
    } else {
        let before = seed_values(init.drop_last());
        match init.last() {
            CommandView::Assign(name, value) => put(before, name, value),
            _ => before,
        }
    }
}

/// The state in which a session starts: at line 0 of the scene `default`,
/// running, with an empty log, inventory and visit record, and with the items
/// and variables of the script's header.
pub open spec fn initial_state(init: Seq<CommandView>) -> StateView {
    StateView {
        log: Seq::empty(),
        scene: "default"@,
        line: 0,
        inventory: Seq::empty(),
        items: seed_items(init),
        visits: Seq::empty(),
        values: seed_values(init),
        status: Status::Running,
    }
}

/// One more visit, up to the largest number a count can hold.
pub open spec fn one_more(n: u32) -> u32 {
    if n < u32::MAX {
        (n + 1) as u32
    } else {
        n
    }
}

/// The state on entering the scene `label`: at its line 0, with one more
/// visit recorded for it.
pub open spec fn enter(st: StateView, label: Seq<char>) -> StateView {
    StateView {
        scene: label,
        line: 0,
        visits: put(st.visits, label, one_more(visit_count(st.visits, label))),
        ..st
    }
}

/// The place of the first item with the key `key`.
pub fn find_item(items: &Vec<Item>, key: &String) -> (r: Option<usize>)
    ensures
        match r {
            Some(i) => i < items@.len() && item_place(item_views(items@), key@) == Some(i as int),
            None => item_place(item_views(items@), key@) is None,
        },
{
    let mut i: usize = 0;
    while i < items.len()
        invariant
            i <= items@.len(),
            forall|j: int| 0 <= j < i ==> item_views(items@)[j].key != key@,
        decreases items@.len() - i,
    {
        if items[i].key == *key {
            proof {
                lemma_item_place(item_views(items@), key@);
                assert(item_views(items@)[i as int].key == key@);
            }
            return Some(i);
        }
        i += 1;
    }
    proof {
        lemma_item_place(item_views(items@), key@);
    }
    None
}

/// Lets the item with the key of `item` take over the fields that `item`
/// sets, or adds `item` at the end.
pub fn upsert(items: &mut Vec<Item>, item: &Item)
    ensures
        item_views(final(items)@) == upsert_item(item_views(old(items)@), item@),
{
    match find_item(items, &item.key) {
        Some(i) => {
            let mut merged = items[i].clone();
            merged.update(item);
            items.set(i, merged);
        },
        None => {
            items.push(item.clone());
        },
    }
    assert(item_views(items@) =~= upsert_item(item_views(old(items)@), item@));
}

/// A copy of a log.
pub fn copy_strings(strings: &VecDeque<String>) -> (r: VecDeque<String>)
    ensures
        string_views(r@) == string_views(strings@),
{
    let mut out: VecDeque<String> = VecDeque::new();
    let mut i: usize = 0;
    while i < strings.len()
        invariant
            i <= strings@.len(),
            out@.len() == i,
            forall|j: int| 0 <= j < i ==> out@[j]@ == strings@[j]@,
        decreases strings@.len() - i,
    {
        out.push_back(strings[i].clone());
        i += 1;
    }
    assert(string_views(out@) =~= string_views(strings@));
    out
}

/// A copy of a list of items.
pub fn copy_items(items: &Vec<Item>) -> (r: Vec<Item>)
    ensures
        item_views(r@) == item_views(items@),
{
    let mut out: Vec<Item> = Vec::new();
    let mut i: usize = 0;
    while i < items.len()
        invariant
            i <= items@.len(),
            out@.len() == i,
            forall|j: int| 0 <= j < i ==> out@[j]@ == items@[j]@,
        decreases items@.len() - i,
    {
        out.push(items[i].clone());
        i += 1;
    }
    assert(item_views(out@) =~= item_views(items@));
    out
}

impl Clone for State {
    fn clone(&self) -> (r: Self)
        ensures
            r@ == self@,
    {
        State {
            log: copy_strings(&self.log),
            scene: self.scene.clone(),
            line: self.line,
            inventory: self.inventory.copy(),
            items: copy_items(&self.items),
            visits: self.visits.copy(),
            values: self.values.copy(),
            status: self.status,
        }
    }
}

impl State {
    /// The state in which a session starts, seeded by the commands of the
    /// script's header.
    pub fn new(init: &Vec<Command>) -> (r: Self)
        ensures
            r@ == initial_state(command_views(init@)),
    {
        let mut items: Vec<Item> = Vec::new();
        let mut values: Table<i32> = Table::new();
        let mut i: usize = 0;
        assert(command_views(init@).take(0) =~= Seq::<CommandView>::empty());
        assert(item_views(items@) =~= Seq::<ItemView>::empty());
        while i < init.len()
            invariant
                i <= init@.len(),
                item_views(items@) == seed_items(command_views(init@).take(i as int)),
                values.pairs() == seed_values(command_views(init@).take(i as int)),
            decreases init@.len() - i,
        {
            proof {
                let all = command_views(init@);
                assert(all.take(i + 1).drop_last() =~= all.take(i as int));
                assert(all.take(i + 1).last() == init@[i as int]@);
            }
            match &init[i] {
                Command::SetItem(item) => {
                    upsert(&mut items, item);
                },
                Command::Assign(cmd) => {
                    values.insert(cmd.name.clone(), cmd.value);
                },
                _ => {},
            }
            i += 1;
        }
        proof {
            assert(command_views(init@).take(i as int) =~= command_views(init@));
        }
        let r = State {
            log: VecDeque::new(),
            scene: "default".to_string(),
            line: 0,
            inventory: Table::new(),
            items,
            visits: Table::new(),
            values,
            status: Status::Running,
        };
        assert(r@.log =~= Seq::<Seq<char>>::empty());
        r
    }

    /// The count of the item `name`; 0 where it was never counted.
    pub fn count_item(&self, name: &String) -> (r: i32)
        ensures
            r == count(self@.inventory, name@),
    {
        match self.inventory.get(name) {
            Some(value) => value,
            None => 0,
        }
    }

    /// The value of the variable `name`; 0 where it was never assigned.
    pub fn read_value(&self, name: &String) -> (r: i32)
        ensures
            r == count(self@.values, name@),
    {
        match self.values.get(name) {
            Some(value) => value,
            None => 0,
        }
    }

    /// The number of visits to the scene `name`; 0 where it was never entered.
    pub fn count_visits(&self, name: &String) -> (r: u32)
        ensures
            r == visit_count(self@.visits, name@),
    {
        match self.visits.get(name) {
            Some(value) => value,
            None => 0,
        }
    }

    /// Moves to line 0 of the scene `label` and records one more visit to it.
    pub fn enter(&mut self, label: &String)
        ensures
            final(self)@ == enter(old(self)@, label@),
    {
        let seen = self.count_visits(label);
        let more: u32 = if seen < u32::MAX {
            seen + 1
        } else {
            seen
        };
        self.line = 0;
        self.scene = label.clone();
        self.visits.insert(label.clone(), more);
    }
}

} // verus!
