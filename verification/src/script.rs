//! The parts of a compiled script: commands, filter expressions, lines and
//! scenes, each with the mathematical value (its view) that contracts speak of.

use crate::table::Table;
use vstd::prelude::*;

verus! {

/// The characters of an optional string.
pub open spec fn opt_chars(s: Option<String>) -> Option<Seq<char>> {
    match s {
        Some(text) => Some(text@),
        None => None,
    }
}

/// A copy of an optional string.
pub fn copy_opt(s: &Option<String>) -> (r: Option<String>)
    ensures
        opt_chars(r) == opt_chars(*s),
{
    match s {
        Some(text) => Some(text.clone()),
        None => None,
    }
}

/// A change of the inventory: for each item key, the amount added to its count.
#[derive(Debug)]
pub struct ItemCommand {
    pub change: Table<i32>,
}

/// The assignment of a value to a variable.
#[derive(Debug)]
pub struct SetCommand {
    pub name: String,
    pub value: i32,
}

/// What is known of an item: its key, and the name and description shown for it.
#[derive(Debug)]
pub struct Item {
    pub key: String,
    pub name: Option<String>,
    pub details: Option<String>,
}

/// An item as a value: its strings as their characters.
pub struct ItemView {
    pub key: Seq<char>,
    pub name: Option<Seq<char>>,
    pub details: Option<Seq<char>>,
}

/// The item `old` after the fields that `new` sets have been taken from it.
pub open spec fn merge_item(old: ItemView, new: ItemView) -> ItemView {
    ItemView {
        key: old.key,
        name: if new.name is Some {
            new.name
        } else {
            old.name
        },
        details: if new.details is Some {
            new.details
        } else {
            old.details
        },
    }
}

impl View for Item {
    type V = ItemView;

    open spec fn view(&self) -> ItemView {
        ItemView { key: self.key@, name: opt_chars(self.name), details: opt_chars(self.details) }
    }
}

impl Clone for Item {
    fn clone(&self) -> (r: Self)
        ensures
            r@ == self@,
    {
        Item { key: self.key.clone(), name: copy_opt(&self.name), details: copy_opt(&self.details) }
    }
}

impl Item {
    /// Takes over the name and the details that `other` sets; a field that
    /// `other` leaves unset keeps its value.
    pub fn update(&mut self, other: &Item)
        ensures
            final(self)@ == merge_item(old(self)@, other@),
    {
        if let Some(val) = &other.name {
            self.name = Some(val.clone());
        }
        if let Some(val) = &other.details {
            self.details = Some(val.clone());
        }
    }
}

/// A command line of a script.
#[derive(Debug)]
pub enum Command {
    Item(ItemCommand),
    SetItem(Item),
    Next(String),
    End,
    Reset,
    Assign(SetCommand),
}

/// A command as a value: an item command as the pairs of its change, in
/// the order in which the items were first named.
pub enum CommandView {
    Item(Seq<(Seq<char>, i32)>),
    SetItem(ItemView),
    Next(Seq<char>),
    End,
    Reset,
    Assign(Seq<char>, i32),
}

impl View for Command {
    type V = CommandView;

    open spec fn view(&self) -> CommandView {
        match self {
            Command::Item(items) => CommandView::Item(items.change.pairs()),
            Command::SetItem(item) => CommandView::SetItem(item@),
            Command::Next(label) => CommandView::Next(label@),
            Command::End => CommandView::End,
            Command::Reset => CommandView::Reset,
            Command::Assign(set) => CommandView::Assign(set.name@, set.value),
        }
    }
}

impl Clone for Command {
    fn clone(&self) -> (r: Self)
        ensures
            r@ == self@,
    {
        match self {
            Command::Item(items) => Command::Item(ItemCommand { change: items.change.copy() }),
            Command::SetItem(item) => Command::SetItem(item.clone()),
            Command::Next(label) => Command::Next(label.clone()),
            Command::End => Command::End,
            Command::Reset => Command::Reset,
            Command::Assign(set) => Command::Assign(
                SetCommand { name: set.name.clone(), value: set.value },
            ),
        }
    }
}

/// The binary operators of the filter language.
#[derive(Debug, Clone, Copy, PartialEq, Eq, Structural)]
pub enum Ops {
    Add,
    Sub,
    Mul,
    Div,
    Gt,
    Gte,
    Lt,
    Lte,
    Eq,
    Ne,
    And,
    Or,
}

impl View for Ops {
    type V = Ops;

    open spec fn view(&self) -> Ops {
        *self
    }
}

/// A binary operator applied to two operands.
#[derive(Debug)]
pub struct OperatorCall {
    pub operator: Ops,
    pub left: FilterOperation,
    pub right: FilterOperation,
}

/// An expression of the filter language.
#[derive(Debug)]
pub enum FilterOperation {
    OperatorCall(Box<OperatorCall>),
    IntLiteral(i32),
    CountVisits(String),
    CountItems(String),
    ReadVariable(String),
}

/// A filter expression as a value.
pub enum FilterView {
    Call(Ops, Box<FilterView>, Box<FilterView>),
    Int(i32),
    Visits(Seq<char>),
    Items(Seq<char>),
    Variable(Seq<char>),
}

impl View for FilterOperation {
    type V = FilterView;

    open spec fn view(&self) -> FilterView
        decreases self,
    {
        match self {
            FilterOperation::OperatorCall(call) => FilterView::Call(
                call.operator,
                Box::new(call.left@),
                Box::new(call.right@),
            ),
            FilterOperation::IntLiteral(value) => FilterView::Int(*value),
            FilterOperation::CountVisits(label) => FilterView::Visits(label@),
            FilterOperation::CountItems(key) => FilterView::Items(key@),
            FilterOperation::ReadVariable(name) => FilterView::Variable(name@),
        }
    }
}

impl Clone for FilterOperation {
    fn clone(&self) -> (r: Self)
        ensures
            r@ == self@,
        decreases self,
    {
        match self {
            FilterOperation::OperatorCall(call) => FilterOperation::OperatorCall(
                Box::new(
                    OperatorCall {
                        operator: call.operator,
                        left: call.left.clone(),
                        right: call.right.clone(),
                    },
                ),
            ),
            FilterOperation::IntLiteral(value) => FilterOperation::IntLiteral(*value),
            FilterOperation::CountVisits(label) => FilterOperation::CountVisits(label.clone()),
            FilterOperation::CountItems(key) => FilterOperation::CountItems(key.clone()),
            FilterOperation::ReadVariable(name) => FilterOperation::ReadVariable(name.clone()),
        }
    }
}

/// The condition under which a text line is shown.
#[derive(Debug)]
pub struct LineFilter {
    pub operation: FilterOperation,
}

impl View for LineFilter {
    type V = FilterView;

    open spec fn view(&self) -> FilterView {
        self.operation@
    }
}

/// A link: the label it leads to and the text that is clicked.
#[derive(Debug)]
pub struct TextLink {
    pub destination: String,
    pub text: String,
}

/// A part of a text line.
#[derive(Debug)]
pub enum TextPart {
    Link(TextLink),
    Text(String),
}

/// A part of a text line as a value: a link as its destination and its
/// text.
pub enum PartView {
    Link(Seq<char>, Seq<char>),
    Text(Seq<char>),
}

impl View for TextPart {
    type V = PartView;

    open spec fn view(&self) -> PartView {
        match self {
            TextPart::Link(link) => PartView::Link(link.destination@, link.text@),
            TextPart::Text(text) => PartView::Text(text@),
        }
    }
}

impl Clone for TextPart {
    fn clone(&self) -> (r: Self)
        ensures
            r@ == self@,
    {
        match self {
            TextPart::Link(link) => TextPart::Link(
                TextLink { destination: link.destination.clone(), text: link.text.clone() },
            ),
            TextPart::Text(text) => TextPart::Text(text.clone()),
        }
    }
}

/// The views of a list of parts.
pub open spec fn part_views(parts: Seq<TextPart>) -> Seq<PartView> {
    Seq::new(parts.len(), |i: int| parts[i]@)
}

/// A line of text: its filter, whether it is kept in the log when a choice
/// is made, and its parts.
#[derive(Debug)]
pub struct TextLine {
    pub filter: Option<LineFilter>,
    pub include_in_summary: bool,
    pub parts: Vec<TextPart>,
}

/// A line of text as a value.
pub struct TextLineView {
    pub filter: Option<FilterView>,
    pub include_in_summary: bool,
    pub parts: Seq<PartView>,
}

impl View for TextLine {
    type V = TextLineView;

    open spec fn view(&self) -> TextLineView {
        TextLineView {
            filter: match self.filter {
                Some(f) => Some(f.operation@),
                None => None,
            },
            include_in_summary: self.include_in_summary,
            parts: part_views(self.parts@),
        }
    }
}

/// A copy of a list of parts.
pub fn copy_parts(parts: &Vec<TextPart>) -> (r: Vec<TextPart>)
    ensures
        part_views(r@) == part_views(parts@),
{
    let mut out: Vec<TextPart> = Vec::new();
    let mut i: usize = 0;
    while i < parts.len()
        invariant
            i <= parts@.len(),
            out@.len() == i,
            forall|j: int| 0 <= j < i ==> out@[j]@ == parts@[j]@,
        decreases parts@.len() - i,
    {
        out.push(parts[i].clone());
        i += 1;
    }
    assert(part_views(out@) =~= part_views(parts@));
    out
}

impl Clone for TextLine {
    fn clone(&self) -> (r: Self)
        ensures
            r@ == self@,
    {
        TextLine {
            filter: match &self.filter {
                Some(f) => Some(LineFilter { operation: f.operation.clone() }),
                None => None,
            },
            include_in_summary: self.include_in_summary,
            parts: copy_parts(&self.parts),
        }
    }
}

/// A line of a scene.
#[derive(Debug)]
pub enum Line {
    TextLine(TextLine),
    CommandLine(Command),
}

/// A line as a value.
pub enum LineView {
    Text(TextLineView),
    Command(CommandView),
}

impl View for Line {
    type V = LineView;

    open spec fn view(&self) -> LineView {
        match self {
            Line::TextLine(text) => LineView::Text(text@),
            Line::CommandLine(command) => LineView::Command(command@),
        }
    }
}

impl Clone for Line {
    fn clone(&self) -> (r: Self)
        ensures
            r@ == self@,
    {
        match self {
            Line::TextLine(text) => Line::TextLine(text.clone()),
            Line::CommandLine(command) => Line::CommandLine(command.clone()),
        }
    }
}

/// The views of a list of lines.
pub open spec fn line_views(lines: Seq<Line>) -> Seq<LineView> {
    Seq::new(lines.len(), |i: int| lines[i]@)
}

/// The views of a list of commands.
pub open spec fn command_views(commands: Seq<Command>) -> Seq<CommandView> {
    Seq::new(commands.len(), |i: int| commands[i]@)
}

/// A labelled block of lines. A branch scene is a menu: its lines are shown
/// together and none is stepped over.
#[derive(Debug)]
pub struct Scene {
    pub label: String,
    pub branch: bool,
    pub lines: Vec<Line>,
}

/// A scene as a value.
pub struct SceneView {
    pub label: Seq<char>,
    pub branch: bool,
    pub lines: Seq<LineView>,
}

impl View for Scene {
    type V = SceneView;

    open spec fn view(&self) -> SceneView {
        SceneView { label: self.label@, branch: self.branch, lines: line_views(self.lines@) }
    }
}

/// The views of a list of scenes.
pub open spec fn scene_views(scenes: Seq<Scene>) -> Seq<SceneView> {
    Seq::new(scenes.len(), |i: int| scenes[i]@)
}

} // verus!
