//! The script language, as functions from a text and a position in it to what
//! stands there. A rule that matches yields its value and the number of
//! characters it takes; alternatives are tried in order and the first match
//! is kept; a repetition takes as many items as match.

use crate::script::{
    CommandView, FilterView, ItemView, LineView, Ops, PartView, SceneView, TextLineView,
};
use crate::state::add_all;
use vstd::prelude::*;

verus! {

/// The classes of characters that the rules are built from.
#[derive(Clone, Copy, PartialEq, Eq, Structural, Debug)]
pub enum Class {
    /// The space character.
    Space,
    /// A space, a tab, a carriage return or a line feed.
    Blank,
    /// An ASCII decimal digit.
    Digit,
    /// An ASCII letter or digit.
    Alnum,
    /// What may follow the first character of a symbol.
    SymbolTail,
    /// What may follow the first character of a variable's name.
    VarTail,
    /// What a run of text is made of.
    Text,
}

/// An ASCII decimal digit.
pub open spec fn is_digit(c: char) -> bool {
    '0' <= c <= '9'
}

/// An ASCII letter or decimal digit.
pub open spec fn is_alnum(c: char) -> bool {
    ('a' <= c <= 'z') || ('A' <= c <= 'Z') || is_digit(c)
}

/// A punctuation mark that may stand in text.
pub open spec fn is_text_mark(c: char) -> bool {
    c == ',' || c == '\'' || c == '"' || c == '!' || c == '?' || c == '<' || c == '/' || c == '>'
        || c == '(' || c == ')' || c == ' ' || c == '.'
}

impl Class {
    /// Whether `c` is of the class.
    pub open spec fn holds(self, c: char) -> bool {
        match self {
            Class::Space => c == ' ',
            Class::Blank => c == ' ' || c == '\t' || c == '\r' || c == '\n',
            Class::Digit => is_digit(c),
            Class::Alnum => is_alnum(c),
            Class::SymbolTail => is_alnum(c) || c == '-' || c == '_',
            Class::VarTail => is_alnum(c) || c == '_',
            Class::Text => is_alnum(c) || is_text_mark(c),
        }
    }
}

/// How much of the text is left at position `i`.
pub open spec fn left(s: Seq<char>, i: int) -> nat {
    if i <= s.len() {
        (s.len() - i) as nat
    } else {
        0
    }
}

/// The number of characters of the class that stand in a row at `i`.
pub open spec fn run(s: Seq<char>, i: int, class: Class) -> nat
    decreases left(s, i),
{
    if 0 <= i < s.len() && class.holds(s[i]) {
        1 + run(s, i + 1, class)
    } else {
        0
    }
}

/// Whether the character `c` stands at `i`.
pub open spec fn at(s: Seq<char>, i: int, c: char) -> bool {
    0 <= i < s.len() && s[i] == c
}

/// Whether the characters `w` stand at `i`.
pub open spec fn word(s: Seq<char>, i: int, w: Seq<char>) -> bool {
    0 <= i && i + w.len() <= s.len() && s.subrange(i, i + w.len()) == w
}

/// The end of a line: spaces, then a line feed, alone or after a carriage
/// return.
pub open spec fn line_end(s: Seq<char>, i: int) -> Option<nat> {
    let n = run(s, i, Class::Space);
    if at(s, i + n, '\n') {
        Some(n + 1)
    } else if at(s, i + n, '\r') && at(s, i + n + 1, '\n') {
        Some(n + 2)
    } else {
        None
    }
}

/// As many line ends as stand in a row at `i`.
pub open spec fn line_ends(s: Seq<char>, i: int) -> nat
    decreases left(s, i),
{
    match line_end(s, i) {
        Some(n) => n + line_ends(s, i + n),
        None => 0,
    }
}

/// One line end or more.
pub open spec fn line_ends1(s: Seq<char>, i: int) -> Option<nat> {
    if line_end(s, i) is Some {
        Some(line_ends(s, i))
    } else {
        None
    }
}

/// A letter or digit, then as many characters of the class `tail` as
/// follow.
pub open spec fn name(s: Seq<char>, i: int, tail: Class) -> Option<(Seq<char>, nat)> {
    if 0 <= i < s.len() && is_alnum(s[i]) {
        let n = 1 + run(s, i + 1, tail);
        Some((s.subrange(i, i + n), n))
    } else {
        None
    }
}

/// A symbol: a letter or digit, then letters, digits, `-` and `_`.
pub open spec fn symbol(s: Seq<char>, i: int) -> Option<(Seq<char>, nat)> {
    name(s, i, Class::SymbolTail)
}

/// The name of a variable: a letter or digit, then letters, digits and `_`.
pub open spec fn var_symbol(s: Seq<char>, i: int) -> Option<(Seq<char>, nat)> {
    name(s, i, Class::VarTail)
}

/// A label: a symbol and a colon.
pub open spec fn label(s: Seq<char>, i: int) -> Option<(Seq<char>, nat)> {
    match symbol(s, i) {
        Some((text, n)) => if at(s, i + n, ':') {
            Some((text, n + 1))
        } else {
            None
        },
        None => None,
    }
}

/// A run of text: one character or more of letters, digits and the
/// punctuation that text may hold.
pub open spec fn raw_text_fragment(s: Seq<char>, i: int) -> Option<(Seq<char>, nat)> {
    let n = run(s, i, Class::Text);
    if n > 0 {
        Some((s.subrange(i, i + n), n))
    } else {
        None
    }
}

/// The number that the decimal digits `digits` write.
pub open spec fn number(digits: Seq<char>) -> int
    decreases digits.len(),
{
    if digits.len() == 0 {
        0
    } else {
        number(digits.drop_last()) * 10 + (digits.last() as int - '0' as int)
    }
}

/// An integer: one decimal digit or more, writing a number that a 32-bit
/// signed integer holds.
pub open spec fn int_literal(s: Seq<char>, i: int) -> Option<(i32, nat)> {
    let n = run(s, i, Class::Digit);
    if n > 0 && number(s.subrange(i, i + n)) <= i32::MAX {
        Some((number(s.subrange(i, i + n)) as i32, n))
    } else {
        None
    }
}

/// The operator sign of the given level that stands at `i`, and its length.
/// The levels, from the one that binds tightest: 1 for `*` and `/`, 2 for
/// `+` and `-`, 3 for the comparisons, 4 for equality, 5 for `and`, 6 for
/// `or`.
pub open spec fn sign(level: nat, s: Seq<char>, i: int) -> Option<(Ops, nat)> {
    if level == 1 {
        if at(s, i, '*') {
            Some((Ops::Mul, 1))
        } else if at(s, i, '/') {
            Some((Ops::Div, 1))
        } else {
            None
        }
    } else if level == 2 {
        if at(s, i, '+') {
            Some((Ops::Add, 1))
        } else if at(s, i, '-') {
            Some((Ops::Sub, 1))
        } else {
            None
        }
    } else if level == 3 {
        if at(s, i, '>') && at(s, i + 1, '=') {
            Some((Ops::Gte, 2))
        } else if at(s, i, '<') && at(s, i + 1, '=') {
            Some((Ops::Lte, 2))
        } else if at(s, i, '>') {
            Some((Ops::Gt, 1))
        } else if at(s, i, '<') {
            Some((Ops::Lt, 1))
        } else {
            None
        }
    } else if level == 4 {
        if at(s, i, '!') && at(s, i + 1, '=') {
            Some((Ops::Ne, 2))
        } else if at(s, i, '=') && at(s, i + 1, '=') {
            Some((Ops::Eq, 2))
        } else if at(s, i, '=') {
            Some((Ops::Eq, 1))
        } else {
            None
        }
    } else if level == 5 {
        if at(s, i, 'a') && at(s, i + 1, 'n') && at(s, i + 2, 'd') {
            Some((Ops::And, 3))
        } else {
            None
        }
    } else if level == 6 {
        if at(s, i, 'o') && at(s, i + 1, 'r') {
            Some((Ops::Or, 2))
        } else {
            None
        }
    } else {
        None
    }
}

/// An operator of the given level, with the spaces before and after it.
pub open spec fn operator(level: nat, s: Seq<char>, i: int) -> Option<(Ops, nat)> {
    let before = run(s, i, Class::Space);
    match sign(level, s, i + before) {
        Some((op, n)) => Some((op, before + n + run(s, i + before + n, Class::Space))),
        None => None,
    }
}

/// The level of a whole expression.
pub open spec fn top_level() -> nat {
    6
}

/// An expression of the given level: at level 0 an atom, above that an
/// expression of the level below and as many pairs of an operator of this
/// level and an expression of the level below as follow, taken from the left.
pub open spec fn expr(s: Seq<char>, i: int, level: nat) -> Option<(FilterView, nat)>
    decreases left(s, i), level, 1nat,
{
    if level == 0 {
        if at(s, i, '(') {
            match expr(s, i + 1, top_level()) {
                Some((inner, n)) => if at(s, i + 1 + n, ')') {
                    Some((inner, n + 2))
                } else {
                    None
                },
                None => None,
            }
        } else if int_literal(s, i) is Some {
            let (value, n) = int_literal(s, i).unwrap();
            Some((FilterView::Int(value), n))
        } else if at(s, i, '#') && symbol(s, i + 1) is Some {
            let (text, n) = symbol(s, i + 1).unwrap();
            Some((FilterView::Visits(text), n + 1))
        } else if at(s, i, '$') && symbol(s, i + 1) is Some {
            let (text, n) = symbol(s, i + 1).unwrap();
            Some((FilterView::Items(text), n + 1))
        } else {
            match var_symbol(s, i) {
                Some((text, n)) => Some((FilterView::Variable(text), n)),
                None => None,
            }
        }
    } else {
        match expr(s, i, (level - 1) as nat) {
            Some((first, n)) => {
                let (whole, more) = chain(s, i + n, level, first);
                Some((whole, n + more))
            },
            None => None,
        }
    }
}

/// What follows the first operand of an expression of the given level: the
/// expression so far, extended by each operator and operand that follow.
pub open spec fn chain(s: Seq<char>, i: int, level: nat, so_far: FilterView) -> (FilterView, nat)
    decreases left(s, i), level, 0nat,
{
    if level == 0 {
        (so_far, 0)
    } else {
        match operator(level, s, i) {
            Some((op, n)) => match expr(s, i + n, (level - 1) as nat) {
                Some((right, m)) => {
                    let (whole, more) = chain(
                        s,
                        i + n + m,
                        level,
                        FilterView::Call(op, Box::new(so_far), Box::new(right)),
                    );
                    (whole, n + m + more)
                },
                None => (so_far, 0),
            },
            None => (so_far, 0),
        }
    }
}

/// A filter expression.
pub open spec fn filter_expr(s: Seq<char>, i: int) -> Option<(FilterView, nat)> {
    expr(s, i, top_level())
}

/// The filter of a line: an expression in parentheses, spaces allowed
/// inside them.
#[verifier::opaque]
pub open spec fn line_filter(s: Seq<char>, i: int) -> Option<(FilterView, nat)> {
    if at(s, i, '(') {
        let a = 1 + run(s, i + 1, Class::Space);
        match filter_expr(s, i + a) {
            Some((filter, n)) => {
                let b = a + n + run(s, i + a + n, Class::Space);
                if at(s, i + b, ')') {
                    Some((filter, b + 1))
                } else {
                    None
                }
            },
            None => None,
        }
    } else {
        None
    }
}

/// A link: in square brackets, the symbol of the scene it leads to, a bar
/// and the text to click.
#[verifier::opaque]
pub open spec fn link(s: Seq<char>, i: int) -> Option<(PartView, nat)> {
    if at(s, i, '[') {
        let a = 1 + run(s, i + 1, Class::Space);
        match symbol(s, i + a) {
            Some((target, n)) => {
                let b = a + n + run(s, i + a + n, Class::Space);
                if at(s, i + b, '|') {
                    let c = b + 1 + run(s, i + b + 1, Class::Space);
                    match raw_text_fragment(s, i + c) {
                        Some((body, m)) => {
                            let d = c + m + run(s, i + c + m, Class::Space);
                            if at(s, i + d, ']') {
                                Some((PartView::Link(target, body), d + 1))
                            } else {
                                None
                            }
                        },
                        None => None,
                    }
                } else {
                    None
                }
            },
            None => None,
        }
    } else {
        None
    }
}

/// A part of a text line: a link, or a run of text.
pub open spec fn text_part(s: Seq<char>, i: int) -> Option<(PartView, nat)> {
    if link(s, i) is Some {
        link(s, i)
    } else {
        match raw_text_fragment(s, i) {
            Some((body, n)) => Some((PartView::Text(body), n)),
            None => None,
        }
    }
}

/// As many parts as stand in a row at `i`.
pub open spec fn text_parts(s: Seq<char>, i: int) -> (Seq<PartView>, nat)
    decreases left(s, i),
{
    match text_part(s, i) {
        Some((part, n)) => if n > 0 && i + n <= s.len() {
            let (rest, m) = text_parts(s, i + n);
            (seq![part] + rest, n + m)
        } else {
            (Seq::empty(), 0)
        },
        None => (Seq::empty(), 0),
    }
}

/// A line of text: an optional `?` that keeps the line in the log when
/// a choice is made, an optional filter, and one part or more.
#[verifier::opaque]
pub open spec fn text_line(s: Seq<char>, i: int) -> Option<(TextLineView, nat)> {
    let a = if at(s, i, '?') {
        1 + run(s, i + 1, Class::Space)
    } else {
        0
    };
    let b: nat = match line_filter(s, i + a) {
        Some((_, n)) => n,
        None => 0,
    };
    let (parts, n) = text_parts(s, i + a + b);
    if parts.len() > 0 {
        Some(
            (
                TextLineView {
                    filter: match line_filter(s, i + a) {
                        Some((filter, _)) => Some(filter),
                        None => None,
                    },
                    include_in_summary: at(s, i, '?'),
                    parts,
                },
                a + b + n,
            ),
        )
    } else {
        None
    }
}

/// One change of an item command: `+` or `-` and the symbol of an item.
/// A `+` adds 1 to the item's count and a `-` adds 0.
#[verifier::opaque]
pub open spec fn item_change(s: Seq<char>, i: int) -> Option<((Seq<char>, i32), nat)> {
    let a = run(s, i, Class::Space);
    if at(s, i + a, '+') || at(s, i + a, '-') {
        let b = a + 1 + run(s, i + a + 1, Class::Space);
        match symbol(s, i + b) {
            Some((text, n)) => Some(
                (
                    (
                        text,
                        if at(s, i + a, '+') {
                            1i32
                        } else {
                            0i32
                        },
                    ),
                    b + n,
                ),
            ),
            None => None,
        }
    } else {
        None
    }
}

/// As many changes as stand in a row at `i`.
pub open spec fn item_changes(s: Seq<char>, i: int) -> (Seq<(Seq<char>, i32)>, nat)
    decreases left(s, i),
{
    match item_change(s, i) {
        Some((change, n)) => if n > 0 && i + n <= s.len() {
            let (rest, m) = item_changes(s, i + n);
            (seq![change] + rest, n + m)
        } else {
            (Seq::empty(), 0)
        },
        None => (Seq::empty(), 0),
    }
}

/// An item command: the word `item` and its changes. The changes of one item
/// add up.
#[verifier::opaque]
pub open spec fn item_command(s: Seq<char>, i: int) -> Option<(CommandView, nat)> {
    if word(s, i, "item"@) {
        let (changes, n) = item_changes(s, i + "item"@.len());
        Some((CommandView::Item(add_all(Seq::empty(), changes)), "item"@.len() + n))
    } else {
        None
    }
}

/// One field of an item's description: a symbol, a colon and a run of text,
/// ended by one line end or more.
#[verifier::opaque]
pub open spec fn set_item_line(s: Seq<char>, i: int) -> Option<((Seq<char>, Seq<char>), nat)> {
    match symbol(s, i) {
        Some((field, n)) => {
            let a = n + run(s, i + n, Class::Blank);
            if at(s, i + a, ':') {
                let b = a + 1 + run(s, i + a + 1, Class::Blank);
                match raw_text_fragment(s, i + b) {
                    Some((body, m)) => match line_ends1(s, i + b + m) {
                        Some(e) => Some(((field, body), b + m + e)),
                        None => None,
                    },
                    None => None,
                }
            } else {
                None
            }
        },
        None => None,
    }
}

/// As many fields as follow at `i`, each after the indentation `prefix`.
pub open spec fn set_item_lines(s: Seq<char>, i: int, prefix: Seq<char>) -> (
    Seq<(Seq<char>, Seq<char>)>,
    nat,
)
    decreases left(s, i),
{
    if prefix.len() > 0 && word(s, i, prefix) {
        match set_item_line(s, i + prefix.len()) {
            Some((field, n)) => {
                let (rest, m) = set_item_lines(s, i + prefix.len() + n, prefix);
                (seq![field] + rest, prefix.len() + n + m)
            },
            None => (Seq::empty(), 0),
        }
    } else {
        (Seq::empty(), 0)
    }
}

/// The text that the fields give for `key`: that of the last field of that
/// name.
pub open spec fn last_field(fields: Seq<(Seq<char>, Seq<char>)>, key: Seq<char>) -> Option<
    Seq<char>,
>
    decreases fields.len(),
{
    if fields.len() == 0 {
        None
    } else if fields.last().0 == key {
        Some(fields.last().1)
    } else {
        last_field(fields.drop_last(), key)
    }
}

/// The text that a description gives for `key`: that of its first field
/// where this has the name, else that of the last later field of the name.
pub open spec fn field_text(
    first: (Seq<char>, Seq<char>),
    rest: Seq<(Seq<char>, Seq<char>)>,
    key: Seq<char>,
) -> Option<Seq<char>> {
    if first.0 == key {
        Some(first.1)
    } else {
        last_field(rest, key)
    }
}

/// A description of an item: the word `set_item` and the item's symbol on one
/// line, then an indented block of fields, of which `name` and `details`
/// count.
#[verifier::opaque]
pub open spec fn set_item_command(s: Seq<char>, i: int) -> Option<(CommandView, nat)> {
    let a = run(s, i, Class::Blank);
    if word(s, i + a, "set_item"@) {
        let b = a + "set_item"@.len() + run(s, i + a + "set_item"@.len(), Class::Blank);
        match symbol(s, i + b) {
            Some((key, n)) => match line_end(s, i + b + n) {
                Some(e) => {
                    let c = b + n + e;
                    let indent = run(s, i + c, Class::Space);
                    if indent > 0 {
                        let prefix = s.subrange(i + c, i + c + indent);
                        match set_item_line(s, i + c + indent) {
                            Some((first, m)) => {
                                let (rest, k) = set_item_lines(s, i + c + indent + m, prefix);
                                Some(
                                    (
                                        CommandView::SetItem(
                                            ItemView {
                                                key,
                                                name: field_text(first, rest, "name"@),
                                                details: field_text(first, rest, "details"@),
                                            },
                                        ),
                                        c + indent + m + k,
                                    ),
                                )
                            },
                            None => None,
                        }
                    } else {
                        None
                    }
                },
                None => None,
            },
            None => None,
        }
    } else {
        None
    }
}

/// A jump: the word `next` and the symbol of a scene.
#[verifier::opaque]
pub open spec fn next_command(s: Seq<char>, i: int) -> Option<(CommandView, nat)> {
    if word(s, i, "next"@) {
        let a = "next"@.len() + run(s, i + "next"@.len(), Class::Space);
        match symbol(s, i + a) {
            Some((target, n)) => Some((CommandView::Next(target), a + n)),
            None => None,
        }
    } else {
        None
    }
}

/// The value that a `set` command gives: after an equals sign, an integer.
pub open spec fn assigned(s: Seq<char>, i: int) -> Option<(i32, nat)> {
    let a = run(s, i, Class::Space);
    if at(s, i + a, '=') {
        let b = a + 1 + run(s, i + a + 1, Class::Space);
        match int_literal(s, i + b) {
            Some((value, n)) => Some((value, b + n)),
            None => None,
        }
    } else {
        None
    }
}

/// An assignment: the word `set`, the name of a variable and, optionally, an
/// equals sign and the value. Without a value the variable is set to 1.
#[verifier::opaque]
pub open spec fn set_command(s: Seq<char>, i: int) -> Option<(CommandView, nat)> {
    if word(s, i, "set"@) {
        let a = "set"@.len() + run(s, i + "set"@.len(), Class::Space);
        match var_symbol(s, i + a) {
            Some((variable, n)) => match assigned(s, i + a + n) {
                Some((value, m)) => Some((CommandView::Assign(variable, value), a + n + m)),
                None => Some((CommandView::Assign(variable, 1), a + n)),
            },
            None => None,
        }
    } else {
        None
    }
}

/// What may follow the `*` of a command line in a scene.
#[verifier::opaque]
pub open spec fn command_body(s: Seq<char>, i: int) -> Option<(CommandView, nat)> {
    if set_item_command(s, i) is Some {
        set_item_command(s, i)
    } else if item_command(s, i) is Some {
        item_command(s, i)
    } else if next_command(s, i) is Some {
        next_command(s, i)
    } else if word(s, i, "end"@) {
        Some((CommandView::End, "end"@.len()))
    } else if word(s, i, "reset"@) {
        Some((CommandView::Reset, "reset"@.len()))
    } else {
        set_command(s, i)
    }
}

/// A command line: a `*`, spaces, and a command.
#[verifier::opaque]
pub open spec fn command(s: Seq<char>, i: int) -> Option<(CommandView, nat)> {
    if at(s, i, '*') {
        let a = 1 + run(s, i + 1, Class::Space);
        match command_body(s, i + a) {
            Some((c, n)) => Some((c, a + n)),
            None => None,
        }
    } else {
        None
    }
}

/// A command of a script's header: a `*`, spaces, and a description of an
/// item or an assignment.
#[verifier::opaque]
pub open spec fn header_command(s: Seq<char>, i: int) -> Option<(CommandView, nat)> {
    if at(s, i, '*') {
        let a = 1 + run(s, i + 1, Class::Space);
        let body = if set_item_command(s, i + a) is Some {
            set_item_command(s, i + a)
        } else {
            set_command(s, i + a)
        };
        match body {
            Some((c, n)) => Some((c, a + n)),
            None => None,
        }
    } else {
        None
    }
}

/// A scene as it is written: its name, whether it is a branch, its lines,
/// and the scenes nested in its block.
pub struct SceneTree {
    pub name: Seq<char>,
    pub branch: bool,
    pub lines: Seq<LineView>,
    pub children: Seq<SceneTree>,
}

/// What stands in the block of a scene: a line, or a nested scene.
pub enum EntryView {
    Line(LineView),
    Scene(SceneTree),
}

/// The lines among the entries, in order.
pub open spec fn lines_of(entries: Seq<EntryView>) -> Seq<LineView>
    decreases entries.len(),
{
    if entries.len() == 0 {
        Seq::empty()
    } else {
        match entries.last() {
            EntryView::Line(line) => lines_of(entries.drop_last()).push(line),
            EntryView::Scene(_) => lines_of(entries.drop_last()),
        }
    }
}

/// The scenes among the entries, in order.
pub open spec fn scenes_of(entries: Seq<EntryView>) -> Seq<SceneTree>
    decreases entries.len(),
{
    if entries.len() == 0 {
        Seq::empty()
    } else {
        match entries.last() {
            EntryView::Line(_) => scenes_of(entries.drop_last()),
            EntryView::Scene(tree) => scenes_of(entries.drop_last()).push(tree),
        }
    }
}

/// The scenes with `parent` and a dot put before each label.
pub open spec fn relabel(parent: Seq<char>, scenes: Seq<SceneView>) -> Seq<SceneView> {
    Seq::new(
        scenes.len(),
        |k: int|
            SceneView {
                label: parent.push('.') + scenes[k].label,
                branch: scenes[k].branch,
                lines: scenes[k].lines,
            },
    )
}

/// A scene and the scenes nested in it, in one list: the scene under its
/// name, then the scenes of its block in their order, each flattened in the
/// same way and with the name of the scene and a dot before its label.
pub open spec fn flatten(tree: SceneTree) -> Seq<SceneView>
    decreases tree, 1nat,
{
    seq![SceneView { label: tree.name, branch: tree.branch, lines: tree.lines }] + relabel(
        tree.name,
        flatten_all(tree.children, tree.children.len()),
    )
}

/// The first `k` of the scenes, each flattened, in one list.
pub open spec fn flatten_all(trees: Seq<SceneTree>, k: nat) -> Seq<SceneView>
    decreases trees, 0nat, k,
{
    if k == 0 || k > trees.len() {
        Seq::empty()
    } else {
        flatten_all(trees, (k - 1) as nat) + flatten(trees[k - 1])
    }
}

/// The scenes, each flattened, in one list.
pub open spec fn flat(trees: Seq<SceneTree>) -> Seq<SceneView> {
    flatten_all(trees, trees.len())
}

/// Flattening the first scenes of a list does not depend on what follows
/// them in the list.
pub proof fn lemma_flatten_all_push(trees: Seq<SceneTree>, tree: SceneTree, k: nat)
    requires
        k <= trees.len(),
    ensures
        flatten_all(trees.push(tree), k) == flatten_all(trees, k),
    decreases k,
{
    if k > 0 {
        lemma_flatten_all_push(trees, tree, (k - 1) as nat);
        assert(trees.push(tree)[k - 1] == trees[k - 1]);
    }
}

/// A scene: its label, an optional `??` that makes it a branch, one line end
/// or more, and its block.
pub open spec fn scene(s: Seq<char>, i: int) -> Option<(SceneTree, nat)>
    decreases left(s, i), 0nat,
{
    match label(s, i) {
        Some((name, n)) => {
            let a = n + run(s, i + n, Class::Space);
            let branch = at(s, i + a, '?') && at(s, i + a + 1, '?');
            let b = if branch {
                a + 2
            } else {
                a
            };
            match line_ends1(s, i + b) {
                Some(e) => match block(s, i + b + e) {
                    Some((entries, m)) => Some(
                        (
                            SceneTree {
                                name,
                                branch,
                                lines: lines_of(entries),
                                children: scenes_of(entries),
                            },
                            b + e + m,
                        ),
                    ),
                    None => None,
                },
                None => None,
            }
        },
        None => None,
    }
}

/// The block of a scene: the indentation of its first entry, that entry, and
/// as many entries as follow with the same indentation.
pub open spec fn block(s: Seq<char>, i: int) -> Option<(Seq<EntryView>, nat)>
    decreases left(s, i), 3nat,
{
    let indent = run(s, i, Class::Space);
    if indent > 0 && i >= 0 && i + indent <= s.len() {
        match entry(s, i + indent) {
            Some((first, n)) => {
                let (rest, m) = entries(s, i + indent + n, s.subrange(i, i + indent));
                Some((seq![first] + rest, indent + n + m))
            },
            None => None,
        }
    } else {
        None
    }
}

/// As many entries as follow at `i`, each after the indentation `prefix`.
pub open spec fn entries(s: Seq<char>, i: int, prefix: Seq<char>) -> (Seq<EntryView>, nat)
    decreases left(s, i), 2nat,
{
    if prefix.len() > 0 && word(s, i, prefix) {
        match entry(s, i + prefix.len()) {
            Some((first, n)) => {
                let (rest, m) = entries(s, i + prefix.len() + n, prefix);
                (seq![first] + rest, prefix.len() + n + m)
            },
            None => (Seq::empty(), 0),
        }
    } else {
        (Seq::empty(), 0)
    }
}

/// An entry of a block: a nested scene, a command line or a line of text,
/// with the line ends that follow it.
pub open spec fn entry(s: Seq<char>, i: int) -> Option<(EntryView, nat)>
    decreases left(s, i), 1nat,
{
    let found: Option<(EntryView, nat)> = if scene(s, i) is Some {
        let (tree, n) = scene(s, i).unwrap();
        Some((EntryView::Scene(tree), n))
    } else if command(s, i) is Some {
        let (c, n) = command(s, i).unwrap();
        Some((EntryView::Line(LineView::Command(c)), n))
    } else {
        match text_line(s, i) {
            Some((text, n)) => Some((EntryView::Line(LineView::Text(text)), n)),
            None => None,
        }
    };
    match found {
        Some((e, n)) => Some((e, n + line_ends(s, i + n))),
        None => None,
    }
}

/// As many header commands as stand in a row at `i`, each with the line
/// ends that follow it.
pub open spec fn header_commands(s: Seq<char>, i: int) -> (Seq<CommandView>, nat)
    decreases left(s, i),
{
    match header_command(s, i) {
        Some((c, n)) => {
            let e = n + line_ends(s, i + n);
            if e > 0 && i + e <= s.len() {
                let (rest, m) = header_commands(s, i + e);
                (seq![c] + rest, e + m)
            } else {
                (Seq::empty(), 0)
            }
        },
        None => (Seq::empty(), 0),
    }
}

/// The header of a script: its commands, then a line that holds `---`, and
/// one line end or more.
pub open spec fn header(s: Seq<char>, i: int) -> Option<(Seq<CommandView>, nat)> {
    let (commands, n) = header_commands(s, i);
    if word(s, i + n, "---"@) {
        match line_ends1(s, i + n + "---"@.len()) {
            Some(e) => Some((commands, n + "---"@.len() + e)),
            None => None,
        }
    } else {
        None
    }
}

/// What was looked for where a script could not be read.
#[derive(Debug, Clone, Copy, PartialEq, Eq, Structural)]
pub enum Expected {
    /// A command that a header may hold: the description of an item or an
    /// assignment.
    HeaderCommand,
    /// The line of dashes that ends a header.
    HeaderEnd,
    /// The end of the line that holds a label or the dashes of a header.
    LineEnd,
    /// The indentation of a scene's block.
    Indentation,
    /// The first entry of a scene's block.
    Entry,
}

/// Whether a header begins at `i`: a command or the line of dashes stands
/// there.
pub open spec fn header_begins(s: Seq<char>, i: int) -> bool {
    at(s, i, '*') || word(s, i, "---"@)
}

/// Where the reading of a header at `i` stops, and what is missing there:
/// after the commands that can be read, a further command where a `*`
/// stands, else the line of dashes, and after the dashes the end of the
/// line.
pub open spec fn header_failure(s: Seq<char>, i: int) -> (int, Expected) {
    let n = header_commands(s, i).1;
    if word(s, i + n, "---"@) {
        (i + n + "---"@.len(), Expected::LineEnd)
    } else if at(s, i + n, '*') {
        (i + n, Expected::HeaderCommand)
    } else {
        (i + n, Expected::HeaderEnd)
    }
}

/// Where the reading of a scene stops whose label ends before `i`, and what
/// is missing there: the first of the parts of a scene after its label, in
/// their order, that does not stand where it should.
pub open spec fn scene_failure(s: Seq<char>, i: int) -> (int, Expected) {
    let a = run(s, i, Class::Space);
    let b = if at(s, i + a, '?') && at(s, i + a + 1, '?') {
        a + 2
    } else {
        a
    };
    match line_ends1(s, i + b) {
        None => (i + b, Expected::LineEnd),
        Some(e) => {
            let indent = run(s, i + b + e, Class::Space);
            if indent == 0 {
                (i + b + e, Expected::Indentation)
            } else {
                (i + b + e + indent, Expected::Entry)
            }
        },
    }
}

/// The scenes that stand in a row at `i`, and the position at which the
/// reading stops: the first position at which no label stands, which is the
/// end of the text where all of it is scenes. Where a label stands whose
/// scene cannot be read, the position of the failure and what is missing
/// there.
pub open spec fn scenes_from(s: Seq<char>, i: int) -> Result<(Seq<SceneTree>, int), (int, Expected)>
    decreases left(s, i),
{
    match label(s, i) {
        None => Ok((Seq::empty(), i)),
        Some((_, after)) => match scene(s, i) {
            Some((found, n)) => if n > 0 && i + n <= s.len() {
                match scenes_from(s, i + n) {
                    Ok((rest, stop)) => Ok((seq![found] + rest, stop)),
                    Err(flaw) => Err(flaw),
                }
            } else {
                Err(scene_failure(s, i + after))
            },
            None => Err(scene_failure(s, i + after)),
        },
    }
}

/// What a script is read as: its scenes, each with the scenes nested in it,
/// the commands of its header, and the position at which the reading
/// stopped. Text from that position on is not part of the script.
pub struct Parsed {
    pub scenes: Seq<SceneTree>,
    pub initialize: Seq<CommandView>,
    pub rest: int,
}

/// A whole script: line ends, an optional header, and scenes for as long as
/// labels stand. A header that begins must be read to its end, and a scene
/// whose label stands must be read whole: where one cannot, the position of
/// the failure and what is missing there.
pub open spec fn script(s: Seq<char>) -> Result<Parsed, (int, Expected)> {
    let a = line_ends(s, 0) as int;
    match header(s, a) {
        Some((initialize, n)) => match scenes_from(s, a + n) {
            Ok((scenes, rest)) => Ok(Parsed { scenes, initialize, rest }),
            Err(flaw) => Err(flaw),
        },
        None => if header_begins(s, a) {
            Err(header_failure(s, a))
        } else {
            match scenes_from(s, a) {
                Ok((scenes, rest)) => Ok(Parsed { scenes, initialize: Seq::empty(), rest }),
                Err(flaw) => Err(flaw),
            }
        },
    }
}

} // verus!
