//! Strings: the few operations on strings and labels that the compiler and
//! the engine are built from.

use vstd::prelude::*;
use vstd::string::StringExecFns;

verus! {

/// `String::push` appends one character to the end of the string.
pub assume_specification[ String::push ](s: &mut String, ch: char)
    ensures
        final(s)@ == old(s)@.push(ch),
;

/// The characters of each string of a list.
pub open spec fn string_views(strings: Seq<String>) -> Seq<Seq<char>> {
    Seq::new(strings.len(), |i: int| strings[i]@)
}

/// The characters of a string, in order.
pub fn chars_of(s: &str) -> (r: Vec<char>)
    ensures
        r@ == s@,
{
    let mut out: Vec<char> = Vec::new();
    for c in iter: s.chars()
        invariant
            iter.seq() == s@,
            out@ =~= s@.take(iter.index() as int),
    {
        out.push(c);
    }
    assert(s@.take(s@.len() as int) =~= s@);
    out
}

/// The string made of the characters `chars[from..to]`.
pub fn string_of(chars: &[char], from: usize, to: usize) -> (r: String)
    requires
        from <= to <= chars@.len(),
    ensures
        r@ == chars@.subrange(from as int, to as int),
{
    let mut out = String::new();
    let mut i: usize = from;
    while i < to
        invariant
            from <= i <= to <= chars@.len(),
            out@ =~= chars@.subrange(from as int, i as int),
        decreases to - i,
    {
        out.push(chars[i]);
        i += 1;
    }
    out
}

/// The label without its last dot-separated segment; empty for a label that
/// has no dot.
pub open spec fn parent_label(label: Seq<char>) -> Seq<char>
    decreases label.len(),
{
    if label.len() == 0 {
        label
    } else if label.last() == '.' {
        label.drop_last()
    } else {
        parent_label(label.drop_last())
    }
}

/// The parent of a label is a prefix of it, and shorter unless the label is
/// empty.
pub proof fn lemma_parent_label(label: Seq<char>)
    ensures
        parent_label(label).len() <= label.len(),
        label.len() > 0 ==> parent_label(label).len() < label.len(),
        parent_label(label) == label.take(parent_label(label).len() as int),
    decreases label.len(),
{
    if label.len() == 0 {
        assert(label.take(0) =~= label);
    } else if label.last() == '.' {
        assert(label.drop_last() =~= label.take(label.len() - 1));
    } else {
        let front = label.drop_last();
        lemma_parent_label(front);
        let n = parent_label(front).len() as int;
        assert(front.take(n) =~= label.take(n));
    }
}

/// The label without its last dot-separated segment.
pub fn parent(val: &String) -> (r: String)
    ensures
        r@ == parent_label(val@),
{
    let chars = chars_of(val.as_str());
    let mut end: usize = chars.len();
    assert(chars@.take(end as int) =~= val@);
    while end > 0
        invariant
            end <= chars@.len(),
            chars@ == val@,
            parent_label(val@) == parent_label(chars@.take(end as int)),
        decreases end,
    {
        let ghost head = chars@.take(end as int);
        assert(head.drop_last() =~= chars@.take(end - 1));
        if chars[end - 1] == '.' {
            return string_of(&chars, 0, end - 1);
        }
        end -= 1;
    }
    proof {
        assert(chars@.take(0) =~= Seq::<char>::empty());
    }
    String::new()
}

/// The reference `name` as seen from `prefix`: the two joined by a dot, without
/// the dot where it would come first.
pub open spec fn qualified(prefix: Seq<char>, name: Seq<char>) -> Seq<char> {
    let joined = prefix.push('.') + name;
    if joined[0] == '.' {
        joined.skip(1)
    } else {
        joined
    }
}

/// `prefix`, a dot and `name`, without the dot where it would come first.
pub fn qualify(prefix: &String, name: &String) -> (r: String)
    ensures
        r@ == qualified(prefix@, name@),
{
    let head = chars_of(prefix.as_str());
    let tail = chars_of(name.as_str());
    let mut out = String::new();
    let mut i: usize = 0;
    if head.len() > 0 && head[0] == '.' {
        i = 1;
    }
    let ghost joined = prefix@.push('.') + name@;
    let ghost skipped: int = if joined[0] == '.' { 1 } else { 0 };
    let start = i;
    while i < head.len()
        invariant
            start <= i <= head@.len(),
            head@ == prefix@,
            out@ =~= head@.subrange(start as int, i as int),
        decreases head@.len() - i,
    {
        out.push(head[i]);
        i += 1;
    }
    if head.len() > 0 {
        out.push('.');
    }
    let ghost base = out@;
    let mut k: usize = 0;
    while k < tail.len()
        invariant
            k <= tail@.len(),
            tail@ == name@,
            out@ =~= base + tail@.take(k as int),
        decreases tail@.len() - k,
    {
        out.push(tail[k]);
        k += 1;
    }
    proof {
        assert(tail@.take(tail@.len() as int) =~= tail@);
        assert(out@ =~= qualified(prefix@, name@));
    }
    out
}

/// `left` followed by `right`.
pub fn concat(left: &String, right: &String) -> (r: String)
    ensures
        r@ == left@ + right@,
{
    let mut out = left.clone();
    out.append(right.as_str());
    out
}

} // verus!
