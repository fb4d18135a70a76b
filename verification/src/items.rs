//! The item source: from the text of the input to the list of items.

use vstd::prelude::*;
use crate::text::{chars_of, string_of, trimmed, trimmed_end};

verus! {

/// How many characters stand before the first line feed of `s`; all of them
/// where it has none.
pub open spec fn line_end(s: Seq<char>) -> nat
    decreases s.len(),
{
    if s.len() == 0 || s[0] == '\n' {
        0
    } else {
        1 + line_end(s.skip(1))
    }
}

/// The lines of a text. A line ends at a line feed or at the end of the
/// text, and a line feed at the very end opens no further line.
pub open spec fn lines(s: Seq<char>) -> Seq<Seq<char>>
    decreases s.len(),
{
    if s.len() == 0 {
        Seq::empty()
    } else if line_end(s) >= s.len() {
        seq![s]
    } else {
        seq![s.take(line_end(s) as int)] + lines(s.skip(line_end(s) as int + 1))
    }
}

/// The lines with the white space at their ends taken away, without those
/// of which nothing is left.
pub open spec fn kept(lines: Seq<Seq<char>>) -> Seq<Seq<char>> {
    lines.map_values(|line: Seq<char>| trimmed(line)).filter(|line: Seq<char>| line.len() > 0)
}

/// The items that a text holds, in the order of the text or, on request, in
/// the opposite order.
pub open spec fn item_texts(text: Seq<char>, reverse: bool) -> Seq<Seq<char>> {
    if reverse {
        kept(lines(text)).reverse()
    } else {
        kept(lines(text))
    }
}

/// One more line at the end adds its trimmed form to what is kept, unless
/// nothing is left of it.
pub proof fn lemma_kept_push(lines: Seq<Seq<char>>, line: Seq<char>)
    ensures
        kept(lines.push(line)) == if trimmed(line).len() > 0 {
            kept(lines).push(trimmed(line))
        } else {
            kept(lines)
        },
{
    let trim = |line: Seq<char>| trimmed(line);
    let full = |line: Seq<char>| line.len() > 0;
    assert(lines.push(line).map_values(trim) =~= lines.map_values(trim).push(trimmed(line)));
    lines.map_values(trim).lemma_filter_push(trimmed(line), full);
}

/// Where the line that starts at `start` ends: at the next line feed, or at
/// the end of the text.
pub fn line_end_from(v: &Vec<char>, start: usize) -> (end: usize)
    requires
        start <= v.len(),
    ensures
        start <= end <= v.len(),
        end - start == line_end(v@.skip(start as int)),
{
    let mut end: usize = start;
    while end < v.len() && v[end] != '\n'
        invariant
            start <= end <= v.len(),
            line_end(v@.skip(start as int)) == (end - start) + line_end(v@.skip(end as int)),
        decreases v.len() - end,
    {
        assert(v@.skip(end as int).skip(1) =~= v@.skip(end + 1));
        end += 1;
    }
    end
}

/// The items of a text: its lines, each without the white space at its end,
/// empty ones left out.
pub fn items_from_text(text: &str) -> (items: Vec<String>)
    ensures
        items.deep_view() == kept(lines(text@)),
{
    let v = chars_of(text);
    let mut items: Vec<String> = Vec::new();
    let mut start: usize = 0;
    let ghost mut done: Seq<Seq<char>> = Seq::empty();
    proof {
        assert(v@.skip(0) =~= v@);
        assert(done + lines(v@) =~= lines(v@));
        assert(kept(done) =~= Seq::<Seq<char>>::empty()) by {
            reveal(Seq::filter);
        }
        assert(items.deep_view() =~= kept(done));
    }
    while start < v.len()
        invariant
            start <= v.len(),
            done + lines(v@.skip(start as int)) == lines(v@),
            items.deep_view() == kept(done),
        decreases v.len() - start,
    {
        let end = line_end_from(&v, start);
        let stop = trimmed_end(&v, start, end);
        let ghost rest = v@.skip(start as int);
        let ghost line = v@.subrange(start as int, end as int);
        let ghost before = items.deep_view();
        proof {
            assert(rest.take(end - start) =~= line);
            assert(line.take(stop - start) =~= v@.subrange(start as int, stop as int));
            lemma_kept_push(done, line);
        }
        if stop > start {
            let item = string_of(&v, start, stop);
            items.push(item);
            assert(items.deep_view() =~= before.push(trimmed(line)));
        }
        if end < v.len() {
            proof {
                assert(rest.skip(end - start + 1) =~= v@.skip(end + 1));
                assert(done.push(line) + lines(v@.skip(end + 1)) =~= done + lines(rest));
            }
            start = end + 1;
        } else {
            proof {
                assert(rest =~= line);
                assert(lines(v@.skip(end as int)) =~= Seq::<Seq<char>>::empty());
                assert(done.push(line) + lines(v@.skip(end as int)) =~= done + lines(rest));
            }
            start = end;
        }
        proof {
            done = done.push(line);
        }
    }
    proof {
        assert(done + lines(v@.skip(start as int)) =~= done);
    }
    items
}

/// The same items in the opposite order.
pub fn reversed(items: Vec<String>) -> (out: Vec<String>)
    ensures
        out.deep_view() == items.deep_view().reverse(),
{
    let ghost given = items.deep_view();
    let mut items = items;
    let mut out: Vec<String> = Vec::new();
    while items.len() > 0
        invariant
            items.len() <= given.len(),
            items.deep_view() == given.take(items.len() as int),
            out.len() == given.len() - items.len(),
            forall|i: int|
                0 <= i < out.len() ==> #[trigger] out.deep_view()[i] == given[given.len() - 1 - i],
        decreases items.len(),
    {
        let ghost shown = out.deep_view();
        let ghost left = items.deep_view();
        let item = items.pop().unwrap();
        assert(item@ == left[left.len() - 1]);
        out.push(item);
        assert(out.deep_view() =~= shown.push(item@));
        assert(items.deep_view() =~= given.take(items.len() as int));
    }
    assert(out.deep_view() =~= given.reverse());
    out
}

/// The list of items of an input text, turned round where that is asked
/// for.
pub fn load_items(text: &str, reverse: bool) -> (items: Vec<String>)
    ensures
        items.deep_view() == item_texts(text@, reverse),
{
    let items = items_from_text(text);
    if reverse {
        reversed(items)
    } else {
        items
    }
}

} // verus!
