//! The selection store: what is written when a choice is committed, and how
//! an earlier choice is found again among the items.

use vstd::prelude::*;
use crate::items::{item_texts, kept, lemma_kept_push, lines};
use crate::text::{
    chars_of, decimal, decimal_string, lemma_trimmed_is_stable, trim_end, trimmed,
};

verus! {

/// Where a committed value goes.
#[derive(Debug, PartialEq, Eq)]
pub enum Target {
    /// The standard output of the process.
    Stdout,
    /// The file of this path.
    File(String),
}

/// The mathematical picture of a `Target`.
pub enum TargetView {
    Stdout,
    File(Seq<char>),
}

impl View for Target {
    type V = TargetView;

    open spec fn view(&self) -> TargetView {
        match self {
            Target::Stdout => TargetView::Stdout,
            Target::File(path) => TargetView::File(path@),
        }
    }
}

/// One thing to write: the text, and where it goes.
#[derive(Debug, PartialEq, Eq)]
pub struct Output {
    pub target: Target,
    pub text: String,
}

/// The mathematical picture of an `Output`.
pub struct OutputView {
    pub target: TargetView,
    pub text: Seq<char>,
}

impl View for Output {
    type V = OutputView;

    open spec fn view(&self) -> OutputView {
        OutputView { target: self.target@, text: self.text@ }
    }
}

/// The choice that ends a session: the text of the chosen item and its
/// place in the list, counted from one.
#[derive(Debug, PartialEq, Eq)]
pub struct Commitment {
    pub text: String,
    pub number: usize,
}

/// The mathematical picture of a `Commitment`.
pub struct CommitmentView {
    pub text: Seq<char>,
    pub number: int,
}

impl View for Commitment {
    type V = CommitmentView;

    open spec fn view(&self) -> CommitmentView {
        CommitmentView { text: self.text@, number: self.number as int }
    }
}

/// The path that stands for the standard output: a single hyphen.
pub open spec fn stdout_path() -> Seq<char> {
    seq!['-']
}

/// The target a path names.
pub open spec fn target_of(path: Seq<char>) -> TargetView {
    if path == stdout_path() {
        TargetView::Stdout
    } else {
        TargetView::File(path)
    }
}

/// What is stored for a chosen text: the text without the white space at
/// its end.
pub open spec fn stored_text(value: Seq<char>) -> Seq<char> {
    trimmed(value)
}

/// The choice of the item at `selected`.
pub open spec fn commitment_of(items: Seq<Seq<char>>, selected: int) -> CommitmentView {
    CommitmentView { text: items[selected], number: selected + 1 }
}

/// What a commitment writes: the stored text of the choice to the output
/// path, then, where a path for the number is given, the number in decimal
/// to that path.
pub open spec fn outputs_of(
    commitment: CommitmentView,
    output: Seq<char>,
    output_number: Seq<char>,
) -> Seq<OutputView> {
    let first = OutputView { target: target_of(output), text: stored_text(commitment.text) };
    if output_number.len() == 0 {
        seq![first]
    } else {
        seq![
            first,
            OutputView {
                target: target_of(output_number),
                text: decimal(commitment.number as nat),
            },
        ]
    }
}

/// `found` is the first place at which `value` stands among the items, or
/// `None` where it stands nowhere.
pub open spec fn first_match(items: Seq<Seq<char>>, value: Seq<char>, found: Option<int>) -> bool {
    match found {
        Some(i) => {
            &&& 0 <= i < items.len()
            &&& items[i] == value
            &&& forall|j: int| 0 <= j < i ==> items[j] != value
        },
        None => forall|j: int| 0 <= j < items.len() ==> items[j] != value,
    }
}

/// The views of a list of outputs.
pub open spec fn output_views(outputs: Seq<Output>) -> Seq<OutputView> {
    outputs.map_values(|o: Output| o@)
}

/// The target that a path names: the standard output for a single hyphen,
/// else the file of that path.
pub fn target_for(path: &str) -> (target: Target)
    ensures
        target@ == target_of(path@),
{
    let v = chars_of(path);
    if v.len() == 1 && v[0] == '-' {
        assert(path@ =~= stdout_path());
        Target::Stdout
    } else {
        Target::File(path.to_owned())
    }
}

/// The choice of the item at `selected`.
pub fn commit(items: &Vec<String>, selected: usize) -> (commitment: Commitment)
    requires
        selected < items.len(),
    ensures
        commitment@ == commitment_of(items.deep_view(), selected as int),
{
    Commitment { text: items[selected].clone(), number: selected + 1 }
}

/// Everything that a commitment writes, in the order in which it is
/// written.
pub fn commit_outputs(commitment: &Commitment, output: &str, output_number: &str) -> (outputs:
    Vec<Output>)
    ensures
        output_views(outputs@) == outputs_of(commitment@, output@, output_number@),
{
    let mut outputs: Vec<Output> = Vec::new();
    outputs.push(Output { target: target_for(output), text: trim_end(commitment.text.as_str()) });
    if !output_number.is_empty() {
        outputs.push(
            Output {
                target: target_for(output_number),
                text: decimal_string(commitment.number),
            },
        );
    }
    assert(output_views(outputs@) =~= outputs_of(commitment@, output@, output_number@));
    outputs
}

/// The place of an earlier choice among the items: the first item that
/// equals the stored text once the white space at its end is taken away.
pub fn restore_index(items: &Vec<String>, stored: &str) -> (found: Option<usize>)
    ensures
        first_match(
            items.deep_view(),
            trimmed(stored@),
            match found {
                Some(i) => Some(i as int),
                None => None,
            },
        ),
{
    let value = trim_end(stored);
    let mut i: usize = 0;
    while i < items.len()
        invariant
            i <= items.len(),
            value@ == trimmed(stored@),
            forall|j: int| 0 <= j < i ==> items.deep_view()[j] != value@,
        decreases items.len() - i,
    {
        if items[i] == value {
            return Some(i);
        }
        i += 1;
    }
    None
}

/// Every item that is kept from a list of lines holds something and does
/// not end in white space: it is what would be stored for it.
pub proof fn lemma_kept_items_are_stable(lines: Seq<Seq<char>>)
    ensures
        forall|i: int|
            0 <= i < kept(lines).len() ==> (#[trigger] kept(lines)[i]).len() > 0 && stored_text(
                kept(lines)[i],
            ) == kept(lines)[i],
    decreases lines.len(),
{
    if lines.len() == 0 {
        assert(kept(lines) =~= Seq::<Seq<char>>::empty()) by {
            reveal(Seq::filter);
        }
    } else {
        let front = lines.drop_last();
        assert(front.push(lines.last()) =~= lines);
        lemma_kept_push(front, lines.last());
        lemma_kept_items_are_stable(front);
        lemma_trimmed_is_stable(lines.last());
    }
}

/// The items of an input text are stored as they stand, in either order of
/// the list.
pub proof fn lemma_loaded_items_are_stable(text: Seq<char>, reverse: bool)
    ensures
        forall|i: int|
            0 <= i < item_texts(text, reverse).len() ==> (#[trigger] item_texts(
                text,
                reverse,
            )[i]).len() > 0 && stored_text(item_texts(text, reverse)[i]) == item_texts(
                text,
                reverse,
            )[i],
{
    let plain = kept(lines(text));
    lemma_kept_items_are_stable(lines(text));
    if reverse {
        let turned = plain.reverse();
        assert forall|i: int| 0 <= i < turned.len() implies (#[trigger] turned[i]).len() > 0
            && stored_text(turned[i]) == turned[i] by {
            assert(turned[i] == plain[plain.len() - 1 - i]);
        }
    }
}

/// A choice that was committed is found again: where the chosen item is
/// stored as it stands and no earlier item equals it, looking up what was
/// stored leads to the index that was chosen.
pub proof fn lemma_commit_then_restore(items: Seq<Seq<char>>, selected: int, found: Option<int>)
    requires
        0 <= selected < items.len(),
        stored_text(items[selected]) == items[selected],
        forall|j: int| 0 <= j < selected ==> items[j] != items[selected],
        first_match(items, trimmed(stored_text(commitment_of(items, selected).text)), found),
    ensures
        found == Some(selected),
{
    lemma_trimmed_is_stable(items[selected]);
}

} // verus!
