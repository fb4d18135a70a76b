//! The pagination engine: how the selection and the page shown move under each
//! navigation command.

use vstd::prelude::*;
use vstd::arithmetic::div_mod::{lemma_fundamental_div_mod, lemma_fundamental_div_mod_converse};

verus! {

/// The selection as the engine keeps it: the index of the chosen item and the
/// index of the first item of the page on display.
#[derive(Clone, Copy, Debug, PartialEq, Eq, Structural)]
pub struct NavigationState {
    pub selected: usize,
    pub page_start: usize,
}

/// The mathematical picture of a `NavigationState`.
pub struct Position {
    pub selected: int,
    pub page_start: int,
}

impl View for NavigationState {
    type V = Position;

    open spec fn view(&self) -> Position {
        Position { selected: self.selected as int, page_start: self.page_start as int }
    }
}

/// A navigation command.
#[derive(Clone, Copy, Debug, PartialEq, Eq, Structural)]
pub enum Motion {
    Up,
    Down,
    Left,
    PageUp,
    PageDown,
}

/// The first index of the page that holds `index`.
pub open spec fn page_floor(index: int, page_size: int) -> int {
    page_size * (index / page_size)
}

impl Position {
    /// The selection lies in the list, the page starts on a multiple of the
    /// page size, and the page holds the selection.
    pub open spec fn valid(self, len: int, page_size: int) -> bool {
        &&& page_size >= 1
        &&& 0 <= self.selected < len
        &&& 0 <= self.page_start
        &&& self.page_start % page_size == 0
        &&& self.page_start <= self.selected < self.page_start + page_size
    }

    /// One step back. At the first item nothing moves.
    pub open spec fn up(self, page_size: int) -> Position {
        if self.selected > 0 {
            Position {
                selected: self.selected - 1,
                page_start: if self.selected - 1 < self.page_start {
                    if self.page_start >= page_size {
                        self.page_start - page_size
                    } else {
                        0
                    }
                } else {
                    self.page_start
                },
            }
        } else {
            self
        }
    }

    /// One step forward. At the last item nothing moves.
    pub open spec fn down(self, len: int, page_size: int) -> Position {
        if self.selected + 1 < len {
            Position {
                selected: self.selected + 1,
                page_start: if self.selected + 1 >= self.page_start + page_size {
                    self.page_start + page_size
                } else {
                    self.page_start
                },
            }
        } else {
            self
        }
    }

    /// A whole page back, or to the very first item where less than a page
    /// lies before the selection.
    pub open spec fn page_up(self, page_size: int) -> Position {
        if self.selected - page_size > 0 {
            Position {
                selected: self.selected - page_size,
                page_start: self.page_start - page_size,
            }
        } else {
            Position { selected: 0, page_start: 0 }
        }
    }

    /// A whole page forward, or to the very last item where the jump would
    /// reach or pass it.
    pub open spec fn page_down(self, len: int, page_size: int) -> Position {
        if self.selected + page_size < len - 1 {
            Position {
                selected: self.selected + page_size,
                page_start: self.page_start + page_size,
            }
        } else {
            Position { selected: len - 1, page_start: page_floor(len - 1, page_size) }
        }
    }

    /// The position after one navigation command.
    pub open spec fn moved(self, motion: Motion, len: int, page_size: int) -> Position {
        match motion {
            Motion::Up => self.up(page_size),
            Motion::Down => self.down(len, page_size),
            Motion::Left => self.up(page_size),
            Motion::PageUp => self.page_up(page_size),
            Motion::PageDown => self.page_down(len, page_size),
        }
    }

    /// The position after a run of navigation commands, first to last.
    pub open spec fn moved_all(self, motions: Seq<Motion>, len: int, page_size: int) -> Position
        decreases motions.len(),
    {
        if motions.len() == 0 {
            self
        } else {
            self.moved(motions[0], len, page_size).moved_all(motions.skip(1), len, page_size)
        }
    }

    /// The position after `count` page-forward commands.
    pub open spec fn page_down_times(self, count: nat, len: int, page_size: int) -> Position
        decreases count,
    {
        if count == 0 {
            self
        } else {
            self.page_down(len, page_size).page_down_times((count - 1) as nat, len, page_size)
        }
    }
}

/// Where a session starts: on the restored index if there is one inside the
/// list, else on the first item.
pub open spec fn initial_position(len: int, page_size: int, restored: Option<int>) -> Position {
    match restored {
        Some(index) if 0 <= index < len => Position {
            selected: index,
            page_start: page_floor(index, page_size),
        },
        _ => Position { selected: 0, page_start: 0 },
    }
}

/// The page of a valid position starts at the page floor of its selection.
pub proof fn lemma_page_start_is_floor(p: Position, len: int, page_size: int)
    requires
        p.valid(len, page_size),
    ensures
        p.page_start == page_floor(p.selected, page_size),
{
    let k = p.page_start / page_size;
    lemma_fundamental_div_mod(p.page_start, page_size);
    assert(page_size * k == k * page_size) by (nonlinear_arith);
    lemma_fundamental_div_mod_converse(p.selected, page_size, k, p.selected - p.page_start);
}

/// The page floor of an index is a multiple of the page size, and its page
/// holds the index.
pub proof fn lemma_page_floor(index: int, page_size: int)
    requires
        0 <= index,
        page_size >= 1,
    ensures
        0 <= page_floor(index, page_size) <= index < page_floor(index, page_size) + page_size,
        page_floor(index, page_size) % page_size == 0,
        page_floor(index, page_size) == index - index % page_size,
{
    lemma_fundamental_div_mod(index, page_size);
    let q = index / page_size;
    assert(page_size * q == q * page_size) by (nonlinear_arith);
    lemma_fundamental_div_mod_converse(page_size * q, page_size, q, 0);
}

impl NavigationState {
    /// Tells whether the state is one that the engine can work from.
    pub fn is_valid(&self, len: usize, page_size: usize) -> (ok: bool)
        ensures
            ok == self@.valid(len as int, page_size as int),
    {
        page_size >= 1 && self.selected < len && self.page_start <= self.selected
            && self.page_start % page_size == 0 && self.selected - self.page_start < page_size
    }

    /// Moves the selection one item back, and the page with it when the
    /// selection leaves the page. From the first item the state comes back
    /// as it was given.
    pub fn move_up(self, len: usize, page_size: usize) -> (next: NavigationState)
        requires
            self@.valid(len as int, page_size as int),
        ensures
            next@ == self@.up(page_size as int),
            next@.valid(len as int, page_size as int),
            self.selected == 0 ==> next == self,
    {
        if self.selected > 0 {
            let selected: usize = self.selected - 1;
            let page_start: usize = if selected < self.page_start {
                if self.page_start >= page_size {
                    self.page_start - page_size
                } else {
                    0
                }
            } else {
                self.page_start
            };
            proof {
                lemma_step_back_stays_aligned(self@, len as int, page_size as int);
            }
            NavigationState { selected, page_start }
        } else {
            self
        }
    }

    /// The same single step back as `move_up`, under the name of the other
    /// key that asks for it.
    pub fn move_left(self, len: usize, page_size: usize) -> (next: NavigationState)
        requires
            self@.valid(len as int, page_size as int),
        ensures
            next@ == self@.up(page_size as int),
            next@.valid(len as int, page_size as int),
            self.selected == 0 ==> next == self,
    {
        self.move_up(len, page_size)
    }

    /// Moves the selection one item forward, and the page with it when the
    /// selection leaves the page. From the last item the state comes back as
    /// it was given.
    pub fn move_down(self, len: usize, page_size: usize) -> (next: NavigationState)
        requires
            self@.valid(len as int, page_size as int),
        ensures
            next@ == self@.down(len as int, page_size as int),
            next@.valid(len as int, page_size as int),
            self.selected == len - 1 ==> next == self,
    {
        if self.selected + 1 < len {
            let selected: usize = self.selected + 1;
            let page_start: usize = if selected - self.page_start >= page_size {
                selected
            } else {
                self.page_start
            };
            proof {
                lemma_step_forward_stays_aligned(self@, len as int, page_size as int);
            }
            NavigationState { selected, page_start }
        } else {
            self
        }
    }

    /// Jumps one page back and keeps the row within the page, or lands on the
    /// first item of the list where the jump would reach or pass it.
    pub fn page_up(self, len: usize, page_size: usize) -> (next: NavigationState)
        requires
            self@.valid(len as int, page_size as int),
        ensures
            next@ == self@.page_up(page_size as int),
            next@.valid(len as int, page_size as int),
    {
        proof {
            lemma_page_back_stays_aligned(self@, len as int, page_size as int);
        }
        if self.selected > page_size {
            NavigationState {
                selected: self.selected - page_size,
                page_start: self.page_start - page_size,
            }
        } else {
            NavigationState { selected: 0, page_start: 0 }
        }
    }

    /// Jumps one page forward and keeps the row within the page, or lands on
    /// the last item of the list where the jump would reach or pass it.
    pub fn page_down(self, len: usize, page_size: usize) -> (next: NavigationState)
        requires
            self@.valid(len as int, page_size as int),
        ensures
            next@ == self@.page_down(len as int, page_size as int),
            next@.valid(len as int, page_size as int),
            self.selected == len - 1 ==> next == self,
    {
        let last: usize = len - 1;
        proof {
            lemma_page_forward_stays_aligned(self@, len as int, page_size as int);
            lemma_page_floor(last as int, page_size as int);
            if self.selected == last {
                lemma_page_start_is_floor(self@, len as int, page_size as int);
            }
        }
        if page_size < last - self.selected {
            NavigationState {
                selected: self.selected + page_size,
                page_start: self.page_start + page_size,
            }
        } else {
            NavigationState { selected: last, page_start: last - last % page_size }
        }
    }

    /// Carries out one navigation command.
    pub fn apply(self, motion: Motion, len: usize, page_size: usize) -> (next: NavigationState)
        requires
            self@.valid(len as int, page_size as int),
        ensures
            next@ == self@.moved(motion, len as int, page_size as int),
            next@.valid(len as int, page_size as int),
    {
        match motion {
            Motion::Up => self.move_up(len, page_size),
            Motion::Down => self.move_down(len, page_size),
            Motion::Left => self.move_left(len, page_size),
            Motion::PageUp => self.page_up(len, page_size),
            Motion::PageDown => self.page_down(len, page_size),
        }
    }
}

/// The state a session starts from: the restored index where one is given
/// and lies inside the list, the first item otherwise.
pub fn initial_state(len: usize, page_size: usize, restored_index: Option<usize>) -> (state:
    NavigationState)
    requires
        len >= 1,
        page_size >= 1,
    ensures
        state@ == initial_position(
            len as int,
            page_size as int,
            match restored_index {
                Some(index) => Some(index as int),
                None => None,
            },
        ),
        state@.valid(len as int, page_size as int),
{
    match restored_index {
        Some(index) if index < len => {
            proof {
                lemma_page_floor(index as int, page_size as int);
            }
            NavigationState { selected: index, page_start: index - index % page_size }
        },
        _ => NavigationState { selected: 0, page_start: 0 },
    }
}

/// A session starts on a valid position.
pub proof fn lemma_initial_position_is_valid(len: int, page_size: int, restored: Option<int>)
    requires
        len >= 1,
        page_size >= 1,
    ensures
        initial_position(len, page_size, restored).valid(len, page_size),
{
    if let Some(index) = restored {
        if 0 <= index < len {
            lemma_page_floor(index, page_size);
        }
    }
}

/// A step back from a valid position gives a valid position.
pub proof fn lemma_step_back_stays_aligned(p: Position, len: int, page_size: int)
    requires
        p.valid(len, page_size),
    ensures
        p.up(page_size).valid(len, page_size),
{
    lemma_aligned_neighbours(p.page_start, page_size);
}

/// A step forward from a valid position gives a valid position.
pub proof fn lemma_step_forward_stays_aligned(p: Position, len: int, page_size: int)
    requires
        p.valid(len, page_size),
    ensures
        p.down(len, page_size).valid(len, page_size),
{
    lemma_aligned_neighbours(p.page_start, page_size);
}

/// A page back from a valid position gives a valid position.
pub proof fn lemma_page_back_stays_aligned(p: Position, len: int, page_size: int)
    requires
        p.valid(len, page_size),
    ensures
        p.page_up(page_size).valid(len, page_size),
        p.selected > page_size ==> p.page_start >= page_size,
{
    lemma_aligned_neighbours(p.page_start, page_size);
}

/// A page forward from a valid position gives a valid position.
pub proof fn lemma_page_forward_stays_aligned(p: Position, len: int, page_size: int)
    requires
        p.valid(len, page_size),
    ensures
        p.page_down(len, page_size).valid(len, page_size),
{
    lemma_aligned_neighbours(p.page_start, page_size);
    lemma_page_floor(len - 1, page_size);
}

/// Whatever navigation commands arrive, and however many, a valid position
/// stays valid: the selection inside the list, the page aligned, and the
/// selection on the page.
pub proof fn lemma_navigation_keeps_valid(
    p: Position,
    motions: Seq<Motion>,
    len: int,
    page_size: int,
)
    requires
        p.valid(len, page_size),
    ensures
        p.moved_all(motions, len, page_size).valid(len, page_size),
    decreases motions.len(),
{
    if motions.len() > 0 {
        lemma_step_back_stays_aligned(p, len, page_size);
        lemma_step_forward_stays_aligned(p, len, page_size);
        lemma_page_back_stays_aligned(p, len, page_size);
        lemma_page_forward_stays_aligned(p, len, page_size);
        lemma_navigation_keeps_valid(
            p.moved(motions[0], len, page_size),
            motions.skip(1),
            len,
            page_size,
        );
    }
}

/// Away from the first item, a step back followed by a step forward leads
/// to the position it started from.
pub proof fn lemma_up_then_down_returns(p: Position, len: int, page_size: int)
    requires
        p.valid(len, page_size),
        p.selected > 0,
    ensures
        p.up(page_size).down(len, page_size) == p,
{
    lemma_aligned_neighbours(p.page_start, page_size);
}

/// Away from the last item, a step forward followed by a step back leads
/// to the position it started from.
pub proof fn lemma_down_then_up_returns(p: Position, len: int, page_size: int)
    requires
        p.valid(len, page_size),
        p.selected + 1 < len,
    ensures
        p.down(len, page_size).up(page_size) == p,
{
    lemma_aligned_neighbours(p.page_start, page_size);
}

/// On the first item a step back changes nothing, and on the last item a
/// step forward changes nothing.
pub proof fn lemma_steps_stop_at_the_ends(p: Position, len: int, page_size: int)
    requires
        p.valid(len, page_size),
    ensures
        p.selected == 0 ==> p.up(page_size) == p,
        p.selected == len - 1 ==> p.down(len, page_size) == p,
{
}

/// In a list of one item no navigation command moves anything.
pub proof fn lemma_single_item_never_moves(p: Position, motion: Motion, page_size: int)
    requires
        p.valid(1, page_size),
    ensures
        p.moved(motion, 1, page_size) == p,
{
    lemma_page_start_is_floor(p, 1, page_size);
}

/// Paging forward often enough to cover the rest of the list ends on the
/// last item, on its page, and any further paging forward stays there.
pub proof fn lemma_page_down_converges(p: Position, count: nat, len: int, page_size: int)
    requires
        p.valid(len, page_size),
        count * page_size >= len - 1 - p.selected,
    ensures
        p.page_down_times(count, len, page_size) == (Position {
            selected: len - 1,
            page_start: page_floor(len - 1, page_size),
        }),
        p.page_down_times(count, len, page_size).page_down(len, page_size) == p.page_down_times(
            count,
            len,
            page_size,
        ),
    decreases count,
{
    lemma_page_forward_stays_aligned(p, len, page_size);
    if count == 0 {
        assert(count * page_size == 0) by (nonlinear_arith)
            requires
                count == 0,
        ;
        lemma_page_start_is_floor(p, len, page_size);
    } else {
        let next = p.page_down(len, page_size);
        let rest = (count - 1) as nat;
        assert(rest * page_size == count * page_size - page_size) by (nonlinear_arith)
            requires
                rest == count - 1,
        ;
        assert(rest * page_size >= 0) by (nonlinear_arith)
            requires
                rest >= 0,
                page_size >= 1,
        ;
        lemma_page_down_converges(next, rest, len, page_size);
    }
}

/// Next to a multiple of the page size, one page size up and one down, lie
/// multiples again; and a positive multiple is at least one page size.
proof fn lemma_aligned_neighbours(start: int, page_size: int)
    requires
        page_size >= 1,
        0 <= start,
        start % page_size == 0,
    ensures
        (start + page_size) % page_size == 0,
        start > 0 ==> start >= page_size && (start - page_size) % page_size == 0,
{
    lemma_fundamental_div_mod(start, page_size);
    let q = start / page_size;
    assert(page_size * q == q * page_size) by (nonlinear_arith);
    assert((q + 1) * page_size == q * page_size + page_size) by (nonlinear_arith);
    lemma_fundamental_div_mod_converse(start + page_size, page_size, q + 1, 0);
    if start > 0 {
        assert(q >= 1) by (nonlinear_arith)
            requires
                start == q * page_size,
                start > 0,
                page_size >= 1,
        ;
        assert(q * page_size >= page_size) by (nonlinear_arith)
            requires
                q >= 1,
                page_size >= 1,
        ;
        assert((q - 1) * page_size == q * page_size - page_size) by (nonlinear_arith);
        lemma_fundamental_div_mod_converse(start - page_size, page_size, q - 1, 0);
    }
}

} // verus!
