use super::{card_text, color_at, column_accepts, color_of, Card, Color, Expedition, Side};
use crate::error::Error;
use crate::shared::share;
use crate::text::{join, joinTexts, texts};
use std::rc::Rc;
use vstd::prelude::*;

verus! {

/// The text of row `n` of column `col`: the card there, or two spaces.
pub open spec fn cell_text(col: Seq<u8>, n: int) -> Seq<char> {
    if 0 <= n < col.len() {
        card_text(col[n])
    } else {
        seq![' ', ' ']
    }
}

/// Row `n` of the columns, one cell per color.
pub open spec fn row_text(cols: Seq<Seq<u8>>, n: int) -> Seq<char> {
    join(Seq::new(5, |i: int| cell_text(cols[i], n)), seq![' ', '|', ' '])
}

/// The length of the longest of the first `k` columns.
pub open spec fn longest(cols: Seq<Seq<u8>>, k: int) -> nat
    decreases k,
{
    if k <= 0 {
        0
    } else {
        let m = longest(cols, k - 1);
        if cols[k - 1].len() > m {
            cols[k - 1].len()
        } else {
            m
        }
    }
}

/// The number of rows that the columns take: the longest column, at least one.
pub open spec fn rows_needed(cols: Seq<Seq<u8>>) -> nat {
    if longest(cols, 5) > 1 {
        longest(cols, 5)
    } else {
        1
    }
}

/// Which row is shown on line `k`: the side facing up reads from the top card down.
pub open spec fn row_at(side: Side, rows: int, k: int) -> int {
    match side {
        Side::Down => k,
        Side::Up => rows - 1 - k,
    }
}

/// The text of the columns of one side: one line per row.
pub open spec fn halfboard_text(cols: Seq<Seq<u8>>, side: Side) -> Seq<char> {
    let rows = rows_needed(cols) as int;
    join(Seq::new(rows as nat, |k: int| row_text(cols, row_at(side, rows, k))), seq!['\n'])
}

/// The five expeditions of one side, one per color.
#[derive(Debug, PartialEq)]
pub struct Halfboard {
    side: Side,
    expeditions: Rc<Vec<Expedition>>,
}

impl View for Halfboard {
    type V = Seq<Seq<u8>>;

    /// The ids of the cards of each expedition, by color.
    closed spec fn view(&self) -> Seq<Seq<u8>> {
        self.expeditions@.map_values(|e: Expedition| e@)
    }
}

impl Clone for Halfboard {
    fn clone(&self) -> (r: Self)
        ensures
            r == *self,
    {
        Halfboard { side: self.side, expeditions: share(&self.expeditions) }
    }
}

impl Halfboard {
    pub closed spec fn spec_side(&self) -> Side {
        self.side
    }

    /// Five columns, one per color, each a well-formed expedition of that color.
    pub open spec fn wf(&self) -> bool {
        &&& self@.len() == 5
        &&& self.columns_wf()
    }

    /// One well-formed expedition per color, in the canonical order.
    pub closed spec fn columns_wf(&self) -> bool {
        &&& self.expeditions@.len() == 5
        &&& forall|i: int|
            0 <= i < 5 ==> (#[trigger] self.expeditions@[i]).spec_color() == color_at(i)
                && self.expeditions@[i].wf()
    }

    pub fn new(side: Side) -> (r: Halfboard)
        ensures
            r.wf(),
            r.spec_side() == side,
            r@ == Seq::new(5, |i: int| Seq::<u8>::empty()),
    {
        let colors = Color::all();
        let mut expeditions: Vec<Expedition> = Vec::new();
        let mut i: usize = 0;
        while i < colors.len()
            invariant
                colors@ == super::all_colors(),
                0 <= i <= 5,
                expeditions@.len() == i,
                forall|j: int|
                    0 <= j < i ==> (#[trigger] expeditions@[j]).spec_color() == color_at(j)
                        && expeditions@[j].wf() && expeditions@[j]@ == Seq::<u8>::empty(),
            decreases colors.len() - i,
        {
            expeditions.push(Expedition::new(colors[i]));
            i = i + 1;
        }
        let r = Halfboard { side, expeditions: Rc::new(expeditions) };
        assert(r@ =~= Seq::new(5, |i: int| Seq::<u8>::empty()));
        r
    }

    /// This side with `card` played on the expedition of its color.
    pub fn with(&self, card: Card) -> (r: Result<Halfboard, Error>)
        requires
            self.wf(),
        ensures
            match r {
                Ok(h) => {
                    &&& column_accepts(
                        self@[color_of(card@).index()],
                        color_of(card@),
                        card@,
                    )
                    &&& h@ == self@.update(
                        color_of(card@).index(),
                        self@[color_of(card@).index()].push(card@),
                    )
                    &&& h.wf()
                    &&& h.spec_side() == self.spec_side()
                },
                Err(e) => {
                    &&& !column_accepts(
                        self@[color_of(card@).index()],
                        color_of(card@),
                        card@,
                    )
                    &&& e == Error::CannotAccept { card }
                },
            },
    {
        let color = card.color();
        let exp = self.exp(color);
        match exp.with(card) {
            None => Err(Error::CannotAccept { card }),
            Some(newExp) => {
                let ci = color.toId() as usize;
                let mut newHalf: Vec<Expedition> = Vec::new();
                let mut i: usize = 0;
                while i < 5
                    invariant
                        self.wf(),
                        ci == color.index(),
                        color == color_of(card@),
                        newExp@ == self@[ci as int].push(card@),
                        newExp.spec_color() == color_at(ci as int),
                        newExp.wf(),
                        0 <= i <= 5,
                        newHalf@.len() == i,
                        forall|j: int|
                            0 <= j < i ==> #[trigger] newHalf@[j] == (if j == ci {
                                newExp
                            } else {
                                self.expeditions@[j]
                            }),
                    decreases 5 - i,
                {
                    if i == ci {
                        newHalf.push(newExp.clone());
                    } else {
                        newHalf.push(self.expeditions[i].clone());
                    }
                    i = i + 1;
                }
                let h = Halfboard { side: self.side, expeditions: Rc::new(newHalf) };
                assert(h@ =~= self@.update(ci as int, self@[ci as int].push(card@)));
                Ok(h)
            },
        }
    }

    pub fn canAccept(&self, card: Card) -> (r: bool)
        requires
            self.wf(),
        ensures
            r == column_accepts(self@[color_of(card@).index()], color_of(card@), card@),
    {
        self.exp(card.color()).canAccept(card)
    }

    /// The expedition of color `color`.
    pub fn exp(&self, color: Color) -> (r: &Expedition)
        requires
            self.wf(),
        ensures
            r@ == self@[color.index()],
            r.spec_color() == color,
            r.wf(),
    {
        proof {
            color.lemma_index();
        }
        &self.expeditions[color.toId() as usize]
    }

    pub fn side(&self) -> (r: Side)
        ensures
            r == self.spec_side(),
    {
        self.side
    }

    fn displayColLen(&self) -> (r: usize)
        requires
            self.wf(),
        ensures
            r == rows_needed(self@),
    {
        let mut n: usize = 0;
        let mut i: usize = 0;
        while i < 5
            invariant
                self.wf(),
                0 <= i <= 5,
                n == longest(self@, i as int),
            decreases 5 - i,
        {
            let k = self.expeditions[i].nbCards();
            if k > n {
                n = k;
            }
            i = i + 1;
        }
        if n > 1 {
            n
        } else {
            1
        }
    }

    fn rowText(&self, n: usize) -> (r: String)
        requires
            self.wf(),
        ensures
            r@ == row_text(self@, n as int),
    {
        let mut cells: Vec<String> = Vec::new();
        let mut i: usize = 0;
        while i < 5
            invariant
                self.wf(),
                0 <= i <= 5,
                cells@.len() == i,
                forall|j: int| 0 <= j < i ==> (#[trigger] cells@[j])@ == cell_text(self@[j], n as int),
            decreases 5 - i,
        {
            let cell = match self.expeditions[i].nth(n) {
                Some(card) => card.toText(),
                None => {
                    proof {
                        reveal_strlit("  ");
                    }
                    String::from_str("  ")
                },
            };
            proof {
                reveal_strlit("  ");
                assert(cell@ =~= cell_text(self@[i as int], n as int));
            }
            cells.push(cell);
            i = i + 1;
        }
        proof {
            reveal_strlit(" | ");
            assert(texts(cells@) =~= Seq::new(5, |j: int| cell_text(self@[j], n as int)));
            assert(" | "@ =~= seq![' ', '|', ' ']);
        }
        joinTexts(&cells, " | ")
    }

    /// The text of this side: one line per row, the cells of a row separated by bars.
    pub fn toText(&self) -> (r: String)
        requires
            self.wf(),
        ensures
            r@ == halfboard_text(self@, self.spec_side()),
    {
        let rows = self.displayColLen();
        let mut lines: Vec<String> = Vec::new();
        let mut k: usize = 0;
        while k < rows
            invariant
                self.wf(),
                rows == rows_needed(self@),
                0 <= k <= rows,
                lines@.len() == k,
                forall|j: int|
                    0 <= j < k ==> (#[trigger] lines@[j])@ == row_text(
                        self@,
                        row_at(self.spec_side(), rows as int, j),
                    ),
            decreases rows - k,
        {
            let n = match self.side {
                Side::Down => k,
                Side::Up => rows - 1 - k,
            };
            lines.push(self.rowText(n));
            k = k + 1;
        }
        proof {
            reveal_strlit("\n");
            assert(texts(lines@) =~= Seq::new(
                rows as nat,
                |j: int| row_text(self@, row_at(self.spec_side(), rows as int, j)),
            ));
            assert("\n"@ =~= seq!['\n']);
        }
        joinTexts(&lines, "\n")
    }
}

} // verus!
