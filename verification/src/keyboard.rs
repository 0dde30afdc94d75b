//! The battle choice keyboard: a 3x3 grid of cells labeled "0" to "8" in
//! row-major order, each cell's click payload equal to its label.

use crate::numbers::dec_digits;
use crate::numbers::u32_text;
use vstd::prelude::*;

verus! {

/// One cell of an interactive keyboard: a visible label, and the payload the
/// channel hands back when the cell is clicked.
pub struct ChoiceButton {
    pub label: String,
    pub payload: String,
}

/// The text of the battle cell in row r, column c.
pub open spec fn cell_text(r: int, c: int) -> Seq<char> {
    dec_digits((3 * r + c) as nat)
}

fn numbered_button(d: u32) -> (b: ChoiceButton)
    requires
        d < 10,
    ensures
        b.label@ == dec_digits(d as nat),
        b.payload@ == dec_digits(d as nat),
{
    let label = u32_text(d);
    let payload = label.clone();
    ChoiceButton { label, payload }
}

/// Build the battle keyboard: three rows of three cells, labeled "0" to "8"
/// in row-major order, the payload of each cell equal to its label.
pub fn battle_keyboard() -> (kb: Vec<Vec<ChoiceButton>>)
    ensures
        kb@.len() == 3,
        forall|r: int| 0 <= r < 3 ==> (#[trigger] kb@[r])@.len() == 3,
        forall|r: int, c: int|
            0 <= r < 3 && 0 <= c < 3 ==> (#[trigger] kb@[r]@[c]).label@ == cell_text(r, c)
                && kb@[r]@[c].payload@ == cell_text(r, c),
{
    let mut kb: Vec<Vec<ChoiceButton>> = Vec::new();
    let mut r: u32 = 0;
    while r < 3
        invariant
            r <= 3,
            kb@.len() == r,
            forall|i: int| 0 <= i < r ==> (#[trigger] kb@[i])@.len() == 3,
            forall|i: int, c: int|
                0 <= i < r && 0 <= c < 3 ==> (#[trigger] kb@[i]@[c]).label@ == cell_text(i, c)
                    && kb@[i]@[c].payload@ == cell_text(i, c),
        decreases 3 - r,
    {
        let mut row: Vec<ChoiceButton> = Vec::new();
        let mut c: u32 = 0;
        while c < 3
            invariant
                r < 3,
                c <= 3,
                row@.len() == c,
                forall|j: int|
                    0 <= j < c ==> (#[trigger] row@[j]).label@ == cell_text(r as int, j)
                        && row@[j].payload@ == cell_text(r as int, j),
            decreases 3 - c,
        {
            row.push(numbered_button(3 * r + c));
            c += 1;
        }
        kb.push(row);
        r += 1;
    }
    kb
}

} // verus!
