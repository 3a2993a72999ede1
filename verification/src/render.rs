use vstd::prelude::*;
use vstd::string::StringExecFns;

verus! {

/// The verbose text of the first `k` cells of a row-major grid of
/// already-formatted cells: every cell is followed by a tab, and
/// every row of `cols` cells starts on a fresh line.
pub open spec fn grid_text(cells: Seq<Seq<char>>, cols: int, k: int) -> Seq<char>
    recommends
        1 <= cols,
    decreases k,
{
    if k <= 0 {
        Seq::empty()
    } else {
        let sep: Seq<char> = if (k - 1) % cols == 0 {
            seq!['\n']
        } else {
            Seq::empty()
        };
        grid_text(cells, cols, k - 1) + sep + cells[k - 1] + seq!['\t']
    }
}

/// Lays formatted cells out as a matrix's verbose rendering, row by
/// row: a newline before each row of `cols` cells, a tab after each
/// cell. The caller formats each entry; this settles where every
/// separator goes.
pub fn layout_grid(cells: &Vec<String>, cols: usize) -> (r: String)
    requires
        1 <= cols,
    ensures
        r@ == grid_text(cells@.map_values(|s: String| s@), cols as int, cells@.len() as int),
{
    let ghost gcells = cells@.map_values(|s: String| s@);
    let mut out = String::new();
    let mut idx: usize = 0;
    while idx < cells.len()
        invariant
            1 <= cols,
            idx <= cells@.len(),
            gcells == cells@.map_values(|s: String| s@),
            out@ == grid_text(gcells, cols as int, idx as int),
        decreases cells@.len() - idx,
    {
        proof {
            reveal_strlit("\n");
            reveal_strlit("\t");
        }
        if idx % cols == 0 {
            out.append("\n");
        }
        out.append(cells[idx].as_str());
        out.append("\t");
        idx = idx + 1;
        proof {
            assert(out@ =~= grid_text(gcells, cols as int, idx as int));
        }
    }
    out
}

} // verus!
