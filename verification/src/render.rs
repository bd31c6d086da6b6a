//! Rendering the cells into the one text that is shown.

use vstd::prelude::*;
use vstd::string::StringExecFns;

verus! {

/// Whether a cell has anything to show.
pub open spec fn shown(cell: Seq<char>) -> bool {
    cell.len() > 0
}

/// `parts` one after another with `delimiter` between each two neighbours.
pub open spec fn joined(parts: Seq<Seq<char>>, delimiter: Seq<char>) -> Seq<char>
    decreases parts.len(),
{
    if parts.len() == 0 {
        Seq::empty()
    } else if parts.len() == 1 {
        parts[0]
    } else {
        joined(parts.drop_last(), delimiter) + delimiter + parts.last()
    }
}

/// The status text of `cells`: the empty cells dropped, the others joined by `delimiter`.
pub open spec fn rendered(cells: Seq<Seq<char>>, delimiter: Seq<char>) -> Seq<char> {
    joined(cells.filter(|cell: Seq<char>| shown(cell)), delimiter)
}

/// Appending one cell to the cells already rendered.
pub proof fn lemma_rendered_push(cells: Seq<Seq<char>>, cell: Seq<char>, delimiter: Seq<char>)
    ensures
        !shown(cell) ==> rendered(cells.push(cell), delimiter) == rendered(cells, delimiter),
        shown(cell) && cells.filter(|c: Seq<char>| shown(c)).len() == 0 ==> rendered(
            cells.push(cell),
            delimiter,
        ) == cell,
        shown(cell) && cells.filter(|c: Seq<char>| shown(c)).len() > 0 ==> rendered(
            cells.push(cell),
            delimiter,
        ) == rendered(cells, delimiter) + delimiter + cell,
        cells.push(cell).filter(|c: Seq<char>| shown(c)).len() == cells.filter(
            |c: Seq<char>| shown(c),
        ).len() + (if shown(cell) { 1int } else { 0int }),
{
    let keep = |c: Seq<char>| shown(c);
    reveal(Seq::filter);
    assert(cells.push(cell).drop_last() == cells);
    assert(cells.push(cell).last() == cell);
    if shown(cell) {
        let kept = cells.filter(keep);
        assert(cells.push(cell).filter(keep) == kept.push(cell));
        assert(kept.push(cell).drop_last() == kept);
        assert(kept.push(cell).last() == cell);
    }
}

/// Renders `cells` into the status text.
pub fn render(cells: &Vec<String>, delimiter: &str) -> (text: String)
    ensures
        text@ == rendered(cells.deep_view(), delimiter@),
{
    let mut text = String::new();
    let mut any = false;
    let mut i: usize = 0;
    assert(cells.deep_view().take(0) == Seq::<Seq<char>>::empty());
    proof {
        reveal(Seq::filter);
    }
    while i < cells.len()
        invariant
            i <= cells.len(),
            text@ == rendered(cells.deep_view().take(i as int), delimiter@),
            any == (cells.deep_view().take(i as int).filter(|c: Seq<char>| shown(c)).len() > 0),
        decreases cells.len() - i,
    {
        let cell = &cells[i];
        proof {
            let done = cells.deep_view().take(i as int);
            assert(cells.deep_view().take(i + 1) == done.push(cell@));
            lemma_rendered_push(done, cell@, delimiter@);
        }
        if !cell.as_str().is_empty() {
            if any {
                text.append(delimiter);
            }
            text.append(cell.as_str());
            any = true;
        }
        i += 1;
    }
    assert(cells.deep_view().take(cells.len() as int) == cells.deep_view());
    text
}

} // verus!
