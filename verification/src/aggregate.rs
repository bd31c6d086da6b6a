//! The aggregator: the one place where a batch of block indices becomes
//! commands to run, and where the output of those commands reaches the cells.
//!
//! A batch is handled in two steps. `plan` names the commands to start; the
//! caller starts them all, waits for every one of them, and hands what they
//! wrote to `commit`. The cells change only there, all at once, and a text to
//! publish comes back only when they did change.

use vstd::prelude::*;
use vstd::utf8::{decode_utf8, valid_utf8};
use crate::config::{text_or_empty, Block, Config};
use crate::render::{render, rendered};
use crate::text::{decode_lossy, lossy_text};

verus! {

/// The shell that runs every command.
pub const SHELL: &'static str = "sh";

/// The switch after which the shell takes the command text.
pub const SHELL_SWITCH: &'static str = "-c";

/// A command to start through the shell, for the block at `index`.
#[derive(Debug, Clone, PartialEq, Eq)]
pub struct Spawn {
    pub index: usize,
    pub command: String,
}

/// How a started command ended, as the caller saw it.
#[derive(Debug, Clone, PartialEq, Eq)]
pub struct Exit {
    pub index: usize,
    /// What the command wrote to its standard output. `None` when the command
    /// could not be started or could not be waited for.
    pub stdout: Option<Vec<u8>>,
}

/// The output of a command as text.
#[derive(Debug, Clone, PartialEq, Eq)]
pub struct Output {
    pub index: usize,
    /// The text that the command wrote, `None` when there is none to use.
    pub text: Option<String>,
}

/// One write to the cells: the text that a command wrote for the block at `index`.
pub struct Written {
    pub index: usize,
    pub text: Option<Seq<char>>,
}

impl DeepView for Output {
    type V = Written;

    open spec fn deep_view(&self) -> Written {
        Written {
            index: self.index,
            text: match self.text {
                Some(text) => Some(text@),
                None => None,
            },
        }
    }
}

impl Exit {
    /// The write that this exit amounts to once its bytes are decoded.
    pub open spec fn decoded(&self) -> Written {
        Written {
            index: self.index,
            text: match self.stdout {
                Some(bytes) => Some(lossy_text(bytes@)),
                None => None,
            },
        }
    }
}

/// The writes that `exits` amount to, in the same order.
pub open spec fn decoded_all(exits: Seq<Exit>) -> Seq<Written> {
    exits.map_values(|exit: Exit| exit.decoded())
}

/// Whether the block at `index` exists and has a command.
pub open spec fn can_run(blocks: Seq<Block>, index: usize) -> bool {
    index < blocks.len() && blocks[index as int].runnable()
}

/// The indices of `batch` for which a command is started, in the order of the batch.
pub open spec fn planned(blocks: Seq<Block>, batch: Seq<usize>) -> Seq<usize> {
    batch.filter(|index: usize| can_run(blocks, index))
}

/// The cells after one write. A write without text, to an index out of range
/// or to a block without a command leaves every cell as it was.
pub open spec fn write_one(blocks: Seq<Block>, cells: Seq<Seq<char>>, write: Written) -> Seq<
    Seq<char>,
> {
    match write.text {
        Some(text) if can_run(blocks, write.index) && write.index < cells.len() => cells.update(
            write.index as int,
            blocks[write.index as int].decorated(text),
        ),
        _ => cells,
    }
}

/// The cells after all of `writes`, applied in order to a copy of `cells`.
pub open spec fn staged(blocks: Seq<Block>, cells: Seq<Seq<char>>, writes: Seq<Written>) -> Seq<
    Seq<char>,
>
    decreases writes.len(),
{
    if writes.len() == 0 {
        cells
    } else {
        write_one(blocks, staged(blocks, cells, writes.drop_last()), writes.last())
    }
}

/// Staging never changes the number of cells.
pub proof fn lemma_staged_len(blocks: Seq<Block>, cells: Seq<Seq<char>>, writes: Seq<Written>)
    ensures
        staged(blocks, cells, writes).len() == cells.len(),
    decreases writes.len(),
{
    if writes.len() > 0 {
        lemma_staged_len(blocks, cells, writes.drop_last());
    }
}

/// Whether two lists of cells hold the same text, cell by cell.
pub fn same_cells(left: &Vec<String>, right: &Vec<String>) -> (same: bool)
    ensures
        same == (left.deep_view() == right.deep_view()),
{
    if left.len() != right.len() {
        assert(left.deep_view().len() != right.deep_view().len());
        return false;
    }
    let mut i: usize = 0;
    while i < left.len()
        invariant
            i <= left.len(),
            left.len() == right.len(),
            forall|k: int| 0 <= k < i ==> (#[trigger] left[k])@ == right[k]@,
        decreases left.len() - i,
    {
        if left[i] != right[i] {
            assert(left.deep_view()[i as int] != right.deep_view()[i as int]);
            return false;
        }
        i += 1;
    }
    assert(left.deep_view() =~= right.deep_view());
    true
}

/// What the aggregator stands for: the blocks, the delimiter and the text of each cell.
pub struct Board {
    pub blocks: Seq<Block>,
    pub delimiter: Seq<char>,
    pub cells: Seq<Seq<char>>,
}

/// The blocks of a status line together with the last output of each.
pub struct AtomBlocks {
    config: Config,
    cells: Vec<String>,
}

impl View for AtomBlocks {
    type V = Board;

    closed spec fn view(&self) -> Board {
        Board {
            blocks: self.config.block@,
            delimiter: text_or_empty(self.config.delimiter),
            cells: self.cells.deep_view(),
        }
    }
}

impl AtomBlocks {
    /// There is one cell for each block.
    #[verifier::type_invariant]
    spec fn one_cell_each(&self) -> bool {
        self.cells@.len() == self.config.block@.len()
    }

    /// An aggregator for `config` in which no block has produced output yet.
    pub fn new(config: Config) -> (bar: Self)
        ensures
            bar@.blocks == config.block@,
            bar@.delimiter == text_or_empty(config.delimiter),
            bar@.cells == Seq::new(config.block@.len(), |i: int| Seq::<char>::empty()),
    {
        let mut cells: Vec<String> = Vec::new();
        let mut i: usize = 0;
        while i < config.block.len()
            invariant
                i <= config.block.len(),
                cells.len() == i,
                forall|k: int| 0 <= k < i ==> (#[trigger] cells[k])@ == Seq::<char>::empty(),
            decreases config.block.len() - i,
        {
            cells.push(String::new());
            i += 1;
        }
        AtomBlocks { config, cells }
    }

    /// The configuration that the aggregator was made for.
    pub fn config(&self) -> (config: &Config)
        ensures
            config.block@ == self@.blocks,
            text_or_empty(config.delimiter) == self@.delimiter,
    {
        &self.config
    }

    /// The cells, one for each block.
    pub fn cells(&self) -> (cells: &Vec<String>)
        ensures
            cells.deep_view() == self@.cells,
            cells.len() == self@.blocks.len(),
    {
        proof {
            use_type_invariant(self);
        }
        &self.cells
    }

    /// The commands to start for `batch`: one for each index of the batch that
    /// names a block with a command, in the order of the batch. Indices out of
    /// range and blocks without a command are passed over.
    pub fn plan(&self, batch: &Vec<usize>) -> (spawns: Vec<Spawn>)
        ensures
            spawns.len() == planned(self@.blocks, batch@).len(),
            forall|k: int|
                0 <= k < spawns.len() ==> {
                    let index = planned(self@.blocks, batch@)[k];
                    &&& can_run(self@.blocks, index)
                    &&& (#[trigger] spawns[k]).index == index
                    &&& spawns[k].command@ == self@.blocks[index as int].execute@
                },
    {
        let ghost blocks = self@.blocks;
        let ghost keep = |index: usize| can_run(blocks, index);
        let mut spawns: Vec<Spawn> = Vec::new();
        let mut i: usize = 0;
        proof {
            reveal(Seq::filter);
            assert(batch@.take(0) == Seq::<usize>::empty());
        }
        while i < batch.len()
            invariant
                i <= batch.len(),
                blocks == self@.blocks,
                blocks == self.config.block@,
                keep == |index: usize| can_run(blocks, index),
                spawns.len() == batch@.take(i as int).filter(keep).len(),
                forall|k: int|
                    0 <= k < spawns.len() ==> {
                        let index = batch@.take(i as int).filter(keep)[k];
                        &&& can_run(blocks, index)
                        &&& (#[trigger] spawns[k]).index == index
                        &&& spawns[k].command@ == blocks[index as int].execute@
                    },
            decreases batch.len() - i,
        {
            let index = batch[i];
            proof {
                reveal(Seq::filter);
                let done = batch@.take(i as int);
                assert(batch@.take(i + 1) == done.push(index));
                assert(done.push(index).drop_last() == done);
            }
            if index < self.config.block.len() && !self.config.block[index].is_empty() {
                let command = self.config.block[index].execute.clone();
                spawns.push(Spawn { index, command });
            }
            i += 1;
        }
        assert(batch@.take(batch.len() as int) == batch@);
        spawns
    }

    /// Turns the bytes of each exit into text, invalid sequences replaced.
    /// Bytes that are well-formed UTF-8 are decoded as they stand.
    pub fn decode(exits: &Vec<Exit>) -> (outputs: Vec<Output>)
        ensures
            outputs.deep_view() == decoded_all(exits@),
            forall|k: int|
                #![trigger exits[k]]
                0 <= k < exits.len() ==> match exits[k].stdout {
                    Some(bytes) if valid_utf8(bytes@) => outputs.deep_view()[k].text == Some(
                        decode_utf8(bytes@),
                    ),
                    _ => true,
                },
    {
        let mut outputs: Vec<Output> = Vec::new();
        let mut i: usize = 0;
        while i < exits.len()
            invariant
                i <= exits.len(),
                outputs.len() == i,
                forall|k: int| 0 <= k < i ==> (#[trigger] outputs[k]).deep_view() == exits[k].decoded(),
                forall|k: int|
                    #![trigger exits[k]]
                    0 <= k < i ==> match exits[k].stdout {
                        Some(bytes) if valid_utf8(bytes@) => outputs[k].deep_view().text == Some(
                            decode_utf8(bytes@),
                        ),
                        _ => true,
                    },
            decreases exits.len() - i,
        {
            let exit = &exits[i];
            let text = match &exit.stdout {
                Some(bytes) => Some(decode_lossy(bytes.as_slice())),
                None => None,
            };
            outputs.push(Output { index: exit.index, text });
            i += 1;
        }
        assert(outputs.deep_view() =~= decoded_all(exits@));
        outputs
    }

    /// A copy of the cells with `outputs` written into it, in order. Each text
    /// is wrapped in the decoration of its block. The cells themselves stay as
    /// they are.
    pub fn stage(&self, outputs: &Vec<Output>) -> (cells: Vec<String>)
        ensures
            cells.deep_view() == staged(self@.blocks, self@.cells, outputs.deep_view()),
            cells.len() == self@.blocks.len(),
    {
        proof {
            use_type_invariant(self);
        }
        let ghost blocks = self@.blocks;
        let ghost before = self@.cells;
        let ghost writes = outputs.deep_view();
        let mut cells = self.cells.clone();
        assert(cells.deep_view() =~= before);
        assert(writes.take(0) == Seq::<Written>::empty());
        let mut i: usize = 0;
        while i < outputs.len()
            invariant
                i <= outputs.len(),
                blocks == self.config.block@,
                writes == outputs.deep_view(),
                cells.len() == blocks.len(),
                cells.deep_view() == staged(blocks, before, writes.take(i as int)),
            decreases outputs.len() - i,
        {
            let output = &outputs[i];
            proof {
                let done = writes.take(i as int);
                assert(writes.take(i + 1) == done.push(output.deep_view()));
                assert(done.push(output.deep_view()).drop_last() == done);
            }
            if output.index < self.config.block.len() {
                let block = &self.config.block[output.index];
                if !block.is_empty() {
                    if let Some(text) = &output.text {
                        let ghost old_cells = cells.deep_view();
                        let cell = block.print(text.clone());
                        cells.set(output.index, cell);
                        assert(cells.deep_view() =~= old_cells.update(
                            output.index as int,
                            block.decorated(text@),
                        ));
                    }
                }
            }
            i += 1;
        }
        assert(writes.take(outputs.len() as int) == writes);
        cells
    }

    /// Puts `outputs` into the cells, all of them at once, and says what to
    /// publish. The writes go to a staged copy first. When the copy differs
    /// from the cells in some cell, it takes their place and the new status
    /// text is returned; when it does not, nothing changes and nothing is to
    /// be published.
    pub fn settle(&mut self, outputs: &Vec<Output>) -> (publish: Option<String>)
        ensures
            final(self)@.blocks == old(self)@.blocks,
            final(self)@.delimiter == old(self)@.delimiter,
            final(self)@.cells == staged(old(self)@.blocks, old(self)@.cells, outputs.deep_view()),
            publish is Some <==> final(self)@.cells != old(self)@.cells,
            publish matches Some(text) ==> text@ == rendered(
                final(self)@.cells,
                final(self)@.delimiter,
            ),
    {
        let staged_cells = self.stage(outputs);
        if same_cells(&staged_cells, &self.cells) {
            None
        } else {
            self.cells = staged_cells;
            Some(self.print())
        }
    }

    /// Handles the end of a batch: decodes what the commands wrote and settles
    /// it into the cells. An exit without output leaves its cell as it was and
    /// does not keep the other exits of the batch from being used.
    pub fn commit(&mut self, exits: &Vec<Exit>) -> (publish: Option<String>)
        ensures
            final(self)@.blocks == old(self)@.blocks,
            final(self)@.delimiter == old(self)@.delimiter,
            final(self)@.cells == staged(old(self)@.blocks, old(self)@.cells, decoded_all(exits@)),
            publish is Some <==> final(self)@.cells != old(self)@.cells,
            publish matches Some(text) ==> text@ == rendered(
                final(self)@.cells,
                final(self)@.delimiter,
            ),
    {
        let outputs = Self::decode(exits);
        self.settle(&outputs)
    }

    /// The status text of the cells as they are: the empty cells dropped, the
    /// others joined by the delimiter.
    pub fn print(&self) -> (text: String)
        ensures
            text@ == rendered(self@.cells, self@.delimiter),
    {
        match &self.config.delimiter {
            Some(delimiter) => render(&self.cells, delimiter.as_str()),
            None => {
                let text = render(&self.cells, "");
                assert(""@ == Seq::<char>::empty()) by {
                    reveal_strlit("");
                    assert(""@.len() == 0);
                }
                text
            },
        }
    }
}

/// Failure is contained: an exit without output counts for nothing. The
/// staged cells are those of the same batch without that exit, so every
/// other exit of the batch is used as if the failed one had never been there.
pub proof fn law_failed_write_is_no_write(
    blocks: Seq<Block>,
    cells: Seq<Seq<char>>,
    writes: Seq<Written>,
    k: int,
)
    requires
        0 <= k < writes.len(),
        writes[k].text is None,
    ensures
        staged(blocks, cells, writes) == staged(blocks, cells, writes.remove(k)),
    decreases writes.len(),
{
    if k == writes.len() - 1 {
        assert(writes.remove(k) == writes.drop_last());
    } else {
        law_failed_write_is_no_write(blocks, cells, writes.drop_last(), k);
        assert(writes.remove(k).drop_last() == writes.drop_last().remove(k));
        assert(writes.remove(k).last() == writes.last());
    }
}

/// A cell changes only through a write with text to its own block, and only
/// if that block has a command: where a batch holds no such write for
/// `index`, the staged cell is the cell as it was.
pub proof fn law_cell_without_output_unchanged(
    blocks: Seq<Block>,
    cells: Seq<Seq<char>>,
    writes: Seq<Written>,
    index: usize,
)
    requires
        index < cells.len(),
        forall|k: int|
            0 <= k < writes.len() && (#[trigger] writes[k]).index == index ==> writes[k].text is None
                || !can_run(blocks, index),
    ensures
        staged(blocks, cells, writes)[index as int] == cells[index as int],
    decreases writes.len(),
{
    if writes.len() > 0 {
        law_cell_without_output_unchanged(blocks, cells, writes.drop_last(), index);
        lemma_staged_len(blocks, cells, writes.drop_last());
        assert(writes.last() == writes[writes.len() - 1]);
    }
}

/// The last output of a block in a batch is the one that its cell shows,
/// wrapped in the block's decoration, whatever else the batch holds.
pub proof fn law_last_output_stands(
    blocks: Seq<Block>,
    cells: Seq<Seq<char>>,
    writes: Seq<Written>,
    k: int,
)
    requires
        0 <= k < writes.len(),
        writes[k].text is Some,
        can_run(blocks, writes[k].index),
        writes[k].index < cells.len(),
        forall|m: int|
            k < m < writes.len() && (#[trigger] writes[m]).index == writes[k].index
                ==> writes[m].text is None,
    ensures
        staged(blocks, cells, writes)[writes[k].index as int] == blocks[writes[k].index as int].decorated(
            writes[k].text->0,
        ),
    decreases writes.len(),
{
    lemma_staged_len(blocks, cells, writes.drop_last());
    if k < writes.len() - 1 {
        law_last_output_stands(blocks, cells, writes.drop_last(), k);
        assert(writes.last() == writes[writes.len() - 1]);
    }
}

} // verus!
