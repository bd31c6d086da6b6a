//! The configured blocks of the status line.

use vstd::prelude::*;
use vstd::string::StringExecFns;

verus! {

/// One segment of the status line: a command and the decoration around its output.
#[derive(Debug, Clone, PartialEq, Eq)]
pub struct Block {
    /// Command text, handed to the shell. A block with an empty command never runs.
    pub execute: String,
    /// Text placed before the command's output.
    pub before: Option<String>,
    /// Text placed after the command's output.
    pub after: Option<String>,
    /// Refresh interval in nanoseconds. `None` or zero: the block is refreshed by hits only.
    pub interval: Option<u64>,
}

/// The whole configuration: the blocks in display order and the text between them.
#[derive(Debug, Clone, PartialEq, Eq)]
pub struct Config {
    /// Text placed between two neighbouring cells; nothing when `None`.
    pub delimiter: Option<String>,
    /// The blocks. The position of a block in this list is its index.
    pub block: Vec<Block>,
}

/// The characters of an optional text, none when the text is absent.
pub open spec fn text_or_empty(text: Option<String>) -> Seq<char> {
    match text {
        Some(s) => s@,
        None => Seq::empty(),
    }
}

impl Block {
    /// The command's output `content` with this block's decoration around it.
    pub open spec fn decorated(&self, content: Seq<char>) -> Seq<char> {
        text_or_empty(self.before) + content + text_or_empty(self.after)
    }

    /// Whether the block has a command to run.
    pub open spec fn runnable(&self) -> bool {
        self.execute@.len() > 0
    }

    /// Whether the block is refreshed on a timer.
    pub open spec fn periodic(&self) -> bool {
        self.interval matches Some(t) && t > 0
    }

    /// True when the block has no command.
    pub fn is_empty(&self) -> (empty: bool)
        ensures
            empty == !self.runnable(),
    {
        self.execute.as_str().is_empty()
    }

    /// Wraps the output `content` of the command in the block's decoration.
    pub fn print(&self, content: String) -> (cell: String)
        ensures
            cell@ == self.decorated(content@),
    {
        let mut cell = String::new();
        if let Some(before) = &self.before {
            cell.append(before.as_str());
        }
        cell.append(content.as_str());
        if let Some(after) = &self.after {
            cell.append(after.as_str());
        }
        cell
    }
}

} // verus!
