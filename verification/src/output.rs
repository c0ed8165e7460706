//! How much is told to the user.
use vstd::prelude::*;
use vstd::string::*;

use crate::text::{pad, padded, str_views};

verus! {

/// How much is told, from nothing to everything.
#[derive(Debug, Clone, Copy, PartialEq, Eq, PartialOrd, Ord)]
pub enum Verbosity {
    Quiet,
    Normal,
    Verbose,
    VeryVerbose,
    Debug,
}

impl Verbosity {
    /// The place in the order.
    pub open spec fn level(self) -> int {
        match self {
            Verbosity::Quiet => 0,
            Verbosity::Normal => 1,
            Verbosity::Verbose => 2,
            Verbosity::VeryVerbose => 3,
            Verbosity::Debug => 4,
        }
    }

    /// The place in the order.
    pub fn rank(self) -> (r: u8)
        ensures
            r == self.level(),
    {
        match self {
            Verbosity::Quiet => 0,
            Verbosity::Normal => 1,
            Verbosity::Verbose => 2,
            Verbosity::VeryVerbose => 3,
            Verbosity::Debug => 4,
        }
    }
}

impl Default for Verbosity {
    fn default() -> (r: Verbosity)
        ensures
            r == Verbosity::Normal,
    {
        Verbosity::Normal
    }
}

/// Decides what is told. A message comes out where the user wants to hear as much; nothing
/// but JSON comes out where that was asked for.
#[derive(Debug)]
pub struct Output {
    pub verbosity: Verbosity,
    pub json_mode: bool,
}

/// The columns one after the other, each padded to its width, or to twenty where it has
/// none.
pub open spec fn row_text(columns: Seq<Seq<char>>, widths: Seq<usize>, n: int) -> Seq<char>
    decreases n,
{
    if n <= 0 || n > columns.len() {
        ""@
    } else {
        row_text(columns, widths, n - 1) + padded(
            columns[n - 1],
            if n <= widths.len() {
                widths[n - 1] as nat
            } else {
                20
            },
        )
    }
}

impl Output {
    /// A normal amount, no JSON.
    pub fn new() -> (r: Output)
        ensures
            r == (Output { verbosity: Verbosity::Normal, json_mode: false }),
    {
        Output { verbosity: Verbosity::Normal, json_mode: false }
    }

    /// Sets how much is told.
    pub fn set_verbosity(&mut self, verbosity: Verbosity)
        ensures
            *final(self) == (Output { verbosity, ..*old(self) }),
    {
        self.verbosity = verbosity;
    }

    /// Switches JSON on or off.
    pub fn set_json_mode(&mut self, json: bool)
        ensures
            *final(self) == (Output { json_mode: json, ..*old(self) }),
    {
        self.json_mode = json;
    }

    /// A message of this weight comes out.
    pub open spec fn shows(&self, least: Verbosity) -> bool {
        !self.json_mode && self.verbosity.level() >= least.level()
    }

    /// Whether a message of this weight comes out.
    pub fn should_output(&self, least: Verbosity) -> (r: bool)
        ensures
            r == self.shows(least),
    {
        !self.json_mode && self.verbosity.rank() >= least.rank()
    }

    /// A row of a table, where it comes out.
    pub fn table_row(&self, columns: &[&str], widths: &[usize]) -> (r: Option<String>)
        ensures
            r.is_some() == self.shows(Verbosity::Normal),
            r matches Some(t) ==> t@ == row_text(
                str_views(columns@),
                widths@,
                columns@.len() as int,
            ),
    {
        if !self.should_output(Verbosity::Normal) {
            return None;
        }
        let ghost all = str_views(columns@);
        let mut line = "".to_owned();
        let mut i: usize = 0;
        while i < columns.len()
            invariant
                i <= columns.len(),
                all == str_views(columns@),
                line@ == row_text(all, widths@, i as int),
            decreases columns.len() - i,
        {
            let width: usize = if i < widths.len() {
                widths[i]
            } else {
                20
            };
            assert(all[i as int] == columns@[i as int]@);
            line.append(pad(columns[i], width).as_str());
            i += 1;
        }
        Some(line)
    }

    /// Whether the user wants to hear nothing.
    pub fn is_quiet(&self) -> (r: bool)
        ensures
            r == (self.verbosity == Verbosity::Quiet),
    {
        match self.verbosity {
            Verbosity::Quiet => true,
            _ => false,
        }
    }

    /// Whether JSON was asked for.
    pub fn is_json(&self) -> (r: bool)
        ensures
            r == self.json_mode,
    {
        self.json_mode
    }
}

impl Default for Output {
    fn default() -> (r: Output)
        ensures
            r == (Output { verbosity: Verbosity::Normal, json_mode: false }),
    {
        Output::new()
    }
}

/// Who hears a message hears every message of more weight.
pub proof fn law_louder_tells_more(quiet: Output, loud: Output, least: Verbosity)
    requires
        quiet.verbosity.level() <= loud.verbosity.level(),
        quiet.json_mode == loud.json_mode,
        quiet.shows(least),
    ensures
        loud.shows(least),
{
}

} // verus!
