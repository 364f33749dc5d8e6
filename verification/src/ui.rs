//! How output is shown.

use vstd::prelude::*;

use crate::clock::{local_time, offset_range, renders_locally, time_text};
use crate::size::{human_size, humanize_bytes};
use crate::style::{heading_style, heading_text};
use crate::text::{decimal, decimal_text, hex_literal};

verus! {

/// The shape of listings.
#[derive(Copy, Clone, Debug, PartialEq, Eq, Structural)]
pub enum OutputFormat {
    /// Tab-separated values. Parse-friendly, no color, no borders.
    Plain,
    /// Boxed tables with light color accents.
    Pretty,
}

/// The output options of one run.
#[derive(Copy, Clone, Debug)]
pub struct UiCtx {
    pub format: OutputFormat,
    pub no_progress: bool,
    pub raw_bytes: bool,
}

impl UiCtx {
    /// Whether listings are shown as tables.
    pub open spec fn is_pretty(self) -> bool {
        self.format == OutputFormat::Pretty
    }

    /// How a file size is shown.
    pub open spec fn size_text(self, n: nat) -> Seq<char> {
        if self.raw_bytes {
            decimal(n)
        } else {
            human_size(n)
        }
    }

    pub fn pretty(&self) -> (r: bool)
        ensures
            r == self.is_pretty(),
    {
        match self.format {
            OutputFormat::Pretty => true,
            OutputFormat::Plain => false,
        }
    }

    /// A file size: the raw count where asked for, else in humanised units.
    pub fn fmt_bytes(&self, n: u64) -> (r: String)
        ensures
            r@ == self.size_text(n as nat),
    {
        if self.raw_bytes {
            decimal_text(n)
        } else {
            humanize_bytes(n)
        }
    }

    /// A FILETIME for humans as a local date and time ("2026-04-20 15:42:10").
    /// Falls back to the raw FILETIME in hex only where the value is out of
    /// range.
    pub fn fmt_time(&self, ticks: u64) -> (r: String)
        ensures
            exists|offset: i32|
                offset_range(offset as int) && r@ == #[trigger] time_text(ticks, offset),
            !renders_locally(ticks) ==> r@ == hex_literal(ticks as nat, 16),
    {
        local_time(ticks)
    }
}

/// Styles the heading of a listing.
pub fn heading_label(label: &str, ui: &UiCtx, colors: bool) -> (r: String)
    ensures
        r@ == heading_text(label@, ui.is_pretty(), colors),
{
    heading_style(label, ui.pretty(), colors)
}

/// Sizes are shown as bare numbers of bytes where raw bytes are asked for, and
/// in units otherwise. The format makes no difference.
pub proof fn sizes_are_shown_raw_or_in_units(ui: UiCtx, n: nat)
    ensures
        ui.raw_bytes ==> ui.size_text(n) == decimal(n),
        !ui.raw_bytes ==> ui.size_text(n) == human_size(n),
{
}

} // verus!
