//! What the server's dashboard shows: which agent's details are displayed.
//! Drawing is the caller's part.

use vstd::prelude::*;
use crate::model::{Metrics, SystemInfo};

verus! {

/// Which agent the details panel shows.
#[derive(Debug, Clone, Copy, PartialEq, Eq, Structural)]
pub enum DisplayChoice {
    /// No agent is selected and none has connected.
    NoAgents,
    /// The selected agent is no longer in the snapshot.
    Missing,
    /// Show the snapshot row at this position.
    Show(usize),
}

/// The agent to display: the selected one, or else the first of the
/// snapshot.
pub open spec fn display_target(
    selected: Option<Seq<char>>,
    rows: Seq<(String, SystemInfo, Option<Metrics>, u64)>,
) -> Option<Seq<char>> {
    match selected {
        Some(id) => Some(id),
        None => if rows.len() > 0 { Some(rows[0].0@) } else { None },
    }
}

/// Picks the snapshot row to display: the first row of the selected agent
/// (or of the first agent when none is selected).
pub fn display_choice(
    selected: &Option<String>,
    rows: &Vec<(String, SystemInfo, Option<Metrics>, u64)>,
) -> (c: DisplayChoice)
    ensures
        match display_target(
            match selected { Some(s) => Some(s@), None => None },
            rows@,
        ) {
            None => c is NoAgents,
            Some(target) => match c {
                DisplayChoice::Show(i) => i < rows@.len() && rows@[i as int].0@ == target
                    && forall|j: int| 0 <= j < i ==> rows@[j].0@ != target,
                DisplayChoice::Missing => forall|j: int| 0 <= j < rows@.len() ==> rows@[j].0@ != target,
                DisplayChoice::NoAgents => false,
            },
        },
{
    let n = rows.len();
    let target: &String = match selected {
        Some(s) => s,
        None => {
            if n == 0 {
                return DisplayChoice::NoAgents;
            }
            &rows[0].0
        },
    };
    let ghost sel = match selected { Some(s) => Some(s@), None => None };
    assert(display_target(sel, rows@) == Some(target@));
    let mut i: usize = 0;
    while i < n
        invariant
            n == rows@.len(),
            sel == (match selected { Some(s) => Some(s@), None => None::<Seq<char>> }),
            display_target(sel, rows@) == Some(target@),
            i <= n,
            forall|j: int| 0 <= j < i ==> rows@[j].0@ != target@,
        decreases n - i,
    {
        if rows[i].0 == *target {
            return DisplayChoice::Show(i);
        }
        i = i + 1;
    }
    DisplayChoice::Missing
}


/// The selected agent is the one displayed; with none selected, the first
/// agent of the snapshot is; with none selected and no agent, nothing is.
pub proof fn lemma_display_prefers_selection(
    selected: Option<Seq<char>>,
    rows: Seq<(String, SystemInfo, Option<Metrics>, u64)>,
)
    ensures
        selected matches Some(id) ==> display_target(selected, rows) == Some(id),
        selected is None && rows.len() > 0 ==> display_target(selected, rows) == Some(rows[0].0@),
        selected is None && rows.len() == 0 ==> display_target(selected, rows) is None,
{
}

} // verus!
