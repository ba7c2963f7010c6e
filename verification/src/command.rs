//! The terminal commands that the backend queues, as plain values.
use vstd::prelude::*;

use crate::style::{CrosstermAttribute, CrosstermColor};

verus! {

/// A crossterm command that the backend queues on its writer.
#[derive(Clone, Debug, PartialEq, Eq)]
pub enum Command {
    /// Moves the cursor to the column and row.
    MoveTo(u16, u16),
    /// Sets a text attribute.
    SetAttribute(CrosstermAttribute),
    /// Sets the foreground and the background color.
    SetColors(CrosstermColor, CrosstermColor),
    /// Sets the foreground color.
    SetForegroundColor(CrosstermColor),
    /// Sets the background color.
    SetBackgroundColor(CrosstermColor),
    /// Sets the underline color.
    SetUnderlineColor(CrosstermColor),
    /// Prints the text.
    Print(String),
}

/// The texts that the commands print, in order.
pub open spec fn printed(cmds: Seq<Command>) -> Seq<String>
    decreases cmds.len(),
{
    if cmds.len() == 0 {
        seq![]
    } else {
        match cmds[0] {
            Command::Print(s) => seq![s] + printed(cmds.drop_first()),
            _ => printed(cmds.drop_first()),
        }
    }
}

/// The texts printed by two command streams, one after the other, are those
/// of the first then those of the second.
pub proof fn lemma_printed_concat(a: Seq<Command>, b: Seq<Command>)
    ensures
        printed(a + b) == printed(a) + printed(b),
    decreases a.len(),
{
    if a.len() == 0 {
        assert(a + b =~= b);
        assert(printed(a) + printed(b) =~= printed(b));
    } else {
        assert((a + b).drop_first() =~= a.drop_first() + b);
        assert((a + b)[0] == a[0]);
        lemma_printed_concat(a.drop_first(), b);
        match a[0] {
            Command::Print(s) => {
                assert(seq![s] + (printed(a.drop_first()) + printed(b)) =~= (seq![s] + printed(
                    a.drop_first(),
                )) + printed(b));
            },
            _ => {},
        }
    }
}

/// A stream without `Print` prints nothing.
pub proof fn lemma_printed_none(cmds: Seq<Command>)
    requires
        forall|i: int| 0 <= i < cmds.len() ==> !(#[trigger] cmds[i] is Print),
    ensures
        printed(cmds) == Seq::<String>::empty(),
    decreases cmds.len(),
{
    if cmds.len() > 0 {
        assert(!(cmds[0] is Print));
        assert forall|i: int| 0 <= i < cmds.drop_first().len() implies !(
        #[trigger] cmds.drop_first()[i] is Print) by {
            assert(cmds.drop_first()[i] == cmds[i + 1]);
        }
        lemma_printed_none(cmds.drop_first());
    }
}

} // verus!
