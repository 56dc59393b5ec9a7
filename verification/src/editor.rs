//! The editor shell state: the view plus the quit flag, driven by decoded
//! commands. Reading raw events and painting the terminal are the business
//! of outside collaborators.

use crate::editorcommand::EditorCommand;
use crate::view::{vs_handle, View, ViewState};
use vstd::prelude::*;

verus! {

/// The editor: the viewport/cursor controller and the quit flag.
pub struct Editor {
    pub should_quit: bool,
    pub view: View,
}

impl Default for Editor {
    /// A fresh editor over an empty view, not yet asked to quit.
    fn default() -> (r: Editor)
        ensures
            !r.should_quit,
            r.view.wf(),
            (r.view.vs() =~= ViewState {
                lines: Seq::empty(),
                line_index: 0,
                grapheme_index: 0,
                scroll_row: 0,
                scroll_col: 0,
                width: 0,
                height: 0,
                needs_redraw: true,
            }),
    {
        Editor { should_quit: false, view: View::default() }
    }
}

impl Editor {
    /// Applies one decoded command: quit raises the quit flag and leaves the
    /// view alone; every other command goes to the view.
    pub fn process_command(&mut self, command: EditorCommand)
        ensures
            command is Quit ==> final(self).should_quit && final(self).view.vs() == old(self).view.vs(),
            !(command is Quit) ==> final(self).should_quit == old(self).should_quit
                && final(self).view.vs() == vs_handle(old(self).view.vs(), command),
            old(self).view.wf() ==> final(self).view.wf(),
    {
        match command {
            EditorCommand::Quit => {
                self.should_quit = true;
            },
            _ => {
                self.view.handle_command(command);
            },
        }
    }
}

} // verus!
