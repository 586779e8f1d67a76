//! The session's UI overlay model: which clickable prompts are shown. The
//! session machine records what must be on screen; the platform layer
//! mirrors this model into the real interface and feeds clicks back as
//! input.

use vstd::prelude::*;

verus! {

/// A clickable prompt the game can show.
#[derive(Clone, Copy, Debug, PartialEq, Eq, Structural)]
pub enum Overlay {
    NewGameButton,
}

/// The overlays currently shown, newest first.
#[derive(Debug)]
pub struct Ui {
    pub overlays: Vec<Overlay>,
}

impl Ui {
    pub fn new() -> (r: Ui)
        ensures
            r.overlays@ =~= Seq::<Overlay>::empty(),
    {
        Ui { overlays: Vec::new() }
    }
}

/// Show a prompt in front of whatever is already shown.
pub fn draw_ui(ui: &mut Ui, overlay: Overlay)
    ensures
        final(ui).overlays@ == old(ui).overlays@.insert(0, overlay),
{
    ui.overlays.insert(0, overlay);
}

/// Hide the front-most prompt; with nothing shown this does nothing.
pub fn hide_ui(ui: &mut Ui)
    ensures
        old(ui).overlays@.len() == 0 ==> final(ui).overlays@ == old(ui).overlays@,
        old(ui).overlays@.len() > 0 ==> final(ui).overlays@ == old(ui).overlays@.drop_first(),
{
    if ui.overlays.len() > 0 {
        ui.overlays.remove(0);
        proof {
            assert(ui.overlays@ =~= old(ui).overlays@.drop_first());
        }
    }
}

} // verus!
