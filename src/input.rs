//! What a parsed mouse report asks of the orbit camera.
use vstd::prelude::*;
use crate::esc::EscSeq;

verus! {

/// A camera request decoded from one escape sequence.
#[derive(Debug, Clone, Copy, PartialEq, Eq, Structural)]
pub enum OrbitAction {
    /// The sequence asks for nothing the camera handles.
    Nothing,
    /// A button went down at this cell: a drag starts here.
    RotateStart { x: u32, y: u32 },
    /// The pointer moved to this cell with the button held.
    Rotate { x: u32, y: u32 },
    /// The wheel turned up: move the camera closer.
    ScrollUp,
    /// The wheel turned down: move the camera away.
    ScrollDown,
}

/// The request carried by a complete sequence: an SGR mouse report (`M`)
/// with at least three arguments, read by its button code.
pub open spec fn action_of(seq: &EscSeq) -> OrbitAction {
    if seq.command == 'M' && seq.is_mouse && seq.args@.len() >= 3 {
        let code = seq.args@[0];
        if code == 0 {
            OrbitAction::RotateStart { x: seq.args@[1], y: seq.args@[2] }
        } else if code == 32 {
            OrbitAction::Rotate { x: seq.args@[1], y: seq.args@[2] }
        } else if code == 64 {
            OrbitAction::ScrollUp
        } else if code == 65 {
            OrbitAction::ScrollDown
        } else {
            OrbitAction::Nothing
        }
    } else {
        OrbitAction::Nothing
    }
}

/// Decodes the camera request of a complete sequence.
pub fn mouse_action(seq: &EscSeq) -> (a: OrbitAction)
    ensures
        a == action_of(seq),
{
    if seq.command != 'M' || !seq.is_mouse || seq.args.len() < 3 {
        return OrbitAction::Nothing;
    }
    let code = seq.args[0];
    if code == 0 {
        OrbitAction::RotateStart { x: seq.args[1], y: seq.args[2] }
    } else if code == 32 {
        OrbitAction::Rotate { x: seq.args[1], y: seq.args[2] }
    } else if code == 64 {
        OrbitAction::ScrollUp
    } else if code == 65 {
        OrbitAction::ScrollDown
    } else {
        OrbitAction::Nothing
    }
}

} // verus!
