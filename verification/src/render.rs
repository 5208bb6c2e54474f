//! The render consumer's decision logic.
//!
//! The consumer drains the channel and paints each received shape onto
//! the display surface with a fixed style per variant.  A lag notice
//! means the overwritten shapes are gone; nothing is drawn for them.
//! The driving loop owns the display: it receives, asks `render_step`
//! what to do, and issues the draw call.  A failed draw call is treated
//! as unrecoverable: the driving loop halts on a display error rather
//! than paint a half-broken surface.

use vstd::prelude::*;

use crate::channel::ChannelMessage;
use crate::shape::Shape;

verus! {

/// The two paint styles: triangles are filled green, ellipses yellow.
#[derive(Clone, Copy, Debug, PartialEq, Eq, Structural)]
pub enum FillStyle {
    SolidGreen,
    SolidYellow,
}

/// What the consumer does with one received message.
#[derive(Clone, Copy, Debug, PartialEq, Eq, Structural)]
pub enum RenderAction {
    /// Paint this shape with this style.
    Draw { shape: Shape, style: FillStyle },
    /// A lag notice: the lost shapes cannot be drawn; do nothing.
    Skip,
}

/// The style each shape variant is painted with.
pub open spec fn style_of(sh: Shape) -> FillStyle {
    match sh {
        Shape::Triangle { .. } => FillStyle::SolidGreen,
        Shape::Ellipse { .. } => FillStyle::SolidYellow,
    }
}

/// The consumer's decision table: draw every shape with its variant's
/// style, skip lag notices.
pub open spec fn spec_render_step(msg: ChannelMessage) -> RenderAction {
    match msg {
        ChannelMessage::Message(sh) => RenderAction::Draw { shape: sh, style: style_of(sh) },
        ChannelMessage::Lag(_) => RenderAction::Skip,
    }
}

/// Decide what to do with one received message.
pub fn render_step(msg: &ChannelMessage) -> (r: RenderAction)
    ensures
        r == spec_render_step(*msg),
{
    match msg {
        ChannelMessage::Message(sh) => {
            let style = match sh {
                Shape::Triangle { .. } => FillStyle::SolidGreen,
                Shape::Ellipse { .. } => FillStyle::SolidYellow,
            };
            RenderAction::Draw { shape: *sh, style }
        },
        ChannelMessage::Lag(_) => RenderAction::Skip,
    }
}

} // verus!
