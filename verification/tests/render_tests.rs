use shape_pipeline::channel::ChannelMessage;
use shape_pipeline::render::{render_step, FillStyle, RenderAction};
use shape_pipeline::shape::{Point, Shape, Size};

#[test]
fn triangles_painted_green() {
    let sh = Shape::Triangle {
        a: Point { x: 0, y: 0 },
        b: Point { x: 1, y: 0 },
        c: Point { x: 0, y: 1 },
    };
    let r = render_step(&ChannelMessage::Message(sh));
    assert_eq!(
        r,
        RenderAction::Draw {
            shape: sh,
            style: FillStyle::SolidGreen
        }
    );
}

#[test]
fn ellipses_painted_yellow() {
    let sh = Shape::Ellipse {
        top_left: Point { x: 5, y: 6 },
        size: Size { x: 7, y: 8 },
    };
    let r = render_step(&ChannelMessage::Message(sh));
    assert_eq!(
        r,
        RenderAction::Draw {
            shape: sh,
            style: FillStyle::SolidYellow
        }
    );
}

#[test]
fn lag_notices_draw_nothing() {
    assert_eq!(render_step(&ChannelMessage::Lag(3)), RenderAction::Skip);
    assert_eq!(render_step(&ChannelMessage::Lag(u64::MAX)), RenderAction::Skip);
}
