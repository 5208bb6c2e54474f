use shape_pipeline::shape::{Point, Shape, ShapeError, Shapes, Size};

fn triangle(ax: i32, ay: i32, bx: i32, by: i32, cx: i32, cy: i32) -> Shape {
    Shape::Triangle {
        a: Point { x: ax, y: ay },
        b: Point { x: bx, y: by },
        c: Point { x: cx, y: cy },
    }
}

fn ellipse(x: i32, y: i32, w: u32, h: u32) -> Shape {
    Shape::Ellipse {
        top_left: Point { x, y },
        size: Size { x: w, y: h },
    }
}

#[test]
fn encode_triangle_exact() {
    let sh = triangle(0, 0, 1, 0, 0, 1);
    let bytes = sh.to_json();
    assert_eq!(
        String::from_utf8(bytes).unwrap(),
        "{\"Triangle\":{\"a\":{\"x\":0,\"y\":0},\"b\":{\"x\":1,\"y\":0},\"c\":{\"x\":0,\"y\":1}}}"
    );
}

#[test]
fn encode_ellipse_exact() {
    let sh = ellipse(-3, 4, 5, 6);
    let bytes = sh.to_json();
    assert_eq!(
        String::from_utf8(bytes).unwrap(),
        "{\"Ellipse\":{\"top_left\":{\"x\":-3,\"y\":4},\"size\":{\"x\":5,\"y\":6}}}"
    );
}

#[test]
fn round_trip_triangle() {
    let sh = triangle(0, 0, 1, 0, 0, 1);
    let decoded = Shape::from_json(&sh.to_json()).unwrap();
    assert_eq!(decoded, sh);
}

#[test]
fn round_trip_ellipse() {
    let sh = ellipse(-120, 77, 0, 4_000_000_000);
    let decoded = Shape::from_json(&sh.to_json()).unwrap();
    assert_eq!(decoded, sh);
}

#[test]
fn round_trip_extreme_values() {
    let shapes = [
        triangle(i32::MIN, i32::MAX, 0, -1, 1, -2147483647),
        ellipse(i32::MIN, i32::MAX, u32::MAX, 0),
    ];
    for sh in shapes {
        let decoded = Shape::from_json(&sh.to_json()).unwrap();
        assert_eq!(decoded, sh);
    }
}

#[test]
fn decode_with_whitespace() {
    let body = b" {\n  \"Triangle\" : {\r\n \"a\" : { \"x\" : 0 , \"y\" : 0 } , \"b\" : {\"x\":1,\"y\":0} , \"c\" : {\"x\":0,\"y\":1} } } \t ".to_vec();
    let decoded = Shape::from_json(&body).unwrap();
    assert_eq!(decoded, triangle(0, 0, 1, 0, 0, 1));
}

#[test]
fn decode_rejects_malformed() {
    let bad: [&[u8]; 8] = [
        b"",
        b"{",
        b"{\"Triangle\":}",
        b"{\"Square\":{}}",
        b"[{\"Triangle\":{}}]",
        b"{\"Triangle\":{\"a\":{\"x\":0,\"y\":0},\"b\":{\"x\":1,\"y\":0},\"c\":{\"x\":0,\"y\":1}}} extra",
        b"{\"Triangle\":{\"a\":{\"x\":0,\"y\":0},\"b\":{\"x\":1,\"y\":0},\"c\":{\"x\":0}}}",
        b"null",
    ];
    for case in bad {
        let r = Shape::from_json(&case.to_vec());
        match r {
            Err(ShapeError::DeserializationError(msg)) => assert!(!msg.is_empty()),
            Ok(_) => panic!("malformed payload decoded"),
        }
    }
}

#[test]
fn decode_rejects_bad_numbers() {
    let template = |n: &str| {
        format!(
            "{{\"Ellipse\":{{\"top_left\":{{\"x\":{},\"y\":0}},\"size\":{{\"x\":1,\"y\":1}}}}}}",
            n
        )
        .into_bytes()
    };
    for n in ["01", "2147483648", "-2147483649", "--1", "-", "1.5", "+1", ""] {
        assert!(Shape::from_json(&template(n)).is_err(), "accepted {:?}", n);
    }
    // boundary values themselves are fine
    for n in ["2147483647", "-2147483648", "0"] {
        assert!(Shape::from_json(&template(n)).is_ok(), "rejected {:?}", n);
    }
}

#[test]
fn decode_negative_zero() {
    let body =
        b"{\"Ellipse\":{\"top_left\":{\"x\":-0,\"y\":0},\"size\":{\"x\":1,\"y\":1}}}".to_vec();
    let decoded = Shape::from_json(&body).unwrap();
    assert_eq!(decoded, ellipse(0, 0, 1, 1));
}

#[test]
fn decode_rejects_size_overflow() {
    let body = b"{\"Ellipse\":{\"top_left\":{\"x\":0,\"y\":0},\"size\":{\"x\":4294967296,\"y\":1}}}"
        .to_vec();
    assert!(Shape::from_json(&body).is_err());
    let body = b"{\"Ellipse\":{\"top_left\":{\"x\":0,\"y\":0},\"size\":{\"x\":4294967295,\"y\":1}}}"
        .to_vec();
    assert_eq!(Shape::from_json(&body).unwrap(), ellipse(0, 0, u32::MAX, 1));
}

#[test]
fn batch_decode_with_whitespace() {
    let body = b" [ {\"Ellipse\":{\"top_left\":{\"x\":0,\"y\":0},\"size\":{\"x\":1,\"y\":1}} } , {\"Ellipse\":{\"top_left\":{\"x\":2,\"y\":2},\"size\":{\"x\":3,\"y\":3}}} ] ".to_vec();
    let decoded = Shapes::from_json(&body).unwrap();
    assert_eq!(decoded.0, vec![ellipse(0, 0, 1, 1), ellipse(2, 2, 3, 3)]);
}

#[test]
fn decode_rejects_negative_size() {
    let body =
        b"{\"Ellipse\":{\"top_left\":{\"x\":0,\"y\":0},\"size\":{\"x\":-1,\"y\":1}}}".to_vec();
    assert!(Shape::from_json(&body).is_err());
}

#[test]
fn decode_requires_declared_field_order() {
    let body =
        b"{\"Ellipse\":{\"size\":{\"x\":1,\"y\":1},\"top_left\":{\"x\":0,\"y\":0}}}".to_vec();
    assert!(Shape::from_json(&body).is_err());
}

#[test]
fn batch_round_trip() {
    let batch = Shapes(vec![triangle(0, 0, 1, 0, 0, 1), ellipse(2, 3, 4, 5)]);
    let bytes = batch.to_json();
    assert_eq!(
        String::from_utf8(bytes.clone()).unwrap(),
        "[{\"Triangle\":{\"a\":{\"x\":0,\"y\":0},\"b\":{\"x\":1,\"y\":0},\"c\":{\"x\":0,\"y\":1}}},{\"Ellipse\":{\"top_left\":{\"x\":2,\"y\":3},\"size\":{\"x\":4,\"y\":5}}}]"
    );
    let decoded = Shapes::from_json(&bytes).unwrap();
    assert_eq!(decoded.0, batch.0);
}

#[test]
fn batch_empty_round_trip() {
    let batch = Shapes(vec![]);
    let bytes = batch.to_json();
    assert_eq!(bytes, b"[]".to_vec());
    let decoded = Shapes::from_json(&bytes).unwrap();
    assert!(decoded.0.is_empty());
}

#[test]
fn batch_order_preserved() {
    let batch = Shapes(vec![
        ellipse(9, 9, 1, 1),
        triangle(0, 0, 1, 1, 2, 2),
        ellipse(-1, -1, 2, 2),
    ]);
    let decoded = Shapes::from_json(&batch.to_json()).unwrap();
    assert_eq!(decoded.0, batch.0);
}

#[test]
fn batch_rejects_malformed() {
    let bad: [&[u8]; 5] = [
        b"[",
        b"[,]",
        b"[{\"Triangle\":{}}]",
        b"[{\"Ellipse\":{\"top_left\":{\"x\":0,\"y\":0},\"size\":{\"x\":1,\"y\":1}}},]",
        b"{\"Ellipse\":{\"top_left\":{\"x\":0,\"y\":0},\"size\":{\"x\":1,\"y\":1}}}",
    ];
    for case in bad {
        let r = Shapes::from_json(&case.to_vec());
        match r {
            Err(ShapeError::DeserializationError(msg)) => assert!(!msg.is_empty()),
            Ok(_) => panic!("malformed batch decoded"),
        }
    }
}

#[test]
fn error_message_accessor() {
    let e = Shape::from_json(&b"nope".to_vec()).unwrap_err();
    assert!(!e.message().is_empty());
}
