//! JSON encoding and decoding of shapes.
//!
//! A shape travels as an externally tagged object, for example
//! `{"Triangle":{"a":{"x":0,"y":0},"b":{"x":1,"y":0},"c":{"x":0,"y":1}}}`
//! or `{"Ellipse":{"top_left":{"x":3,"y":4},"size":{"x":5,"y":6}}}`, and a
//! batch travels as a JSON array of such objects.  The grammar accepted by
//! the decoder is defined by the `parse_*` spec functions below: JSON
//! whitespace may precede any token, numbers are decimal integers without
//! leading zeros, fields appear in the order shown above, and values must
//! fit the field's integer type.  The decoder is proved to return exactly
//! what the spec grammar yields, and the encoder's output is proved to
//! decode back to the original shape.

use vstd::prelude::*;

use crate::shape::Point;
use crate::shape::Shape;
use crate::shape::ShapeError;
use crate::shape::Shapes;
use crate::shape::Size;

verus! {

pub const LBRACE: u8 = 123;
pub const RBRACE: u8 = 125;
pub const LBRACKET: u8 = 91;
pub const RBRACKET: u8 = 93;
pub const COMMA: u8 = 44;
pub const COLON: u8 = 58;
pub const MINUS: u8 = 45;
pub const DIGIT_ZERO: u8 = 48;

// ---------------------------------------------------------------------------
// Whitespace and digits
// ---------------------------------------------------------------------------

/// The four JSON whitespace bytes: space, tab, line feed, carriage return.
pub open spec fn is_ws(b: u8) -> bool {
    b == 32 || b == 9 || b == 10 || b == 13
}

/// Index of the first non-whitespace byte at or after `i`.
pub open spec fn skip_ws(s: Seq<u8>, i: int) -> int
    decreases s.len() - i,
{
    if 0 <= i && i < s.len() && is_ws(s[i]) {
        skip_ws(s, i + 1)
    } else {
        i
    }
}

pub open spec fn is_digit(b: u8) -> bool {
    48 <= b && b <= 57
}

/// Index of the first non-digit byte at or after `i`.
pub open spec fn digit_end(s: Seq<u8>, i: int) -> int
    decreases s.len() - i,
{
    if 0 <= i && i < s.len() && is_digit(s[i]) {
        digit_end(s, i + 1)
    } else {
        i
    }
}

/// Value of a run of decimal digit bytes, most significant first.
pub open spec fn digits_val(s: Seq<u8>) -> int
    decreases s.len(),
{
    if s.len() == 0 {
        0
    } else {
        digits_val(s.drop_last()) * 10 + (s.last() - 48)
    }
}

// ---------------------------------------------------------------------------
// Tokens
// ---------------------------------------------------------------------------

/// The bytes of `"Triangle"`, quotes included.
pub open spec fn tok_triangle() -> Seq<u8> {
    seq![34u8, 84, 114, 105, 97, 110, 103, 108, 101, 34]
}

/// The bytes of `"Ellipse"`, quotes included.
pub open spec fn tok_ellipse() -> Seq<u8> {
    seq![34u8, 69, 108, 108, 105, 112, 115, 101, 34]
}

/// The bytes of `"a"`, quotes included.
pub open spec fn key_a() -> Seq<u8> {
    seq![34u8, 97, 34]
}

/// The bytes of `"b"`, quotes included.
pub open spec fn key_b() -> Seq<u8> {
    seq![34u8, 98, 34]
}

/// The bytes of `"c"`, quotes included.
pub open spec fn key_c() -> Seq<u8> {
    seq![34u8, 99, 34]
}

/// The bytes of `"top_left"`, quotes included.
pub open spec fn key_top_left() -> Seq<u8> {
    seq![34u8, 116, 111, 112, 95, 108, 101, 102, 116, 34]
}

/// The bytes of `"size"`, quotes included.
pub open spec fn key_size() -> Seq<u8> {
    seq![34u8, 115, 105, 122, 101, 34]
}

/// The bytes of `"x"`, quotes included.
pub open spec fn key_x() -> Seq<u8> {
    seq![34u8, 120, 34]
}

/// The bytes of `"y"`, quotes included.
pub open spec fn key_y() -> Seq<u8> {
    seq![34u8, 121, 34]
}

/// `pat` occurs in `s` starting at index `i`.
pub open spec fn match_at(s: Seq<u8>, i: int, pat: Seq<u8>) -> bool {
    &&& 0 <= i
    &&& i + pat.len() <= s.len()
    &&& forall|k: int| 0 <= k < pat.len() ==> s[i + k] == #[trigger] pat[k]
}

/// Skip whitespace, then require the single byte `b`.
pub open spec fn eat_byte(s: Seq<u8>, i: int, b: u8) -> Option<int> {
    let j = skip_ws(s, i);
    if j < s.len() && s[j] == b {
        Some(j + 1)
    } else {
        None
    }
}

/// Skip whitespace, then require the token `pat`.
pub open spec fn eat_tok(s: Seq<u8>, i: int, pat: Seq<u8>) -> Option<int> {
    let j = skip_ws(s, i);
    if match_at(s, j, pat) {
        Some(j + pat.len() as int)
    } else {
        None
    }
}

// ---------------------------------------------------------------------------
// Executable counterparts of the token-level helpers
// ---------------------------------------------------------------------------

fn tok_triangle_vec() -> (v: Vec<u8>)
    ensures
        v@ == tok_triangle(),
{
    let mut v: Vec<u8> = Vec::new();
    v.push(34);
    v.push(84);
    v.push(114);
    v.push(105);
    v.push(97);
    v.push(110);
    v.push(103);
    v.push(108);
    v.push(101);
    v.push(34);
    proof {
        assert(v@ =~= tok_triangle());
    }
    v
}

fn tok_ellipse_vec() -> (v: Vec<u8>)
    ensures
        v@ == tok_ellipse(),
{
    let mut v: Vec<u8> = Vec::new();
    v.push(34);
    v.push(69);
    v.push(108);
    v.push(108);
    v.push(105);
    v.push(112);
    v.push(115);
    v.push(101);
    v.push(34);
    proof {
        assert(v@ =~= tok_ellipse());
    }
    v
}

fn key_a_vec() -> (v: Vec<u8>)
    ensures
        v@ == key_a(),
{
    let mut v: Vec<u8> = Vec::new();
    v.push(34);
    v.push(97);
    v.push(34);
    proof {
        assert(v@ =~= key_a());
    }
    v
}

fn key_b_vec() -> (v: Vec<u8>)
    ensures
        v@ == key_b(),
{
    let mut v: Vec<u8> = Vec::new();
    v.push(34);
    v.push(98);
    v.push(34);
    proof {
        assert(v@ =~= key_b());
    }
    v
}

fn key_c_vec() -> (v: Vec<u8>)
    ensures
        v@ == key_c(),
{
    let mut v: Vec<u8> = Vec::new();
    v.push(34);
    v.push(99);
    v.push(34);
    proof {
        assert(v@ =~= key_c());
    }
    v
}

fn key_top_left_vec() -> (v: Vec<u8>)
    ensures
        v@ == key_top_left(),
{
    let mut v: Vec<u8> = Vec::new();
    v.push(34);
    v.push(116);
    v.push(111);
    v.push(112);
    v.push(95);
    v.push(108);
    v.push(101);
    v.push(102);
    v.push(116);
    v.push(34);
    proof {
        assert(v@ =~= key_top_left());
    }
    v
}

fn key_size_vec() -> (v: Vec<u8>)
    ensures
        v@ == key_size(),
{
    let mut v: Vec<u8> = Vec::new();
    v.push(34);
    v.push(115);
    v.push(105);
    v.push(122);
    v.push(101);
    v.push(34);
    proof {
        assert(v@ =~= key_size());
    }
    v
}

fn key_x_vec() -> (v: Vec<u8>)
    ensures
        v@ == key_x(),
{
    let mut v: Vec<u8> = Vec::new();
    v.push(34);
    v.push(120);
    v.push(34);
    proof {
        assert(v@ =~= key_x());
    }
    v
}

fn key_y_vec() -> (v: Vec<u8>)
    ensures
        v@ == key_y(),
{
    let mut v: Vec<u8> = Vec::new();
    v.push(34);
    v.push(121);
    v.push(34);
    proof {
        assert(v@ =~= key_y());
    }
    v
}

fn skip_ws_exec(v: &Vec<u8>, i: usize) -> (r: usize)
    requires
        i <= v@.len(),
    ensures
        r as int == skip_ws(v@, i as int),
        i <= r <= v@.len(),
{
    let mut j = i;
    while j < v.len() && (v[j] == 32 || v[j] == 9 || v[j] == 10 || v[j] == 13)
        invariant
            i <= j <= v@.len(),
            skip_ws(v@, i as int) == skip_ws(v@, j as int),
        decreases v@.len() - j,
    {
        proof {
            assert(skip_ws(v@, j as int) == skip_ws(v@, j + 1));
        }
        j = j + 1;
    }
    proof {
        assert(skip_ws(v@, j as int) == j as int);
    }
    j
}

fn match_at_exec(v: &Vec<u8>, i: usize, pat: &Vec<u8>) -> (r: bool)
    requires
        i <= v@.len(),
    ensures
        r == match_at(v@, i as int, pat@),
{
    if pat.len() > v.len() - i {
        proof {
            assert(!match_at(v@, i as int, pat@));
        }
        return false;
    }
    let n = v.len();
    let mut k: usize = 0;
    while k < pat.len()
        invariant
            0 <= k <= pat@.len(),
            i + pat@.len() <= v@.len(),
            n == v@.len(),
            forall|m: int| 0 <= m < k ==> v@[i + m] == #[trigger] pat@[m],
        decreases pat@.len() - k,
    {
        if v[i + k] != pat[k] {
            proof {
                assert(!match_at(v@, i as int, pat@));
            }
            return false;
        }
        k = k + 1;
    }
    true
}

fn eat_byte_exec(v: &Vec<u8>, i: usize, b: u8) -> (r: Option<usize>)
    requires
        i <= v@.len(),
    ensures
        r matches Some(j) ==> eat_byte(v@, i as int, b) == Some(j as int) && i < j <= v@.len(),
        r is None ==> eat_byte(v@, i as int, b) is None,
{
    let j = skip_ws_exec(v, i);
    if j < v.len() && v[j] == b {
        Some(j + 1)
    } else {
        None
    }
}

fn eat_tok_exec(v: &Vec<u8>, i: usize, pat: &Vec<u8>) -> (r: Option<usize>)
    requires
        i <= v@.len(),
    ensures
        r matches Some(j) ==> eat_tok(v@, i as int, pat@) == Some(j as int) && i <= j <= v@.len(),
        r is None ==> eat_tok(v@, i as int, pat@) is None,
{
    let j = skip_ws_exec(v, i);
    let n = v.len();
    if match_at_exec(v, j, pat) {
        proof {
            assert(j + pat@.len() <= n);
        }
        Some(j + pat.len())
    } else {
        None
    }
}

// ---------------------------------------------------------------------------
// Numbers
// ---------------------------------------------------------------------------

/// Parse a run of decimal digits starting exactly at `i` (no whitespace
/// skipped, no sign): its value and the index after the run.  A run longer
/// than one digit may not start with `0`.
pub open spec fn parse_digits(s: Seq<u8>, i: int) -> Option<(int, int)> {
    let e = digit_end(s, i);
    if e == i {
        None
    } else if s[i] == DIGIT_ZERO && e > i + 1 {
        None
    } else {
        Some((digits_val(s.subrange(i, e)), e))
    }
}

/// Skip whitespace, then parse an optionally signed decimal integer that
/// fits an `i32`.
pub open spec fn parse_i32_at(s: Seq<u8>, i: int) -> Option<(i32, int)> {
    let j = skip_ws(s, i);
    if j < s.len() && s[j] == MINUS {
        match parse_digits(s, j + 1) {
            Some((n, e)) => if n <= 0x8000_0000 {
                Some(((-n) as i32, e))
            } else {
                None
            },
            None => None,
        }
    } else {
        match parse_digits(s, j) {
            Some((n, e)) => if n <= 0x7fff_ffff {
                Some((n as i32, e))
            } else {
                None
            },
            None => None,
        }
    }
}

/// Skip whitespace, then parse an unsigned decimal integer that fits a
/// `u32`.
pub open spec fn parse_u32_at(s: Seq<u8>, i: int) -> Option<(u32, int)> {
    let j = skip_ws(s, i);
    match parse_digits(s, j) {
        Some((n, e)) => if n <= 0xffff_ffff {
            Some((n as u32, e))
        } else {
            None
        },
        None => None,
    }
}

/// Scan the digit run at `i`; `None` means there is no well-formed run or
/// its value exceeds `u32::MAX`.
fn scan_digits(v: &Vec<u8>, i: usize) -> (r: Option<(u32, usize)>)
    requires
        i <= v@.len(),
    ensures
        r matches Some((n, e)) ==> parse_digits(v@, i as int) == Some((n as int, e as int))
            && i < e <= v@.len(),
        r is None ==> (parse_digits(v@, i as int) is None || (parse_digits(
            v@,
            i as int,
        ) matches Some((n, _)) && n > 0xffff_ffff)),
{
    let n = v.len();
    if i == n || !(48 <= v[i] && v[i] <= 57) {
        proof {
            assert(digit_end(v@, i as int) == i as int);
        }
        return None;
    }
    let first = v[i];
    let mut j = i;
    let mut acc: u64 = 0;
    let mut over = false;
    while j < n && 48 <= v[j] && v[j] <= 57
        invariant
            i <= j <= n,
            n == v@.len(),
            digit_end(v@, i as int) == digit_end(v@, j as int),
            !over ==> acc == digits_val(v@.subrange(i as int, j as int)) && acc
                <= 0xffff_ffff,
            over ==> digits_val(v@.subrange(i as int, j as int)) > 0xffff_ffff,
        decreases n - j,
    {
        let d = v[j];
        proof {
            assert(digit_end(v@, j as int) == digit_end(v@, j + 1));
            assert(v@.subrange(i as int, j + 1).drop_last() =~= v@.subrange(
                i as int,
                j as int,
            ));
            assert(v@.subrange(i as int, j + 1).last() == v@[j as int]);
        }
        if over {
            proof {
                let prev = digits_val(v@.subrange(i as int, j as int));
                assert(digits_val(v@.subrange(i as int, j + 1)) == prev * 10 + (d - 48));
                assert(prev * 10 >= prev) by (nonlinear_arith)
                    requires
                        prev >= 0,
                ;
            }
        } else {
            let next = acc * 10 + ((d - 48) as u64);
            if next > 0xffff_ffff {
                over = true;
            }
            acc = next;
        }
        j = j + 1;
    }
    proof {
        assert(digit_end(v@, j as int) == j as int);
    }
    if over {
        return None;
    }
    if first == 48 && j > i + 1 {
        return None;
    }
    Some((acc as u32, j))
}

fn parse_i32_exec(v: &Vec<u8>, i: usize) -> (r: Option<(i32, usize)>)
    requires
        i <= v@.len(),
    ensures
        r matches Some((x, e)) ==> parse_i32_at(v@, i as int) == Some((x, e as int)) && i <= e
            <= v@.len(),
        r is None ==> parse_i32_at(v@, i as int) is None,
{
    let j = skip_ws_exec(v, i);
    if j < v.len() && v[j] == MINUS {
        match scan_digits(v, j + 1) {
            Some((n, e)) => {
                if n <= 0x8000_0000 {
                    proof {
                        assert(parse_i32_at(v@, i as int) == Some((((-(n as int)) as i32), e as int)));
                    }
                    if n == 0x8000_0000 {
                        Some((i32::MIN, e))
                    } else {
                        Some((-(n as i32), e))
                    }
                } else {
                    None
                }
            },
            None => None,
        }
    } else {
        match scan_digits(v, j) {
            Some((n, e)) => {
                if n <= 0x7fff_ffff {
                    Some((n as i32, e))
                } else {
                    None
                }
            },
            None => None,
        }
    }
}

fn parse_u32_exec(v: &Vec<u8>, i: usize) -> (r: Option<(u32, usize)>)
    requires
        i <= v@.len(),
    ensures
        r matches Some((x, e)) ==> parse_u32_at(v@, i as int) == Some((x, e as int)) && i <= e
            <= v@.len(),
        r is None ==> parse_u32_at(v@, i as int) is None,
{
    let j = skip_ws_exec(v, i);
    match scan_digits(v, j) {
        Some((n, e)) => Some((n, e)),
        None => None,
    }
}

// ---------------------------------------------------------------------------
// Points, sizes, shapes
// ---------------------------------------------------------------------------

/// Parse `{"x":<i32>,"y":<i32>}`, whitespace allowed before each token.
pub open spec fn parse_point_at(s: Seq<u8>, i: int) -> Option<(Point, int)> {
    match eat_byte(s, i, LBRACE) {
        Some(i1) => match eat_tok(s, i1, key_x()) {
            Some(i2) => match eat_byte(s, i2, COLON) {
                Some(i3) => match parse_i32_at(s, i3) {
                    Some((x, i4)) => match eat_byte(s, i4, COMMA) {
                        Some(i5) => match eat_tok(s, i5, key_y()) {
                            Some(i6) => match eat_byte(s, i6, COLON) {
                                Some(i7) => match parse_i32_at(s, i7) {
                                    Some((y, i8)) => match eat_byte(s, i8, RBRACE) {
                                        Some(i9) => Some((Point { x, y }, i9)),
                                        None => None,
                                    },
                                    None => None,
                                },
                                None => None,
                            },
                            None => None,
                        },
                        None => None,
                    },
                    None => None,
                },
                None => None,
            },
            None => None,
        },
        None => None,
    }
}

/// Parse `{"x":<u32>,"y":<u32>}`, whitespace allowed before each token.
pub open spec fn parse_size_at(s: Seq<u8>, i: int) -> Option<(Size, int)> {
    match eat_byte(s, i, LBRACE) {
        Some(i1) => match eat_tok(s, i1, key_x()) {
            Some(i2) => match eat_byte(s, i2, COLON) {
                Some(i3) => match parse_u32_at(s, i3) {
                    Some((x, i4)) => match eat_byte(s, i4, COMMA) {
                        Some(i5) => match eat_tok(s, i5, key_y()) {
                            Some(i6) => match eat_byte(s, i6, COLON) {
                                Some(i7) => match parse_u32_at(s, i7) {
                                    Some((y, i8)) => match eat_byte(s, i8, RBRACE) {
                                        Some(i9) => Some((Size { x, y }, i9)),
                                        None => None,
                                    },
                                    None => None,
                                },
                                None => None,
                            },
                            None => None,
                        },
                        None => None,
                    },
                    None => None,
                },
                None => None,
            },
            None => None,
        },
        None => None,
    }
}

/// Parse the body of a triangle after its tag: three labelled points.
pub open spec fn parse_triangle_body(s: Seq<u8>, i: int) -> Option<(Shape, int)> {
    match eat_byte(s, i, LBRACE) {
        Some(i1) => match eat_tok(s, i1, key_a()) {
            Some(i2) => match eat_byte(s, i2, COLON) {
                Some(i3) => match parse_point_at(s, i3) {
                    Some((a, i4)) => match eat_byte(s, i4, COMMA) {
                        Some(i5) => match eat_tok(s, i5, key_b()) {
                            Some(i6) => match eat_byte(s, i6, COLON) {
                                Some(i7) => match parse_point_at(s, i7) {
                                    Some((b, i8)) => match eat_byte(s, i8, COMMA) {
                                        Some(i9) => match eat_tok(s, i9, key_c()) {
                                            Some(i10) => match eat_byte(s, i10, COLON) {
                                                Some(i11) => match parse_point_at(s, i11) {
                                                    Some((c, i12)) => match eat_byte(
                                                        s,
                                                        i12,
                                                        RBRACE,
                                                    ) {
                                                        Some(i13) => Some(
                                                            (Shape::Triangle { a, b, c }, i13),
                                                        ),
                                                        None => None,
                                                    },
                                                    None => None,
                                                },
                                                None => None,
                                            },
                                            None => None,
                                        },
                                        None => None,
                                    },
                                    None => None,
                                },
                                None => None,
                            },
                            None => None,
                        },
                        None => None,
                    },
                    None => None,
                },
                None => None,
            },
            None => None,
        },
        None => None,
    }
}

/// Parse the body of an ellipse after its tag: a labelled point and size.
pub open spec fn parse_ellipse_body(s: Seq<u8>, i: int) -> Option<(Shape, int)> {
    match eat_byte(s, i, LBRACE) {
        Some(i1) => match eat_tok(s, i1, key_top_left()) {
            Some(i2) => match eat_byte(s, i2, COLON) {
                Some(i3) => match parse_point_at(s, i3) {
                    Some((top_left, i4)) => match eat_byte(s, i4, COMMA) {
                        Some(i5) => match eat_tok(s, i5, key_size()) {
                            Some(i6) => match eat_byte(s, i6, COLON) {
                                Some(i7) => match parse_size_at(s, i7) {
                                    Some((size, i8)) => match eat_byte(s, i8, RBRACE) {
                                        Some(i9) => Some((Shape::Ellipse { top_left, size }, i9)),
                                        None => None,
                                    },
                                    None => None,
                                },
                                None => None,
                            },
                            None => None,
                        },
                        None => None,
                    },
                    None => None,
                },
                None => None,
            },
            None => None,
        },
        None => None,
    }
}

/// Parse one externally tagged shape object.
pub open spec fn parse_shape_at(s: Seq<u8>, i: int) -> Option<(Shape, int)> {
    match eat_byte(s, i, LBRACE) {
        Some(i1) => {
            let j = skip_ws(s, i1);
            if match_at(s, j, tok_triangle()) {
                match eat_byte(s, j + tok_triangle().len(), COLON) {
                    Some(i2) => match parse_triangle_body(s, i2) {
                        Some((sh, i3)) => match eat_byte(s, i3, RBRACE) {
                            Some(i4) => Some((sh, i4)),
                            None => None,
                        },
                        None => None,
                    },
                    None => None,
                }
            } else if match_at(s, j, tok_ellipse()) {
                match eat_byte(s, j + tok_ellipse().len(), COLON) {
                    Some(i2) => match parse_ellipse_body(s, i2) {
                        Some((sh, i3)) => match eat_byte(s, i3, RBRACE) {
                            Some(i4) => Some((sh, i4)),
                            None => None,
                        },
                        None => None,
                    },
                    None => None,
                }
            } else {
                None
            }
        },
        None => None,
    }
}

/// Parse the remainder of a shape array after at least one element:
/// either a closing bracket, or a comma and a further shape, repeatedly.
pub open spec fn parse_shape_list(s: Seq<u8>, i: int, acc: Seq<Shape>) -> Option<
    (Seq<Shape>, int),
>
    decreases s.len() - i,
{
    match eat_byte(s, i, RBRACKET) {
        Some(e) => Some((acc, e)),
        None => match eat_byte(s, i, COMMA) {
            Some(i1) => match parse_shape_at(s, i1) {
                Some((sh, i2)) => if i < i2 && i2 <= s.len() {
                    parse_shape_list(s, i2, acc.push(sh))
                } else {
                    None
                },
                None => None,
            },
            None => None,
        },
    }
}

/// Parse a JSON array of shapes.
pub open spec fn parse_shapes_at(s: Seq<u8>, i: int) -> Option<(Seq<Shape>, int)> {
    match eat_byte(s, i, LBRACKET) {
        Some(i1) => match eat_byte(s, i1, RBRACKET) {
            Some(e) => Some((Seq::empty(), e)),
            None => match parse_shape_at(s, i1) {
                Some((sh, i2)) => if i1 <= i2 && i2 <= s.len() {
                    parse_shape_list(s, i2, seq![sh])
                } else {
                    None
                },
                None => None,
            },
        },
        None => None,
    }
}

fn parse_point_exec(v: &Vec<u8>, i: usize) -> (r: Option<(Point, usize)>)
    requires
        i <= v@.len(),
    ensures
        r matches Some((p, e)) ==> parse_point_at(v@, i as int) == Some((p, e as int)) && i < e
            <= v@.len(),
        r is None ==> parse_point_at(v@, i as int) is None,
{
    let kx = key_x_vec();
    let ky = key_y_vec();
    let i1 = match eat_byte_exec(v, i, LBRACE) {
        Some(x) => x,
        None => {
            return None;
        },
    };
    let i2 = match eat_tok_exec(v, i1, &kx) {
        Some(x) => x,
        None => {
            return None;
        },
    };
    let i3 = match eat_byte_exec(v, i2, COLON) {
        Some(x) => x,
        None => {
            return None;
        },
    };
    let (x, i4) = match parse_i32_exec(v, i3) {
        Some(p) => p,
        None => {
            return None;
        },
    };
    let i5 = match eat_byte_exec(v, i4, COMMA) {
        Some(x) => x,
        None => {
            return None;
        },
    };
    let i6 = match eat_tok_exec(v, i5, &ky) {
        Some(x) => x,
        None => {
            return None;
        },
    };
    let i7 = match eat_byte_exec(v, i6, COLON) {
        Some(x) => x,
        None => {
            return None;
        },
    };
    let (y, i8) = match parse_i32_exec(v, i7) {
        Some(p) => p,
        None => {
            return None;
        },
    };
    let i9 = match eat_byte_exec(v, i8, RBRACE) {
        Some(x) => x,
        None => {
            return None;
        },
    };
    Some((Point { x, y }, i9))
}

fn parse_size_exec(v: &Vec<u8>, i: usize) -> (r: Option<(Size, usize)>)
    requires
        i <= v@.len(),
    ensures
        r matches Some((z, e)) ==> parse_size_at(v@, i as int) == Some((z, e as int)) && i < e
            <= v@.len(),
        r is None ==> parse_size_at(v@, i as int) is None,
{
    let kx = key_x_vec();
    let ky = key_y_vec();
    let i1 = match eat_byte_exec(v, i, LBRACE) {
        Some(x) => x,
        None => {
            return None;
        },
    };
    let i2 = match eat_tok_exec(v, i1, &kx) {
        Some(x) => x,
        None => {
            return None;
        },
    };
    let i3 = match eat_byte_exec(v, i2, COLON) {
        Some(x) => x,
        None => {
            return None;
        },
    };
    let (x, i4) = match parse_u32_exec(v, i3) {
        Some(p) => p,
        None => {
            return None;
        },
    };
    let i5 = match eat_byte_exec(v, i4, COMMA) {
        Some(x) => x,
        None => {
            return None;
        },
    };
    let i6 = match eat_tok_exec(v, i5, &ky) {
        Some(x) => x,
        None => {
            return None;
        },
    };
    let i7 = match eat_byte_exec(v, i6, COLON) {
        Some(x) => x,
        None => {
            return None;
        },
    };
    let (y, i8) = match parse_u32_exec(v, i7) {
        Some(p) => p,
        None => {
            return None;
        },
    };
    let i9 = match eat_byte_exec(v, i8, RBRACE) {
        Some(x) => x,
        None => {
            return None;
        },
    };
    Some((Size { x, y }, i9))
}

fn parse_triangle_body_exec(v: &Vec<u8>, i: usize) -> (r: Option<(Shape, usize)>)
    requires
        i <= v@.len(),
    ensures
        r matches Some((sh, e)) ==> parse_triangle_body(v@, i as int) == Some((sh, e as int)) && i
            < e <= v@.len(),
        r is None ==> parse_triangle_body(v@, i as int) is None,
{
    let ka = key_a_vec();
    let kb = key_b_vec();
    let kc = key_c_vec();
    let i1 = match eat_byte_exec(v, i, LBRACE) {
        Some(x) => x,
        None => {
            return None;
        },
    };
    let i2 = match eat_tok_exec(v, i1, &ka) {
        Some(x) => x,
        None => {
            return None;
        },
    };
    let i3 = match eat_byte_exec(v, i2, COLON) {
        Some(x) => x,
        None => {
            return None;
        },
    };
    let (a, i4) = match parse_point_exec(v, i3) {
        Some(p) => p,
        None => {
            return None;
        },
    };
    let i5 = match eat_byte_exec(v, i4, COMMA) {
        Some(x) => x,
        None => {
            return None;
        },
    };
    let i6 = match eat_tok_exec(v, i5, &kb) {
        Some(x) => x,
        None => {
            return None;
        },
    };
    let i7 = match eat_byte_exec(v, i6, COLON) {
        Some(x) => x,
        None => {
            return None;
        },
    };
    let (b, i8) = match parse_point_exec(v, i7) {
        Some(p) => p,
        None => {
            return None;
        },
    };
    let i9 = match eat_byte_exec(v, i8, COMMA) {
        Some(x) => x,
        None => {
            return None;
        },
    };
    let i10 = match eat_tok_exec(v, i9, &kc) {
        Some(x) => x,
        None => {
            return None;
        },
    };
    let i11 = match eat_byte_exec(v, i10, COLON) {
        Some(x) => x,
        None => {
            return None;
        },
    };
    let (c, i12) = match parse_point_exec(v, i11) {
        Some(p) => p,
        None => {
            return None;
        },
    };
    let i13 = match eat_byte_exec(v, i12, RBRACE) {
        Some(x) => x,
        None => {
            return None;
        },
    };
    Some((Shape::Triangle { a, b, c }, i13))
}

fn parse_ellipse_body_exec(v: &Vec<u8>, i: usize) -> (r: Option<(Shape, usize)>)
    requires
        i <= v@.len(),
    ensures
        r matches Some((sh, e)) ==> parse_ellipse_body(v@, i as int) == Some((sh, e as int)) && i
            < e <= v@.len(),
        r is None ==> parse_ellipse_body(v@, i as int) is None,
{
    let ktl = key_top_left_vec();
    let ksz = key_size_vec();
    let i1 = match eat_byte_exec(v, i, LBRACE) {
        Some(x) => x,
        None => {
            return None;
        },
    };
    let i2 = match eat_tok_exec(v, i1, &ktl) {
        Some(x) => x,
        None => {
            return None;
        },
    };
    let i3 = match eat_byte_exec(v, i2, COLON) {
        Some(x) => x,
        None => {
            return None;
        },
    };
    let (top_left, i4) = match parse_point_exec(v, i3) {
        Some(p) => p,
        None => {
            return None;
        },
    };
    let i5 = match eat_byte_exec(v, i4, COMMA) {
        Some(x) => x,
        None => {
            return None;
        },
    };
    let i6 = match eat_tok_exec(v, i5, &ksz) {
        Some(x) => x,
        None => {
            return None;
        },
    };
    let i7 = match eat_byte_exec(v, i6, COLON) {
        Some(x) => x,
        None => {
            return None;
        },
    };
    let (size, i8) = match parse_size_exec(v, i7) {
        Some(p) => p,
        None => {
            return None;
        },
    };
    let i9 = match eat_byte_exec(v, i8, RBRACE) {
        Some(x) => x,
        None => {
            return None;
        },
    };
    Some((Shape::Ellipse { top_left, size }, i9))
}

fn parse_shape_exec(v: &Vec<u8>, i: usize) -> (r: Option<(Shape, usize)>)
    requires
        i <= v@.len(),
    ensures
        r matches Some((sh, e)) ==> parse_shape_at(v@, i as int) == Some((sh, e as int)) && i < e
            <= v@.len(),
        r is None ==> parse_shape_at(v@, i as int) is None,
{
    let tri = tok_triangle_vec();
    let ell = tok_ellipse_vec();
    let i1 = match eat_byte_exec(v, i, LBRACE) {
        Some(x) => x,
        None => {
            return None;
        },
    };
    let j = skip_ws_exec(v, i1);
    let n = v.len();
    if match_at_exec(v, j, &tri) {
        proof {
            assert(j + tok_triangle().len() <= n);
        }
        let i2 = match eat_byte_exec(v, j + tri.len(), COLON) {
            Some(x) => x,
            None => {
                return None;
            },
        };
        let (sh, i3) = match parse_triangle_body_exec(v, i2) {
            Some(p) => p,
            None => {
                return None;
            },
        };
        let i4 = match eat_byte_exec(v, i3, RBRACE) {
            Some(x) => x,
            None => {
                return None;
            },
        };
        Some((sh, i4))
    } else if match_at_exec(v, j, &ell) {
        proof {
            assert(j + tok_ellipse().len() <= n);
        }
        let i2 = match eat_byte_exec(v, j + ell.len(), COLON) {
            Some(x) => x,
            None => {
                return None;
            },
        };
        let (sh, i3) = match parse_ellipse_body_exec(v, i2) {
            Some(p) => p,
            None => {
                return None;
            },
        };
        let i4 = match eat_byte_exec(v, i3, RBRACE) {
            Some(x) => x,
            None => {
                return None;
            },
        };
        Some((sh, i4))
    } else {
        None
    }
}

fn parse_shapes_exec(v: &Vec<u8>, i: usize) -> (r: Option<(Vec<Shape>, usize)>)
    requires
        i <= v@.len(),
    ensures
        r matches Some((l, e)) ==> parse_shapes_at(v@, i as int) == Some((l@, e as int)) && i < e
            <= v@.len(),
        r is None ==> parse_shapes_at(v@, i as int) is None,
{
    let i1 = match eat_byte_exec(v, i, LBRACKET) {
        Some(x) => x,
        None => {
            return None;
        },
    };
    if let Some(e) = eat_byte_exec(v, i1, RBRACKET) {
        let l: Vec<Shape> = Vec::new();
        proof {
            assert(l@ =~= Seq::<Shape>::empty());
        }
        return Some((l, e));
    }
    let (sh0, i2) = match parse_shape_exec(v, i1) {
        Some(p) => p,
        None => {
            return None;
        },
    };
    let mut acc: Vec<Shape> = Vec::new();
    acc.push(sh0);
    proof {
        assert(acc@ =~= seq![sh0]);
    }
    let mut pos = i2;
    loop
        invariant
            i < pos <= v@.len(),
            parse_shapes_at(v@, i as int) == parse_shape_list(v@, pos as int, acc@),
        decreases v@.len() - pos,
    {
        if let Some(e) = eat_byte_exec(v, pos, RBRACKET) {
            return Some((acc, e));
        }
        let j1 = match eat_byte_exec(v, pos, COMMA) {
            Some(x) => x,
            None => {
                return None;
            },
        };
        let (sh, j2) = match parse_shape_exec(v, j1) {
            Some(p) => p,
            None => {
                return None;
            },
        };
        acc.push(sh);
        pos = j2;
    }
}

/// The decoded shape of a complete payload: one shape object, possibly
/// surrounded by whitespace, and nothing else.
pub open spec fn shape_of_json(s: Seq<u8>) -> Option<Shape> {
    match parse_shape_at(s, 0) {
        Some((sh, j)) => if 0 <= j <= s.len() && skip_ws(s, j) == s.len() {
            Some(sh)
        } else {
            None
        },
        None => None,
    }
}

/// The decoded contents of a complete batch payload: one shape array,
/// possibly surrounded by whitespace, and nothing else.
pub open spec fn shapes_of_json(s: Seq<u8>) -> Option<Seq<Shape>> {
    match parse_shapes_at(s, 0) {
        Some((l, j)) => if 0 <= j <= s.len() && skip_ws(s, j) == s.len() {
            Some(l)
        } else {
            None
        },
        None => None,
    }
}

// ---------------------------------------------------------------------------
// Encoding
// ---------------------------------------------------------------------------

/// Decimal digit bytes of a non-negative integer, most significant first.
pub open spec fn dec_digits(n: int) -> Seq<u8>
    decreases n,
{
    if n < 0 {
        Seq::empty()
    } else if n < 10 {
        seq![(48 + n) as u8]
    } else {
        dec_digits(n / 10).push((48 + n % 10) as u8)
    }
}

/// Encoding of an `i32`: an optional minus sign and decimal digits.
pub open spec fn enc_i32(x: i32) -> Seq<u8> {
    if x < 0 {
        seq![MINUS] + dec_digits(-(x as int))
    } else {
        dec_digits(x as int)
    }
}

/// Encoding of a point: `{"x":...,"y":...}` with no whitespace.
pub open spec fn enc_point(p: Point) -> Seq<u8> {
    seq![LBRACE] + key_x() + seq![COLON] + enc_i32(p.x) + seq![COMMA] + key_y() + seq![COLON]
        + enc_i32(p.y) + seq![RBRACE]
}

/// Encoding of a size: `{"x":...,"y":...}` with no whitespace.
pub open spec fn enc_size(z: Size) -> Seq<u8> {
    seq![LBRACE] + key_x() + seq![COLON] + dec_digits(z.x as int) + seq![COMMA] + key_y() + seq![
        COLON,
    ] + dec_digits(z.y as int) + seq![RBRACE]
}

/// Encoding of a triangle's field object: three labelled points.
pub open spec fn enc_triangle_body(a: Point, b: Point, c: Point) -> Seq<u8> {
    seq![LBRACE] + key_a() + seq![COLON] + enc_point(a) + seq![COMMA] + key_b() + seq![COLON]
        + enc_point(b) + seq![COMMA] + key_c() + seq![COLON] + enc_point(c) + seq![RBRACE]
}

/// Encoding of an ellipse's field object: a labelled point and size.
pub open spec fn enc_ellipse_body(top_left: Point, size: Size) -> Seq<u8> {
    seq![LBRACE] + key_top_left() + seq![COLON] + enc_point(top_left) + seq![COMMA] + key_size()
        + seq![COLON] + enc_size(size) + seq![RBRACE]
}

/// Encoding of one shape as an externally tagged object with no
/// whitespace, fields in declaration order.
pub open spec fn enc_shape(sh: Shape) -> Seq<u8> {
    match sh {
        Shape::Triangle { a, b, c } => seq![LBRACE] + tok_triangle() + seq![COLON]
            + enc_triangle_body(a, b, c) + seq![RBRACE],
        Shape::Ellipse { top_left, size } => seq![LBRACE] + tok_ellipse() + seq![COLON]
            + enc_ellipse_body(top_left, size) + seq![RBRACE],
    }
}

/// Encoding of the tail of a shape array: `,<shape>` for each remaining
/// element, then `]`.
pub open spec fn enc_shape_tail(l: Seq<Shape>) -> Seq<u8>
    decreases l.len(),
{
    if l.len() == 0 {
        seq![RBRACKET]
    } else {
        seq![COMMA] + enc_shape(l[0]) + enc_shape_tail(l.drop_first())
    }
}

/// Encoding of a shape batch as a JSON array with no whitespace.
pub open spec fn enc_shapes(l: Seq<Shape>) -> Seq<u8> {
    if l.len() == 0 {
        seq![LBRACKET, RBRACKET]
    } else {
        seq![LBRACKET] + enc_shape(l[0]) + enc_shape_tail(l.drop_first())
    }
}

/// Append the decimal digits of `n`.
pub(crate) fn push_u64_dec(out: &mut Vec<u8>, n: u64)
    ensures
        final(out)@ == old(out)@ + dec_digits(n as int),
    decreases n,
{
    if n < 10 {
        out.push(48 + n as u8);
        proof {
            assert(out@ =~= old(out)@ + dec_digits(n as int));
        }
    } else {
        push_u64_dec(out, n / 10);
        out.push(48 + (n % 10) as u8);
        proof {
            assert(out@ =~= old(out)@ + dec_digits(n as int));
        }
    }
}

fn push_i32_dec(out: &mut Vec<u8>, x: i32)
    ensures
        final(out)@ == old(out)@ + enc_i32(x),
{
    if x < 0 {
        out.push(MINUS);
        let wide: i64 = x as i64;
        let m: u32 = (-wide) as u32;
        proof {
            assert(m as int == -(x as int));
        }
        push_u64_dec(out, m as u64);
        proof {
            assert(out@ =~= old(out)@ + enc_i32(x));
        }
    } else {
        push_u64_dec(out, x as u64);
    }
}

fn push_point(out: &mut Vec<u8>, p: &Point)
    ensures
        final(out)@ == old(out)@ + enc_point(*p),
{
    let mut kx = key_x_vec();
    let mut ky = key_y_vec();
    out.push(LBRACE);
    out.append(&mut kx);
    out.push(COLON);
    push_i32_dec(out, p.x);
    out.push(COMMA);
    out.append(&mut ky);
    out.push(COLON);
    push_i32_dec(out, p.y);
    out.push(RBRACE);
    proof {
        assert(out@ =~= old(out)@ + enc_point(*p));
    }
}

fn push_size(out: &mut Vec<u8>, z: &Size)
    ensures
        final(out)@ == old(out)@ + enc_size(*z),
{
    let mut kx = key_x_vec();
    let mut ky = key_y_vec();
    out.push(LBRACE);
    out.append(&mut kx);
    out.push(COLON);
    push_u64_dec(out, z.x as u64);
    out.push(COMMA);
    out.append(&mut ky);
    out.push(COLON);
    push_u64_dec(out, z.y as u64);
    out.push(RBRACE);
    proof {
        assert(out@ =~= old(out)@ + enc_size(*z));
    }
}

#[verifier::rlimit(60)]
fn push_shape(out: &mut Vec<u8>, sh: &Shape)
    ensures
        final(out)@ == old(out)@ + enc_shape(*sh),
{
    match sh {
        Shape::Triangle { a, b, c } => {
            let mut tag = tok_triangle_vec();
            let mut ka = key_a_vec();
            let mut kb = key_b_vec();
            let mut kc = key_c_vec();
            out.push(LBRACE);
            out.append(&mut tag);
            out.push(COLON);
            out.push(LBRACE);
            out.append(&mut ka);
            out.push(COLON);
            push_point(out, a);
            out.push(COMMA);
            out.append(&mut kb);
            out.push(COLON);
            push_point(out, b);
            out.push(COMMA);
            out.append(&mut kc);
            out.push(COLON);
            push_point(out, c);
            out.push(RBRACE);
            out.push(RBRACE);
            proof {
                assert(out@ =~= old(out)@ + enc_shape(*sh));
            }
        },
        Shape::Ellipse { top_left, size } => {
            let mut tag = tok_ellipse_vec();
            let mut ktl = key_top_left_vec();
            let mut ksz = key_size_vec();
            out.push(LBRACE);
            out.append(&mut tag);
            out.push(COLON);
            out.push(LBRACE);
            out.append(&mut ktl);
            out.push(COLON);
            push_point(out, top_left);
            out.push(COMMA);
            out.append(&mut ksz);
            out.push(COLON);
            push_size(out, size);
            out.push(RBRACE);
            out.push(RBRACE);
            proof {
                assert(out@ =~= old(out)@ + enc_shape(*sh));
            }
        },
    }
}

fn push_shape_tail(out: &mut Vec<u8>, l: &Vec<Shape>, k: usize)
    requires
        1 <= k <= l@.len(),
    ensures
        final(out)@ == old(out)@ + enc_shape_tail(l@.skip(k as int)),
    decreases l@.len() - k,
{
    if k == l.len() {
        out.push(RBRACKET);
        proof {
            assert(l@.skip(k as int) =~= Seq::<Shape>::empty());
            assert(out@ =~= old(out)@ + enc_shape_tail(l@.skip(k as int)));
        }
    } else {
        out.push(COMMA);
        push_shape(out, &l[k]);
        push_shape_tail(out, l, k + 1);
        proof {
            let rest = l@.skip(k as int);
            assert(rest[0] == l@[k as int]);
            assert(rest.drop_first() =~= l@.skip(k + 1));
            assert(out@ =~= old(out)@ + enc_shape_tail(rest));
        }
    }
}

/// The description carried by a `ShapeError` when a single-shape payload
/// cannot be decoded.
pub open spec fn shape_error_text() -> Seq<char> {
    "payload is not a valid shape encoding"@
}

/// The description carried by a `ShapeError` when a batch payload cannot
/// be decoded.
pub open spec fn shapes_error_text() -> Seq<char> {
    "payload is not a valid shape array encoding"@
}

impl Shape {
    /// Encode this shape as its canonical JSON, with no whitespace.
    pub fn to_json(&self) -> (r: Vec<u8>)
        ensures
            r@ == enc_shape(*self),
    {
        let mut out: Vec<u8> = Vec::new();
        push_shape(&mut out, self);
        out
    }

    /// Decode a payload holding exactly one shape object.  Returns the
    /// shape the grammar assigns to the payload, or an error exactly when
    /// the payload has no such reading.
    pub fn from_json(body: &Vec<u8>) -> (r: Result<Shape, ShapeError>)
        ensures
            r matches Ok(sh) ==> shape_of_json(body@) == Some(sh),
            r matches Err(e) ==> shape_of_json(body@) is None && (e matches
                ShapeError::DeserializationError(m) && m@ == shape_error_text()),
    {
        match parse_shape_exec(body, 0) {
            Some((sh, e)) => {
                let t = skip_ws_exec(body, e);
                if t == body.len() {
                    Ok(sh)
                } else {
                    Err(ShapeError::DeserializationError(
                        "payload is not a valid shape encoding".to_owned(),
                    ))
                }
            },
            None => Err(ShapeError::DeserializationError(
                "payload is not a valid shape encoding".to_owned(),
            )),
        }
    }
}

impl Shapes {
    /// Encode this batch as its canonical JSON array, with no whitespace.
    pub fn to_json(&self) -> (r: Vec<u8>)
        ensures
            r@ == enc_shapes(self.0@),
    {
        let mut out: Vec<u8> = Vec::new();
        out.push(LBRACKET);
        if self.0.len() == 0 {
            out.push(RBRACKET);
            proof {
                assert(out@ =~= enc_shapes(self.0@));
            }
        } else {
            push_shape(&mut out, &self.0[0]);
            push_shape_tail(&mut out, &self.0, 1);
            proof {
                assert(self.0@.skip(1) =~= self.0@.drop_first());
                assert(out@ =~= enc_shapes(self.0@));
            }
        }
        out
    }

    /// Decode a payload holding an array of shapes.  Returns the batch,
    /// in array order, or an error exactly when the payload has no such
    /// reading.
    pub fn from_json(body: &Vec<u8>) -> (r: Result<Shapes, ShapeError>)
        ensures
            r matches Ok(bs) ==> shapes_of_json(body@) == Some(bs.0@),
            r matches Err(e) ==> shapes_of_json(body@) is None && (e matches
                ShapeError::DeserializationError(m) && m@ == shapes_error_text()),
    {
        match parse_shapes_exec(body, 0) {
            Some((l, e)) => {
                let t = skip_ws_exec(body, e);
                if t == body.len() {
                    Ok(Shapes(l))
                } else {
                    Err(ShapeError::DeserializationError(
                        "payload is not a valid shape array encoding".to_owned(),
                    ))
                }
            },
            None => Err(ShapeError::DeserializationError(
                "payload is not a valid shape array encoding".to_owned(),
            )),
        }
    }
}

// ---------------------------------------------------------------------------
// Round trip: decoding a canonical encoding yields the original value
// ---------------------------------------------------------------------------

proof fn lemma_dec_digits_props(n: int)
    requires
        n >= 0,
    ensures
        dec_digits(n).len() >= 1,
        forall|k: int| 0 <= k < dec_digits(n).len() ==> is_digit(#[trigger] dec_digits(n)[k]),
        digits_val(dec_digits(n)) == n,
        n >= 1 ==> dec_digits(n)[0] != 48,
        n == 0 ==> dec_digits(n).len() == 1,
    decreases n,
{
    if n < 10 {
        assert(digits_val(dec_digits(n)) == digits_val(dec_digits(n).drop_last()) * 10 + (
        dec_digits(n).last() - 48));
        assert(dec_digits(n).drop_last() =~= Seq::<u8>::empty());
    } else {
        lemma_dec_digits_props(n / 10);
        vstd::arithmetic::div_mod::lemma_fundamental_div_mod(n, 10);
        let x = dec_digits(n / 10);
        let d = (48 + n % 10) as u8;
        assert(dec_digits(n) == x.push(d));
        assert(x.push(d).drop_last() =~= x);
        assert(x.push(d).last() == d);
        assert(digits_val(x.push(d)) == digits_val(x) * 10 + (d - 48));
        assert(x.push(d)[0] == x[0]);
    }
}

proof fn lemma_skip_ws_stop(s: Seq<u8>, i: int)
    requires
        0 <= i <= s.len(),
        i < s.len() ==> !is_ws(s[i]),
    ensures
        skip_ws(s, i) == i,
{
}

proof fn lemma_digit_end_of_run(s: Seq<u8>, i: int, j: int)
    requires
        0 <= i <= j <= s.len(),
        forall|k: int| i <= k < j ==> is_digit(#[trigger] s[k]),
        j < s.len() ==> !is_digit(s[j]),
    ensures
        digit_end(s, i) == j,
    decreases j - i,
{
    if i < j {
        lemma_digit_end_of_run(s, i + 1, j);
    }
}

proof fn lemma_match_at_concat(s: Seq<u8>, i: int, a: Seq<u8>, b: Seq<u8>)
    requires
        match_at(s, i, a + b),
    ensures
        match_at(s, i, a),
        match_at(s, i + a.len(), b),
{
    assert forall|k: int| 0 <= k < a.len() implies s[i + k] == #[trigger] a[k] by {
        assert((a + b)[k] == a[k]);
        assert(s[i + k] == (a + b)[k]);
    }
    assert forall|k: int| 0 <= k < b.len() implies s[i + a.len() + k] == #[trigger] b[k] by {
        assert((a + b)[a.len() + k] == b[k]);
        assert(s[i + (a.len() + k)] == (a + b)[a.len() + k]);
    }
}

proof fn lemma_parse_digits_complete(s: Seq<u8>, i: int, n: int)
    requires
        n >= 0,
        match_at(s, i, dec_digits(n)),
        i + dec_digits(n).len() < s.len() ==> !is_digit(s[i + dec_digits(n).len()]),
    ensures
        parse_digits(s, i) == Some((n, i + dec_digits(n).len())),
{
    lemma_dec_digits_props(n);
    let d = dec_digits(n);
    let e = i + d.len();
    assert forall|k: int| i <= k < e implies is_digit(#[trigger] s[k]) by {
        assert(s[i + (k - i)] == dec_digits(n)[k - i]);
        assert(is_digit(dec_digits(n)[k - i]));
    }
    lemma_digit_end_of_run(s, i, e);
    assert(s[i] == d[0]) by {
        assert(s[i + 0] == d[0]);
    }
    if s[i] == 48 {
        assert(n == 0);
        assert(e == i + 1);
    }
    assert(s.subrange(i, e) =~= d) by {
        assert forall|k: int| 0 <= k < d.len() implies s.subrange(i, e)[k] == d[k] by {
            assert(s[i + k] == d[k]);
        }
    }
}

proof fn lemma_parse_i32_complete(s: Seq<u8>, i: int, x: i32)
    requires
        match_at(s, i, enc_i32(x)),
        i + enc_i32(x).len() < s.len() ==> !is_digit(s[i + enc_i32(x).len()]),
    ensures
        parse_i32_at(s, i) == Some((x, i + enc_i32(x).len())),
{
    if x < 0 {
        let n = -(x as int);
        lemma_dec_digits_props(n);
        lemma_match_at_concat(s, i, seq![MINUS], dec_digits(n));
        assert(s[i + 0] == seq![MINUS][0]);
        assert(s[i] == MINUS);
        lemma_skip_ws_stop(s, i);
        lemma_parse_digits_complete(s, i + 1, n);
        assert(n <= 0x8000_0000);
        assert((-n) as i32 == x);
    } else {
        let n = x as int;
        lemma_dec_digits_props(n);
        assert(s[i + 0] == dec_digits(n)[0]);
        assert(is_digit(s[i]));
        lemma_skip_ws_stop(s, i);
        lemma_parse_digits_complete(s, i, n);
        assert(n <= 0x7fff_ffff);
    }
}

proof fn lemma_parse_u32_complete(s: Seq<u8>, i: int, x: u32)
    requires
        match_at(s, i, dec_digits(x as int)),
        i + dec_digits(x as int).len() < s.len() ==> !is_digit(s[i + dec_digits(x as int).len()]),
    ensures
        parse_u32_at(s, i) == Some((x, i + dec_digits(x as int).len())),
{
    let n = x as int;
    lemma_dec_digits_props(n);
    assert(s[i + 0] == dec_digits(n)[0]);
    assert(is_digit(s[i]));
    lemma_skip_ws_stop(s, i);
    lemma_parse_digits_complete(s, i, n);
}

proof fn lemma_match_byte(s: Seq<u8>, i: int, b: u8)
    requires
        match_at(s, i, seq![b]),
    ensures
        0 <= i < s.len(),
        s[i] == b,
{
    assert(s[i + 0] == seq![b][0]);
}

proof fn lemma_eat_byte_at(s: Seq<u8>, i: int, b: u8)
    requires
        match_at(s, i, seq![b]),
        !is_ws(b),
    ensures
        eat_byte(s, i, b) == Some(i + 1),
{
    lemma_match_byte(s, i, b);
    lemma_skip_ws_stop(s, i);
}

proof fn lemma_eat_tok_at(s: Seq<u8>, i: int, pat: Seq<u8>)
    requires
        match_at(s, i, pat),
        pat.len() > 0,
        !is_ws(pat[0]),
    ensures
        eat_tok(s, i, pat) == Some(i + pat.len()),
{
    assert(s[i + 0] == pat[0]);
    lemma_skip_ws_stop(s, i);
}

#[verifier::rlimit(100)]
#[verifier::spinoff_prover]
proof fn lemma_parse_point_complete(s: Seq<u8>, i: int, p: Point)
    requires
        match_at(s, i, enc_point(p)),
    ensures
        parse_point_at(s, i) == Some((p, i + enc_point(p).len())),
{
    let ex = enc_i32(p.x);
    let ey = enc_i32(p.y);
    let t1 = i + 1;
    let t2 = t1 + 3;
    let t3 = t2 + 1;
    let t4 = t3 + ex.len();
    let t5 = t4 + 1;
    let t6 = t5 + 3;
    let t7 = t6 + 1;
    let t8 = t7 + ey.len();
    let a7 = seq![LBRACE] + key_x() + seq![COLON] + ex + seq![COMMA] + key_y() + seq![COLON] + ey;
    lemma_match_at_concat(s, i, a7, seq![RBRACE]);
    let a6 = seq![LBRACE] + key_x() + seq![COLON] + ex + seq![COMMA] + key_y() + seq![COLON];
    lemma_match_at_concat(s, i, a6, ey);
    let a5 = seq![LBRACE] + key_x() + seq![COLON] + ex + seq![COMMA] + key_y();
    lemma_match_at_concat(s, i, a5, seq![COLON]);
    let a4 = seq![LBRACE] + key_x() + seq![COLON] + ex + seq![COMMA];
    lemma_match_at_concat(s, i, a4, key_y());
    let a3 = seq![LBRACE] + key_x() + seq![COLON] + ex;
    lemma_match_at_concat(s, i, a3, seq![COMMA]);
    let a2 = seq![LBRACE] + key_x() + seq![COLON];
    lemma_match_at_concat(s, i, a2, ex);
    let a1 = seq![LBRACE] + key_x();
    lemma_match_at_concat(s, i, a1, seq![COLON]);
    lemma_match_at_concat(s, i, seq![LBRACE], key_x());
    lemma_eat_byte_at(s, i, LBRACE);
    lemma_eat_tok_at(s, t1, key_x());
    lemma_eat_byte_at(s, t2, COLON);
    lemma_match_byte(s, t4, COMMA);
    lemma_parse_i32_complete(s, t3, p.x);
    lemma_eat_byte_at(s, t4, COMMA);
    lemma_eat_tok_at(s, t5, key_y());
    lemma_eat_byte_at(s, t6, COLON);
    lemma_match_byte(s, t8, RBRACE);
    lemma_parse_i32_complete(s, t7, p.y);
    lemma_eat_byte_at(s, t8, RBRACE);
    assert(parse_point_at(s, i) == Some((p, t8 + 1)));
}

#[verifier::rlimit(100)]
#[verifier::spinoff_prover]
proof fn lemma_parse_size_complete(s: Seq<u8>, i: int, z: Size)
    requires
        match_at(s, i, enc_size(z)),
    ensures
        parse_size_at(s, i) == Some((z, i + enc_size(z).len())),
{
    let ex = dec_digits(z.x as int);
    let ey = dec_digits(z.y as int);
    let t1 = i + 1;
    let t2 = t1 + 3;
    let t3 = t2 + 1;
    let t4 = t3 + ex.len();
    let t5 = t4 + 1;
    let t6 = t5 + 3;
    let t7 = t6 + 1;
    let t8 = t7 + ey.len();
    let a7 = seq![LBRACE] + key_x() + seq![COLON] + ex + seq![COMMA] + key_y() + seq![COLON] + ey;
    lemma_match_at_concat(s, i, a7, seq![RBRACE]);
    let a6 = seq![LBRACE] + key_x() + seq![COLON] + ex + seq![COMMA] + key_y() + seq![COLON];
    lemma_match_at_concat(s, i, a6, ey);
    let a5 = seq![LBRACE] + key_x() + seq![COLON] + ex + seq![COMMA] + key_y();
    lemma_match_at_concat(s, i, a5, seq![COLON]);
    let a4 = seq![LBRACE] + key_x() + seq![COLON] + ex + seq![COMMA];
    lemma_match_at_concat(s, i, a4, key_y());
    let a3 = seq![LBRACE] + key_x() + seq![COLON] + ex;
    lemma_match_at_concat(s, i, a3, seq![COMMA]);
    let a2 = seq![LBRACE] + key_x() + seq![COLON];
    lemma_match_at_concat(s, i, a2, ex);
    let a1 = seq![LBRACE] + key_x();
    lemma_match_at_concat(s, i, a1, seq![COLON]);
    lemma_match_at_concat(s, i, seq![LBRACE], key_x());
    lemma_eat_byte_at(s, i, LBRACE);
    lemma_eat_tok_at(s, t1, key_x());
    lemma_eat_byte_at(s, t2, COLON);
    lemma_match_byte(s, t4, COMMA);
    lemma_parse_u32_complete(s, t3, z.x);
    lemma_eat_byte_at(s, t4, COMMA);
    lemma_eat_tok_at(s, t5, key_y());
    lemma_eat_byte_at(s, t6, COLON);
    lemma_match_byte(s, t8, RBRACE);
    lemma_parse_u32_complete(s, t7, z.y);
    lemma_eat_byte_at(s, t8, RBRACE);
    assert(parse_size_at(s, i) == Some((z, t8 + 1)));
}

#[verifier::rlimit(100)]
#[verifier::spinoff_prover]
proof fn lemma_parse_triangle_body_complete(s: Seq<u8>, i: int, a: Point, b: Point, c: Point)
    requires
        match_at(s, i, enc_triangle_body(a, b, c)),
    ensures
        parse_triangle_body(s, i) == Some(
            (Shape::Triangle { a, b, c }, i + enc_triangle_body(a, b, c).len()),
        ),
{
    let ea = enc_point(a);
    let eb = enc_point(b);
    let ec = enc_point(c);
    let t1 = i + 1;
    let t2 = t1 + 3;
    let t3 = t2 + 1;
    let t4 = t3 + ea.len();
    let t5 = t4 + 1;
    let t6 = t5 + 3;
    let t7 = t6 + 1;
    let t8 = t7 + eb.len();
    let t9 = t8 + 1;
    let t10 = t9 + 3;
    let t11 = t10 + 1;
    let t12 = t11 + ec.len();
    let a11 = seq![LBRACE] + key_a() + seq![COLON] + ea + seq![COMMA] + key_b() + seq![COLON] + eb
        + seq![COMMA] + key_c() + seq![COLON] + ec;
    lemma_match_at_concat(s, i, a11, seq![RBRACE]);
    let a10 = seq![LBRACE] + key_a() + seq![COLON] + ea + seq![COMMA] + key_b() + seq![COLON] + eb
        + seq![COMMA] + key_c() + seq![COLON];
    lemma_match_at_concat(s, i, a10, ec);
    let a9 = seq![LBRACE] + key_a() + seq![COLON] + ea + seq![COMMA] + key_b() + seq![COLON] + eb
        + seq![COMMA] + key_c();
    lemma_match_at_concat(s, i, a9, seq![COLON]);
    let a8 = seq![LBRACE] + key_a() + seq![COLON] + ea + seq![COMMA] + key_b() + seq![COLON] + eb
        + seq![COMMA];
    lemma_match_at_concat(s, i, a8, key_c());
    let a7 = seq![LBRACE] + key_a() + seq![COLON] + ea + seq![COMMA] + key_b() + seq![COLON] + eb;
    lemma_match_at_concat(s, i, a7, seq![COMMA]);
    let a6 = seq![LBRACE] + key_a() + seq![COLON] + ea + seq![COMMA] + key_b() + seq![COLON];
    lemma_match_at_concat(s, i, a6, eb);
    let a5 = seq![LBRACE] + key_a() + seq![COLON] + ea + seq![COMMA] + key_b();
    lemma_match_at_concat(s, i, a5, seq![COLON]);
    let a4 = seq![LBRACE] + key_a() + seq![COLON] + ea + seq![COMMA];
    lemma_match_at_concat(s, i, a4, key_b());
    let a3 = seq![LBRACE] + key_a() + seq![COLON] + ea;
    lemma_match_at_concat(s, i, a3, seq![COMMA]);
    let a2 = seq![LBRACE] + key_a() + seq![COLON];
    lemma_match_at_concat(s, i, a2, ea);
    let a1 = seq![LBRACE] + key_a();
    lemma_match_at_concat(s, i, a1, seq![COLON]);
    lemma_match_at_concat(s, i, seq![LBRACE], key_a());
    lemma_eat_byte_at(s, i, LBRACE);
    lemma_eat_tok_at(s, t1, key_a());
    lemma_eat_byte_at(s, t2, COLON);
    lemma_parse_point_complete(s, t3, a);
    lemma_eat_byte_at(s, t4, COMMA);
    lemma_eat_tok_at(s, t5, key_b());
    lemma_eat_byte_at(s, t6, COLON);
    lemma_parse_point_complete(s, t7, b);
    lemma_eat_byte_at(s, t8, COMMA);
    lemma_eat_tok_at(s, t9, key_c());
    lemma_eat_byte_at(s, t10, COLON);
    lemma_parse_point_complete(s, t11, c);
    lemma_eat_byte_at(s, t12, RBRACE);
    assert(parse_triangle_body(s, i) == Some((Shape::Triangle { a, b, c }, t12 + 1)));
}

#[verifier::rlimit(100)]
#[verifier::spinoff_prover]
proof fn lemma_parse_ellipse_body_complete(s: Seq<u8>, i: int, top_left: Point, size: Size)
    requires
        match_at(s, i, enc_ellipse_body(top_left, size)),
    ensures
        parse_ellipse_body(s, i) == Some(
            (Shape::Ellipse { top_left, size }, i + enc_ellipse_body(top_left, size).len()),
        ),
{
    let etl = enc_point(top_left);
    let esz = enc_size(size);
    let t1 = i + 1;
    let t2 = t1 + 10;
    let t3 = t2 + 1;
    let t4 = t3 + etl.len();
    let t5 = t4 + 1;
    let t6 = t5 + 6;
    let t7 = t6 + 1;
    let t8 = t7 + esz.len();
    let a7 = seq![LBRACE] + key_top_left() + seq![COLON] + etl + seq![COMMA] + key_size() + seq![
        COLON,
    ] + esz;
    lemma_match_at_concat(s, i, a7, seq![RBRACE]);
    let a6 = seq![LBRACE] + key_top_left() + seq![COLON] + etl + seq![COMMA] + key_size() + seq![
        COLON,
    ];
    lemma_match_at_concat(s, i, a6, esz);
    let a5 = seq![LBRACE] + key_top_left() + seq![COLON] + etl + seq![COMMA] + key_size();
    lemma_match_at_concat(s, i, a5, seq![COLON]);
    let a4 = seq![LBRACE] + key_top_left() + seq![COLON] + etl + seq![COMMA];
    lemma_match_at_concat(s, i, a4, key_size());
    let a3 = seq![LBRACE] + key_top_left() + seq![COLON] + etl;
    lemma_match_at_concat(s, i, a3, seq![COMMA]);
    let a2 = seq![LBRACE] + key_top_left() + seq![COLON];
    lemma_match_at_concat(s, i, a2, etl);
    let a1 = seq![LBRACE] + key_top_left();
    lemma_match_at_concat(s, i, a1, seq![COLON]);
    lemma_match_at_concat(s, i, seq![LBRACE], key_top_left());
    lemma_eat_byte_at(s, i, LBRACE);
    lemma_eat_tok_at(s, t1, key_top_left());
    lemma_eat_byte_at(s, t2, COLON);
    lemma_parse_point_complete(s, t3, top_left);
    lemma_eat_byte_at(s, t4, COMMA);
    lemma_eat_tok_at(s, t5, key_size());
    lemma_eat_byte_at(s, t6, COLON);
    lemma_parse_size_complete(s, t7, size);
    lemma_eat_byte_at(s, t8, RBRACE);
    assert(parse_ellipse_body(s, i) == Some((Shape::Ellipse { top_left, size }, t8 + 1)));
}

/// Parsing a canonical shape encoding embedded at `i` yields the shape and
/// stops exactly at its end.
#[verifier::rlimit(100)]
#[verifier::spinoff_prover]
pub proof fn lemma_parse_shape_complete(s: Seq<u8>, i: int, sh: Shape)
    requires
        match_at(s, i, enc_shape(sh)),
    ensures
        parse_shape_at(s, i) == Some((sh, i + enc_shape(sh).len())),
{
    match sh {
        Shape::Triangle { a, b, c } => {
            let body = enc_triangle_body(a, b, c);
            let t1 = i + 1;
            let t2 = t1 + 10;
            let t3 = t2 + 1;
            let t4 = t3 + body.len();
            let a3 = seq![LBRACE] + tok_triangle() + seq![COLON] + body;
            lemma_match_at_concat(s, i, a3, seq![RBRACE]);
            let a2 = seq![LBRACE] + tok_triangle() + seq![COLON];
            lemma_match_at_concat(s, i, a2, body);
            let a1 = seq![LBRACE] + tok_triangle();
            lemma_match_at_concat(s, i, a1, seq![COLON]);
            lemma_match_at_concat(s, i, seq![LBRACE], tok_triangle());
            lemma_eat_byte_at(s, i, LBRACE);
            assert(s[t1 + 0] == tok_triangle()[0]);
            lemma_skip_ws_stop(s, t1);
            lemma_eat_byte_at(s, t2, COLON);
            lemma_parse_triangle_body_complete(s, t3, a, b, c);
            lemma_eat_byte_at(s, t4, RBRACE);
            assert(parse_shape_at(s, i) == Some((sh, t4 + 1)));
        },
        Shape::Ellipse { top_left, size } => {
            let body = enc_ellipse_body(top_left, size);
            let t1 = i + 1;
            let t2 = t1 + 9;
            let t3 = t2 + 1;
            let t4 = t3 + body.len();
            let a3 = seq![LBRACE] + tok_ellipse() + seq![COLON] + body;
            lemma_match_at_concat(s, i, a3, seq![RBRACE]);
            let a2 = seq![LBRACE] + tok_ellipse() + seq![COLON];
            lemma_match_at_concat(s, i, a2, body);
            let a1 = seq![LBRACE] + tok_ellipse();
            lemma_match_at_concat(s, i, a1, seq![COLON]);
            lemma_match_at_concat(s, i, seq![LBRACE], tok_ellipse());
            lemma_eat_byte_at(s, i, LBRACE);
            assert(s[t1 + 0] == tok_ellipse()[0]);
            lemma_skip_ws_stop(s, t1);
            assert(!match_at(s, t1, tok_triangle())) by {
                if match_at(s, t1, tok_triangle()) {
                    assert(s[t1 + 1] == tok_triangle()[1]);
                    assert(s[t1 + 1] == tok_ellipse()[1]);
                }
            }
            lemma_eat_byte_at(s, t2, COLON);
            lemma_parse_ellipse_body_complete(s, t3, top_left, size);
            lemma_eat_byte_at(s, t4, RBRACE);
            assert(parse_shape_at(s, i) == Some((sh, t4 + 1)));
        },
    }
}

/// Decoding the canonical encoding of a shape reproduces the shape's
/// fields exactly: the round trip loses nothing.
pub proof fn lemma_shape_round_trip(sh: Shape)
    ensures
        shape_of_json(enc_shape(sh)) == Some(sh),
{
    let s = enc_shape(sh);
    assert(match_at(s, 0, s));
    lemma_parse_shape_complete(s, 0, sh);
    lemma_skip_ws_stop(s, s.len() as int);
}

proof fn lemma_enc_shape_first_byte(sh: Shape)
    ensures
        enc_shape(sh).len() > 0,
        enc_shape(sh)[0] == LBRACE,
{
    match sh {
        Shape::Triangle { a, b, c } => {
            assert(enc_shape(sh) == seq![LBRACE] + tok_triangle() + seq![COLON]
                + enc_triangle_body(a, b, c) + seq![RBRACE]);
        },
        Shape::Ellipse { top_left, size } => {
            assert(enc_shape(sh) == seq![LBRACE] + tok_ellipse() + seq![COLON] + enc_ellipse_body(
                top_left,
                size,
            ) + seq![RBRACE]);
        },
    }
}

#[verifier::rlimit(100)]
#[verifier::spinoff_prover]
proof fn lemma_parse_shape_list_complete(s: Seq<u8>, i: int, acc: Seq<Shape>, rest: Seq<Shape>)
    requires
        match_at(s, i, enc_shape_tail(rest)),
    ensures
        parse_shape_list(s, i, acc) == Some((acc + rest, i + enc_shape_tail(rest).len())),
    decreases rest.len(),
{
    if rest.len() == 0 {
        lemma_eat_byte_at(s, i, RBRACKET);
        assert(acc + rest =~= acc);
    } else {
        let e0 = enc_shape(rest[0]);
        let tail = enc_shape_tail(rest.drop_first());
        lemma_match_at_concat(s, i, seq![COMMA] + e0, tail);
        lemma_match_at_concat(s, i, seq![COMMA], e0);
        lemma_match_byte(s, i, COMMA);
        lemma_skip_ws_stop(s, i);
        assert(eat_byte(s, i, RBRACKET) is None);
        lemma_eat_byte_at(s, i, COMMA);
        let i1 = i + 1;
        lemma_parse_shape_complete(s, i1, rest[0]);
        let i2 = i1 + e0.len();
        lemma_parse_shape_list_complete(s, i2, acc.push(rest[0]), rest.drop_first());
        assert(acc.push(rest[0]) + rest.drop_first() =~= acc + rest);
    }
}

/// Decoding the canonical encoding of a batch reproduces every shape, in
/// order: the round trip loses nothing.
#[verifier::rlimit(100)]
#[verifier::spinoff_prover]
pub proof fn lemma_shapes_round_trip(l: Seq<Shape>)
    ensures
        shapes_of_json(enc_shapes(l)) == Some(l),
{
    let s = enc_shapes(l);
    assert(match_at(s, 0, s));
    if l.len() == 0 {
        lemma_match_at_concat(s, 0, seq![LBRACKET], seq![RBRACKET]);
        lemma_eat_byte_at(s, 0, LBRACKET);
        lemma_eat_byte_at(s, 1, RBRACKET);
        assert(parse_shapes_at(s, 0) == Some((Seq::<Shape>::empty(), 2int)));
        lemma_skip_ws_stop(s, 2);
        assert(l =~= Seq::<Shape>::empty());
    } else {
        let e0 = enc_shape(l[0]);
        let tail = enc_shape_tail(l.drop_first());
        lemma_match_at_concat(s, 0, seq![LBRACKET] + e0, tail);
        lemma_match_at_concat(s, 0, seq![LBRACKET], e0);
        lemma_eat_byte_at(s, 0, LBRACKET);
        lemma_enc_shape_first_byte(l[0]);
        let p1: int = 1;
        assert(s[p1 + 0] == e0[0]);
        lemma_skip_ws_stop(s, 1);
        assert(eat_byte(s, 1, RBRACKET) is None);
        lemma_parse_shape_complete(s, 1, l[0]);
        let i2: int = 1 + e0.len() as int;
        lemma_parse_shape_list_complete(s, i2, seq![l[0]], l.drop_first());
        assert(seq![l[0]] + l.drop_first() =~= l);
        lemma_skip_ws_stop(s, s.len() as int);
    }
}

} // verus!
