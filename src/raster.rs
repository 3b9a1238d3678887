use vstd::prelude::*;

verus! {

pub open spec fn abs(v: int) -> int {
    if v < 0 {
        -v
    } else {
        v
    }
}

/// Direction of the minor axis: up when both deltas have the same strict sign, else down.
pub open spec fn line_sign(dx: int, dy: int) -> int {
    if (dx < 0 && dy < 0) || (dx > 0 && dy > 0) {
        1
    } else {
        -1
    }
}

/// The line steps along x (`|dy| <= |dx|`) rather than along y.
pub open spec fn x_major(x1: int, y1: int, x2: int, y2: int) -> bool {
    abs(y2 - y1) <= abs(x2 - x1)
}

/// Steps after the first point: the length of the major axis.
pub open spec fn line_steps(x1: int, y1: int, x2: int, y2: int) -> int {
    if x_major(x1, y1, x2, y2) {
        abs(x2 - x1)
    } else {
        abs(y2 - y1)
    }
}

/// The end the line is drawn from: the one with the smaller major coordinate.
pub open spec fn line_start(x1: int, y1: int, x2: int, y2: int) -> (int, int) {
    if x_major(x1, y1, x2, y2) {
        if x2 - x1 >= 0 {
            (x1, y1)
        } else {
            (x2, y2)
        }
    } else {
        if y2 - y1 >= 0 {
            (x1, y1)
        } else {
            (x2, y2)
        }
    }
}

/// Minor-axis offset after `i` steps along x: `i·|dy|/|dx|` rounded, halves up.
pub open spec fn x_major_offset(i: int, adx: int, ady: int) -> int {
    if adx == 0 {
        0
    } else {
        (2 * i * ady + adx) / (2 * adx)
    }
}

/// Minor-axis offset after `i` steps along y: `i·|dx|/|dy|` rounded, halves down.
pub open spec fn y_major_offset(i: int, adx: int, ady: int) -> int {
    (2 * i * adx + ady - 1) / (2 * ady)
}

/// Point `i` of the integer line from `(x1, y1)` to `(x2, y2)`, counted from `line_start`.
pub open spec fn line_point(x1: int, y1: int, x2: int, y2: int, i: int) -> (int, int) {
    let dx = x2 - x1;
    let dy = y2 - y1;
    let s = line_sign(dx, dy);
    let start = line_start(x1, y1, x2, y2);
    if x_major(x1, y1, x2, y2) {
        (start.0 + i, start.1 + s * x_major_offset(i, abs(dx), abs(dy)))
    } else {
        (start.0 + s * y_major_offset(i, abs(dx), abs(dy)), start.1 + i)
    }
}

/// The first `n + 1` points of the line.
pub open spec fn line_prefix(x1: int, y1: int, x2: int, y2: int, n: int) -> Set<(int, int)> {
    Set::new(|p: (int, int)| exists|i: int| 0 <= i <= n && #[trigger] line_point(x1, y1, x2, y2, i) == p)
}

/// The pixels of the line from `(x1, y1)` to `(x2, y2)`, both ends included.
pub open spec fn line_points(x1: int, y1: int, x2: int, y2: int) -> Set<(int, int)> {
    line_prefix(x1, y1, x2, y2, line_steps(x1, y1, x2, y2))
}

/// One more point extends the prefix.
pub proof fn lemma_line_prefix_next(x1: int, y1: int, x2: int, y2: int, n: int)
    requires
        n >= 0,
    ensures
        line_prefix(x1, y1, x2, y2, n).union(set![line_point(x1, y1, x2, y2, n + 1)])
            == line_prefix(x1, y1, x2, y2, n + 1),
{
    let a = line_prefix(x1, y1, x2, y2, n).union(set![line_point(x1, y1, x2, y2, n + 1)]);
    let b = line_prefix(x1, y1, x2, y2, n + 1);
    assert forall|p: (int, int)| a.contains(p) <==> b.contains(p) by {
        if b.contains(p) {
            let i = choose|i: int| 0 <= i <= n + 1 && #[trigger] line_point(x1, y1, x2, y2, i) == p;
            if i <= n {
                assert(line_prefix(x1, y1, x2, y2, n).contains(p));
            }
        }
        if line_prefix(x1, y1, x2, y2, n).contains(p) {
            let i = choose|i: int| 0 <= i <= n && #[trigger] line_point(x1, y1, x2, y2, i) == p;
            assert(0 <= i <= n + 1 && line_point(x1, y1, x2, y2, i) == p);
        }
        if p == line_point(x1, y1, x2, y2, n + 1) {
            assert(0 <= n + 1 <= n + 1 && line_point(x1, y1, x2, y2, n + 1) == p);
        }
    }
    assert(a =~= b);
}

/// The first point alone.
pub proof fn lemma_line_prefix_first(x1: int, y1: int, x2: int, y2: int)
    ensures
        line_prefix(x1, y1, x2, y2, 0) == set![line_point(x1, y1, x2, y2, 0)],
{
    let a = line_prefix(x1, y1, x2, y2, 0);
    assert forall|p: (int, int)| a.contains(p) <==> set![line_point(x1, y1, x2, y2, 0)].contains(p) by {
        if p == line_point(x1, y1, x2, y2, 0) {
            assert(0 <= 0 <= 0 && line_point(x1, y1, x2, y2, 0) == p);
        }
    }
    assert(a =~= set![line_point(x1, y1, x2, y2, 0)]);
}

/// Adding `d <= b` to `a` moves the quotient by `b` up by at most one, and it moves exactly when
/// the remainder overflows.
pub proof fn lemma_div_mod_step(a: int, b: int, d: int)
    requires
        a >= 0,
        b > 0,
        0 <= d <= b,
    ensures
        a % b + d >= b ==> (a + d) / b == a / b + 1 && (a + d) % b == a % b + d - b,
        a % b + d < b ==> (a + d) / b == a / b && (a + d) % b == a % b + d,
        0 <= a % b < b,
{
    vstd::arithmetic::div_mod::lemma_fundamental_div_mod(a, b);
    vstd::arithmetic::div_mod::lemma_mod_bound(a, b);
    let k = a / b;
    let r = a % b;
    if r + d >= b {
        assert(a + d == (k + 1) * b + (r + d - b)) by (nonlinear_arith)
            requires
                a == b * k + r,
        ;
        vstd::arithmetic::div_mod::lemma_fundamental_div_mod_converse(a + d, b, k + 1, r + d - b);
    } else {
        assert(a + d == k * b + (r + d)) by (nonlinear_arith)
            requires
                a == b * k + r,
        ;
        vstd::arithmetic::div_mod::lemma_fundamental_div_mod_converse(a + d, b, k, r + d);
    }
}

/// A line whose two ends coincide is that single point.
pub proof fn lemma_line_single_point(x: int, y: int)
    ensures
        line_points(x, y, x, y) == set![(x, y)],
{
    lemma_line_prefix_first(x, y, x, y);
    assert(line_point(x, y, x, y, 0) == (x, y));
}

/// `a / b` rounded toward zero, for `b > 0`.
pub open spec fn div_toward_zero(a: int, b: int) -> int {
    if a >= 0 {
        a / b
    } else {
        -((-a) / b)
    }
}

/// Initial decision value of the midpoint circle: `(5 - 4r) / 4`, rounded toward zero.
pub open spec fn circle_p0(r: int) -> int {
    div_toward_zero(5 - 4 * r, 4)
}

/// `(x, y, p)` after `n` steps of the midpoint circle of radius `r`.
pub open spec fn circle_state(r: int, n: nat) -> (int, int, int)
    decreases n,
{
    if n == 0 {
        (0, r, circle_p0(r))
    } else {
        let prev = circle_state(r, (n - 1) as nat);
        let x = prev.0 + 1;
        if prev.2 < 0 {
            (x, prev.1, prev.2 + 2 * x + 1)
        } else {
            (x, prev.1 - 1, prev.2 + 2 * (x - (prev.1 - 1)) + 1)
        }
    }
}

/// The iteration reaches step `n`: every earlier state had `x < y`.
pub open spec fn circle_reached(r: int, n: nat) -> bool
    decreases n,
{
    n == 0 || (circle_reached(r, (n - 1) as nat) && circle_state(r, (n - 1) as nat).0 < circle_state(
        r,
        (n - 1) as nat,
    ).1)
}

/// The points a state `(x, y)` contributes to a circle outline, by eight-way symmetry.
pub open spec fn octet(cx: int, cy: int, x: int, y: int) -> Set<(int, int)> {
    if x == 0 {
        set![(cx, cy + y), (cx, cy - y), (cx + y, cy), (cx - y, cy)]
    } else if x == y {
        set![(cx + x, cy + y), (cx - x, cy + y), (cx + x, cy - y), (cx - x, cy - y)]
    } else if x < y {
        set![
            (cx + x, cy + y),
            (cx - x, cy + y),
            (cx + x, cy - y),
            (cx - x, cy - y),
            (cx + y, cy + x),
            (cx - y, cy + x),
            (cx + y, cy - x),
            (cx - y, cy - x),
        ]
    } else {
        Set::empty()
    }
}

/// The points of row `y` from column `x1` to column `x2`, in either order.
pub open spec fn row_span(x1: int, x2: int, y: int) -> Set<(int, int)> {
    Set::new(|p: (int, int)| p.1 == y && (x1 <= p.0 <= x2 || x2 <= p.0 <= x1))
}

/// The points of column `x` from row `y1` to row `y2`, in either order.
pub open spec fn col_span(x: int, y1: int, y2: int) -> Set<(int, int)> {
    Set::new(|p: (int, int)| p.0 == x && (y1 <= p.1 <= y2 || y2 <= p.1 <= y1))
}

/// The spans a state `(x, y)` contributes to a filled circle: the chords between symmetric
/// outline points.
pub open spec fn fill_octet(cx: int, cy: int, x: int, y: int) -> Set<(int, int)> {
    if x == 0 {
        col_span(cx, cy + y, cy - y).union(row_span(cx + y, cx - y, cy))
    } else if x == y {
        row_span(cx + x, cx - x, cy + y).union(row_span(cx + x, cx - x, cy - y))
    } else if x < y {
        row_span(cx + x, cx - x, cy + y).union(row_span(cx + x, cx - x, cy - y)).union(
            row_span(cx + y, cx - y, cy + x),
        ).union(row_span(cx + y, cx - y, cy - x))
    } else {
        Set::empty()
    }
}

/// The outline (`filled` false) or disc (`filled` true) contribution of a state.
pub open spec fn circle_part(filled: bool, cx: int, cy: int, x: int, y: int) -> Set<(int, int)> {
    if filled {
        fill_octet(cx, cy, x, y)
    } else {
        octet(cx, cy, x, y)
    }
}

/// What the first `n + 1` states contribute.
pub open spec fn circle_prefix(filled: bool, cx: int, cy: int, r: int, n: nat) -> Set<(int, int)> {
    Set::new(
        |p: (int, int)|
            exists|j: nat|
                j <= n && #[trigger] circle_part(
                    filled,
                    cx,
                    cy,
                    circle_state(r, j).0,
                    circle_state(r, j).1,
                ).contains(p),
    )
}

/// The pixels of the midpoint circle of radius `r` around `(cx, cy)`: outline or disc.
pub open spec fn circle_pixels(filled: bool, cx: int, cy: int, r: int) -> Set<(int, int)> {
    Set::new(
        |p: (int, int)|
            exists|n: nat|
                circle_reached(r, n) && #[trigger] circle_part(
                    filled,
                    cx,
                    cy,
                    circle_state(r, n).0,
                    circle_state(r, n).1,
                ).contains(p),
    )
}

/// A reached step has all earlier steps reached, each with `x < y`.
pub proof fn lemma_circle_reached_down(r: int, m: nat, j: nat)
    requires
        circle_reached(r, m),
        j <= m,
    ensures
        circle_reached(r, j),
        j < m ==> circle_state(r, j).0 < circle_state(r, j).1,
    decreases m,
{
    if j < m {
        lemma_circle_reached_down(r, (m - 1) as nat, j);
    }
}

/// One more state extends the prefix.
pub proof fn lemma_circle_prefix_next(filled: bool, cx: int, cy: int, r: int, n: nat)
    ensures
        circle_prefix(filled, cx, cy, r, n).union(
            circle_part(filled, cx, cy, circle_state(r, n + 1).0, circle_state(r, n + 1).1),
        ) == circle_prefix(filled, cx, cy, r, n + 1),
{
    let a = circle_prefix(filled, cx, cy, r, n).union(
        circle_part(filled, cx, cy, circle_state(r, n + 1).0, circle_state(r, n + 1).1),
    );
    let b = circle_prefix(filled, cx, cy, r, n + 1);
    assert forall|p: (int, int)| a.contains(p) <==> b.contains(p) by {
        if b.contains(p) {
            let j = choose|j: nat|
                j <= n + 1 && #[trigger] circle_part(
                    filled,
                    cx,
                    cy,
                    circle_state(r, j).0,
                    circle_state(r, j).1,
                ).contains(p);
            if j <= n {
                assert(circle_prefix(filled, cx, cy, r, n).contains(p));
            }
        }
        if circle_prefix(filled, cx, cy, r, n).contains(p) {
            let j = choose|j: nat|
                j <= n && #[trigger] circle_part(
                    filled,
                    cx,
                    cy,
                    circle_state(r, j).0,
                    circle_state(r, j).1,
                ).contains(p);
            assert(j <= n + 1);
        }
    }
    assert(a =~= b);
}

/// The first state alone.
pub proof fn lemma_circle_prefix_first(filled: bool, cx: int, cy: int, r: int)
    ensures
        circle_prefix(filled, cx, cy, r, 0) == circle_part(
            filled,
            cx,
            cy,
            circle_state(r, 0).0,
            circle_state(r, 0).1,
        ),
{
    let a = circle_prefix(filled, cx, cy, r, 0);
    let b = circle_part(filled, cx, cy, circle_state(r, 0).0, circle_state(r, 0).1);
    assert forall|p: (int, int)| a.contains(p) <==> b.contains(p) by {
        if b.contains(p) {
            assert(0nat <= 0 && circle_part(
                filled,
                cx,
                cy,
                circle_state(r, 0nat).0,
                circle_state(r, 0nat).1,
            ).contains(p));
        }
    }
    assert(a =~= b);
}

/// Once the iteration stops at step `n`, its prefix is the whole circle.
pub proof fn lemma_circle_prefix_done(filled: bool, cx: int, cy: int, r: int, n: nat)
    requires
        circle_reached(r, n),
        !(circle_state(r, n).0 < circle_state(r, n).1),
    ensures
        circle_prefix(filled, cx, cy, r, n) == circle_pixels(filled, cx, cy, r),
{
    let a = circle_prefix(filled, cx, cy, r, n);
    let b = circle_pixels(filled, cx, cy, r);
    assert forall|p: (int, int)| a.contains(p) <==> b.contains(p) by {
        if a.contains(p) {
            let j = choose|j: nat|
                j <= n && #[trigger] circle_part(
                    filled,
                    cx,
                    cy,
                    circle_state(r, j).0,
                    circle_state(r, j).1,
                ).contains(p);
            lemma_circle_reached_down(r, n, j);
        }
        if b.contains(p) {
            let m = choose|m: nat|
                circle_reached(r, m) && #[trigger] circle_part(
                    filled,
                    cx,
                    cy,
                    circle_state(r, m).0,
                    circle_state(r, m).1,
                ).contains(p);
            if m > n {
                lemma_circle_reached_down(r, m, n);
            }
        }
    }
    assert(a =~= b);
}

/// A circle of radius 0 is its center alone, outline or disc.
pub proof fn lemma_circle_radius_zero(cx: int, cy: int)
    ensures
        circle_pixels(false, cx, cy, 0) == set![(cx, cy)],
{
    assert(circle_state(0, 0) == (0int, 0int, 1int));
    assert(!(circle_state(0, 0).0 < circle_state(0, 0).1));
    lemma_circle_prefix_done(false, cx, cy, 0, 0);
    lemma_circle_prefix_first(false, cx, cy, 0);
    assert(octet(cx, cy, 0, 0) =~= set![(cx, cy)]);
}

/// A horizontal line is the row span between its ends.
pub proof fn lemma_line_horizontal(x1: int, x2: int, y: int)
    ensures
        line_points(x1, y, x2, y) == row_span(x1, x2, y),
{
    let a = line_points(x1, y, x2, y);
    let b = row_span(x1, x2, y);
    let adx = abs(x2 - x1);
    assert forall|i: int| 0 <= i <= adx implies #[trigger] line_point(x1, y, x2, y, i) == (
        line_start(x1, y, x2, y).0 + i,
        y,
    ) by {
        if adx > 0 {
            assert(2 * i * 0 == 0);
            vstd::arithmetic::div_mod::lemma_fundamental_div_mod_converse(adx, 2 * adx, 0, adx);
        }
    }
    assert forall|p: (int, int)| a.contains(p) <==> b.contains(p) by {
        if b.contains(p) {
            let i = p.0 - line_start(x1, y, x2, y).0;
            assert(line_point(x1, y, x2, y, i) == p);
        }
    }
    assert(a =~= b);
}

/// A vertical line is the column span between its ends.
pub proof fn lemma_line_vertical(x: int, y1: int, y2: int)
    ensures
        line_points(x, y1, x, y2) == col_span(x, y1, y2),
{
    let a = line_points(x, y1, x, y2);
    let b = col_span(x, y1, y2);
    let ady = abs(y2 - y1);
    if ady == 0 {
        lemma_line_single_point(x, y1);
        assert(b =~= set![(x, y1)]);
    } else {
        assert forall|i: int| 0 <= i <= ady implies #[trigger] line_point(x, y1, x, y2, i) == (
            x,
            line_start(x, y1, x, y2).1 + i,
        ) by {
            assert(2 * i * 0 == 0);
            vstd::arithmetic::div_mod::lemma_fundamental_div_mod_converse(ady - 1, 2 * ady, 0, ady - 1);
        }
        assert forall|p: (int, int)| a.contains(p) <==> b.contains(p) by {
            if b.contains(p) {
                let i = p.1 - line_start(x, y1, x, y2).1;
                assert(line_point(x, y1, x, y2, i) == p);
            }
        }
        assert(a =~= b);
    }
}

/// The outline of the rectangle with corners `(x1, y1)` and `(x2, y2)`: rows `y1` and `y2` over
/// `x1..=x2` and columns `x1` and `x2` over `y1..=y2`. A reversed range contributes nothing.
pub open spec fn rect_outline(x1: int, y1: int, x2: int, y2: int) -> Set<(int, int)> {
    Set::new(
        |p: (int, int)|
            (x1 <= p.0 <= x2 && (p.1 == y1 || p.1 == y2)) || (y1 <= p.1 <= y2 && (p.0 == x1 || p.0
                == x2)),
    )
}

/// Every point of `x1..=x2` × `y1..=y2`; empty when a range is reversed.
pub open spec fn rect_area(x1: int, y1: int, x2: int, y2: int) -> Set<(int, int)> {
    Set::new(|p: (int, int)| x1 <= p.0 <= x2 && y1 <= p.1 <= y2)
}

} // verus!
