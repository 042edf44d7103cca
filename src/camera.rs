use vstd::prelude::*;

use crate::geometry::{lemma_lerp_between, lerp_coord, lerp_spec, Point3};

verus! {

/// The denominator of a smoothing factor: `alpha` stands for
/// `alpha / ALPHA_ONE`, the fraction of the gap closed in one tick.
pub const ALPHA_ONE: u64 = 65536;

/// Where the camera wants to be: over the target, at its own depth.
pub open spec fn desired_position(camera: Point3, target: Point3) -> Point3 {
    Point3 { x: target.x, y: target.y, z: camera.z }
}

/// The camera after one tick: without smoothing it snaps to the desired
/// position; with smoothing factor `alpha` it closes that fraction of the
/// gap on each lateral axis, rounded towards where it was.
pub open spec fn follow_spec(camera: Point3, target: Point3, smoothing: Option<u64>) -> Point3 {
    match smoothing {
        None => desired_position(camera, target),
        Some(alpha) => Point3 {
            x: lerp_spec(camera.x as int, target.x as int, alpha as int, ALPHA_ONE as int) as i64,
            y: lerp_spec(camera.y as int, target.y as int, alpha as int, ALPHA_ONE as int) as i64,
            z: camera.z,
        },
    }
}

/// Moves the camera towards the target; without a target nothing happens.
/// `smoothing` is the factor `1 - exp(-k * dt)` for stiffness `k` over the
/// elapsed time `dt`, in units of `1 / ALPHA_ONE`; none means snap.
pub fn camera_follow(camera: &mut Point3, target: Option<Point3>, smoothing: Option<u64>)
    requires
        smoothing matches Some(alpha) ==> alpha <= ALPHA_ONE,
    ensures
        target.is_none() ==> *final(camera) == *old(camera),
        target matches Some(t) ==> *final(camera) == follow_spec(*old(camera), t, smoothing),
        final(camera).z == old(camera).z,
{
    let target = match target {
        None => {
            return;
        },
        Some(t) => t,
    };
    match smoothing {
        None => {
            camera.x = target.x;
            camera.y = target.y;
        },
        Some(alpha) => {
            camera.x = lerp_coord(camera.x, target.x, alpha, ALPHA_ONE);
            camera.y = lerp_coord(camera.y, target.y, alpha, ALPHA_ONE);
        },
    }
}

/// `b` to the power `n`.
pub open spec fn power(b: int, n: nat) -> int
    decreases n,
{
    if n == 0 {
        1
    } else {
        b * power(b, (n - 1) as nat)
    }
}

/// One lateral camera coordinate after `n` smoothed ticks towards a target
/// coordinate `t` that stays put.
pub open spec fn follow_iter(c: int, t: int, alpha: int, n: nat) -> int
    decreases n,
{
    if n == 0 {
        c
    } else {
        lerp_spec(follow_iter(c, t, alpha, (n - 1) as nat), t, alpha, ALPHA_ONE as int)
    }
}

/// Repeated `camera_follow` calls towards a target that stays put trace
/// `follow_iter` on each lateral axis, and never move the depth.
pub proof fn lemma_follow_repeated(cams: Seq<Point3>, target: Point3, alpha: u64)
    requires
        alpha <= ALPHA_ONE,
        cams.len() >= 1,
        forall|i: int|
            0 <= i < cams.len() - 1 ==> #[trigger] cams[i + 1] == follow_spec(
                cams[i],
                target,
                Some(alpha),
            ),
    ensures
        cams.last().x == follow_iter(cams[0].x as int, target.x as int, alpha as int, (cams.len() - 1) as nat),
        cams.last().y == follow_iter(cams[0].y as int, target.y as int, alpha as int, (cams.len() - 1) as nat),
        cams.last().z == cams[0].z,
    decreases cams.len(),
{
    if cams.len() > 1 {
        let prefix = cams.drop_last();
        assert forall|i: int| 0 <= i < prefix.len() - 1 implies #[trigger] prefix[i + 1] == follow_spec(
            prefix[i],
            target,
            Some(alpha),
        ) by {
            assert(cams[i + 1] == follow_spec(cams[i], target, Some(alpha)));
        }
        lemma_follow_repeated(prefix, target, alpha);
        let k = cams.len() - 2;
        assert(cams[k + 1] == follow_spec(cams[k], target, Some(alpha)));
        lemma_lerp_between(cams[k].x as int, target.x as int, alpha as int, ALPHA_ONE as int);
        lemma_lerp_between(cams[k].y as int, target.y as int, alpha as int, ALPHA_ONE as int);
    }
}

/// Distance between `a` and `b`.
pub open spec fn gap(a: int, b: int) -> int {
    if a <= b {
        b - a
    } else {
        a - b
    }
}

proof fn lemma_power_nonneg(b: int, n: nat)
    requires
        0 <= b,
    ensures
        0 <= power(b, n),
    decreases n,
{
    if n > 0 {
        lemma_power_nonneg(b, (n - 1) as nat);
        assert(0 <= b * power(b, (n - 1) as nat)) by (nonlinear_arith)
            requires
                0 <= b,
                0 <= power(b, (n - 1) as nat),
        ;
    }
}

proof fn lemma_follow_side(c: int, t: int, alpha: int, n: nat)
    requires
        0 <= alpha <= ALPHA_ONE,
    ensures
        c <= t ==> c <= follow_iter(c, t, alpha, n) <= t,
        t < c ==> t <= follow_iter(c, t, alpha, n) <= c,
    decreases n,
{
    if n > 0 {
        lemma_follow_side(c, t, alpha, (n - 1) as nat);
        lemma_lerp_between(follow_iter(c, t, alpha, (n - 1) as nat), t, alpha, ALPHA_ONE as int);
    }
}

proof fn lemma_gap_step(e: int, alpha: int, e2: int)
    requires
        0 <= alpha <= ALPHA_ONE,
        0 <= e,
        e2 == e - e * alpha / (ALPHA_ONE as int),
    ensures
        (ALPHA_ONE - alpha) * e <= ALPHA_ONE * e2 < (ALPHA_ONE - alpha) * e + ALPHA_ONE,
{
    let d = ALPHA_ONE as int;
    let q = e * alpha / d;
    let r = e * alpha % d;
    assert(e * alpha == d * q + r && 0 <= r < d) by {
        vstd::arithmetic::div_mod::lemma_fundamental_div_mod(e * alpha, d);
    }
    assert(d * e2 == d * e - d * q) by (nonlinear_arith)
        requires
            e2 == e - q,
    ;
    assert((d - alpha) * e == d * e - e * alpha) by (nonlinear_arith);
}

/// Smoothed following closes the gap geometrically: after `n` ticks the
/// distance to the target is `gap_0 * (1 - alpha)^n`, up to the rounding of
/// at most one unit per tick, and the camera never overshoots. Scaled by
/// `ALPHA_ONE^n`, the distance lies between `(ALPHA_ONE - alpha)^n * gap_0`
/// and that plus `n * ALPHA_ONE^n`.
pub proof fn lemma_follow_converges(c: int, t: int, alpha: int, n: nat)
    requires
        0 <= alpha <= ALPHA_ONE,
    ensures
        power(ALPHA_ONE - alpha, n) * gap(c, t) <= power(ALPHA_ONE as int, n) * gap(
            follow_iter(c, t, alpha, n),
            t,
        ),
        power(ALPHA_ONE as int, n) * gap(follow_iter(c, t, alpha, n), t) <= power(
            ALPHA_ONE - alpha,
            n,
        ) * gap(c, t) + n * power(ALPHA_ONE as int, n),
        c <= t ==> follow_iter(c, t, alpha, n) <= t,
        t <= c ==> t <= follow_iter(c, t, alpha, n),
    decreases n,
{
    lemma_follow_side(c, t, alpha, n);
    if n > 0 {
        let m = (n - 1) as nat;
        let d = ALPHA_ONE as int;
        let b = d - alpha;
        lemma_follow_converges(c, t, alpha, m);
        lemma_follow_side(c, t, alpha, m);
        let prev = follow_iter(c, t, alpha, m);
        let e = gap(prev, t);
        let e2 = gap(follow_iter(c, t, alpha, n), t);
        assert(follow_iter(c, t, alpha, n) == lerp_spec(prev, t, alpha, d));
        lemma_lerp_between(prev, t, alpha, d);
        if prev <= t {
            assert(e2 == e - e * alpha / d);
        } else {
            assert(e2 == e - e * alpha / d);
        }
        lemma_gap_step(e, alpha, e2);
        let p = power(b, m);
        let q = power(d, m);
        let g0 = gap(c, t);
        lemma_power_nonneg(b, m);
        lemma_power_nonneg(d, m);
        assert(b * p * g0 <= d * q * e2) by (nonlinear_arith)
            requires
                p * g0 <= q * e,
                b * e <= d * e2,
                0 <= b,
                0 <= q,
        ;
        assert(d * q * e2 <= b * p * g0 + n * (d * q)) by (nonlinear_arith)
            requires
                q * e <= p * g0 + m * q,
                d * e2 < b * e + d,
                0 <= b <= d,
                0 <= q,
                n == m + 1,
        ;
    }
}

} // verus!
