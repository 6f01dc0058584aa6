//! The player entity and the two per-frame systems that drive it: keyboard
//! movement and rotation towards the mouse cursor.
//!
//! Rotation is represented by the direction the forward (`+Y`) axis points
//! after the rotation is applied: the identity rotation is `(0, 1)`, and
//! rotating the player to face the cursor stores the (un-normalized)
//! displacement from player to cursor as the new facing vector.  Two facing
//! vectors describe the same rotation exactly when they point the same way,
//! which [`same_direction`] captures.

use vstd::prelude::*;

use crate::scalar::{
    qv_add, qv_eq, qv_half, qv_in_range, qv_int, qv_mul, qv_one, qv_sub, qv_wf, qv_zero, Qv, Scalar,
};
use crate::vec2::{
    lemma_nonzero_self_direction, qv2_is_zero, qv2_norm_sq, qv2_scale, qv2_sub, qv2_wf,
    same_direction, Qv2, Vec2,
};

verus! {

/// Marks an entity as the player.
#[derive(Clone, Copy, Debug, PartialEq, Eq, Structural)]
pub struct PlayerCharacter;

/// Movement speed in world units per second, fixed at spawn time.
#[derive(Clone, Copy, Debug, PartialEq, Eq, Structural)]
pub struct Speed(pub Scalar);

/// Which of the four directional keys are currently held.
#[derive(Clone, Copy, Debug, PartialEq, Eq, Structural)]
pub struct DirectionKeys {
    pub left: bool,
    pub right: bool,
    pub down: bool,
    pub up: bool,
}

/// The player's visual parts: a square root sprite and a small pointer sprite
/// offset along the forward axis (and slightly towards the camera, so it
/// renders above the root).  Purely rendering data; it never changes.
#[derive(Clone, Copy, Debug, PartialEq, Eq, Structural)]
pub struct VisualRig {
    pub root_width: i64,
    pub root_height: i64,
    pub pointer_width: i64,
    pub pointer_height: i64,
    pub pointer_forward_offset: i64,
    pub pointer_depth_offset: i64,
}

/// The player entity: tag, fixed speed, and the transform the two per-frame
/// systems mutate (position and facing).
#[derive(Clone, Copy, Debug, PartialEq, Eq, Structural)]
pub struct Player {
    pub tag: PlayerCharacter,
    pub speed: Speed,
    pub position: Vec2,
    pub facing: Vec2,
    pub visual: VisualRig,
}

impl Player {
    /// Denominators are positive and the facing vector, being a direction,
    /// is never the zero vector.
    pub open spec fn wf(self) -> bool {
        &&& self.speed.0.wf()
        &&& self.position.wf()
        &&& self.facing.wf()
        &&& !qv2_is_zero(self.facing@)
    }
}

/// A per-frame snapshot of the primary window: its dimensions and the cursor
/// position in screen coordinates, if the cursor is available.
#[derive(Clone, Copy, Debug)]
pub struct WindowSnapshot {
    pub width: Scalar,
    pub height: Scalar,
    pub cursor: Option<Vec2>,
}

impl WindowSnapshot {
    pub open spec fn wf(self) -> bool {
        &&& self.width.wf()
        &&& self.height.wf()
        &&& (self.cursor matches Some(c) ==> c.wf())
    }
}

/// Creates the player: at the origin, facing forward (`+Y`), with speed 250,
/// a 16 by 16 root sprite and a 4 by 8 pointer sprite placed 12 units along
/// the forward axis, one depth unit above the root.
pub fn spawn_player() -> (p: Player)
    ensures
        p.wf(),
        p.position@.x == qv_zero(),
        p.position@.y == qv_zero(),
        p.facing@.x == qv_zero(),
        p.facing@.y == qv_one(),
        p.speed.0@ == qv_int(250),
        p.visual == (VisualRig {
            root_width: 16,
            root_height: 16,
            pointer_width: 4,
            pointer_height: 8,
            pointer_forward_offset: 12,
            pointer_depth_offset: 1,
        }),
{
    Player {
        tag: PlayerCharacter,
        speed: Speed(Scalar::from_int(250)),
        position: Vec2::zero(),
        facing: Vec2::new(Scalar::zero(), Scalar::from_int(1)),
        visual: VisualRig {
            root_width: 16,
            root_height: 16,
            pointer_width: 4,
            pointer_height: 8,
            pointer_forward_offset: 12,
            pointer_depth_offset: 1,
        },
    }
}

/// Net horizontal key direction: `right` minus `left`.
pub open spec fn net_x(keys: DirectionKeys) -> int {
    (if keys.right { 1int } else { 0int }) - (if keys.left { 1int } else { 0int })
}

/// Net vertical key direction: `up` minus `down`.
pub open spec fn net_y(keys: DirectionKeys) -> int {
    (if keys.up { 1int } else { 0int }) - (if keys.down { 1int } else { 0int })
}

/// The held keys turned into a direction of unit length (or the zero vector
/// when no net direction remains): a single-axis direction is used as is, a
/// diagonal one is divided by `sqrt(2)`, that is, multiplied by `sqrt(2)/2`.
pub open spec fn unit_dir(keys: DirectionKeys) -> Qv2 {
    let nx: int = net_x(keys);
    let ny: int = net_y(keys);
    if nx == 0 && ny == 0 {
        Qv2 { x: qv_zero(), y: qv_zero() }
    } else if nx == 0 || ny == 0 {
        Qv2 { x: qv_int(nx), y: qv_int(ny) }
    } else {
        Qv2 { x: Qv { a: 0, b: nx, d: 2 }, y: Qv { a: 0, b: ny, d: 2 } }
    }
}

/// What one frame of movement adds to the position:
/// `speed * elapsed * unit_dir(keys)`.
pub open spec fn displacement(speed: Qv, elapsed: Qv, keys: DirectionKeys) -> Qv2 {
    qv2_scale(qv_mul(speed, elapsed), unit_dir(keys))
}

/// The arithmetic of one movement frame stays within the machine integers.
pub open spec fn move_fits(p: Player, keys: DirectionKeys, elapsed: Qv) -> bool {
    let sd: Qv = qv_mul(p.speed.0@, elapsed);
    let u: Qv2 = unit_dir(keys);
    &&& qv_in_range(sd)
    &&& qv_in_range(qv_mul(sd, u.x))
    &&& qv_in_range(qv_mul(sd, u.y))
    &&& qv_in_range(qv_add(p.position@.x, qv_mul(sd, u.x)))
    &&& qv_in_range(qv_add(p.position@.y, qv_mul(sd, u.y)))
}

/// The held keys turned into an executable direction vector; exactly the
/// vector [`unit_dir`] describes.
pub fn unit_direction(keys: &DirectionKeys) -> (r: Vec2)
    ensures
        r@ == unit_dir(*keys),
        r.wf(),
{
    let nx: i64 = (if keys.right { 1 } else { 0 }) - (if keys.left { 1 } else { 0 });
    let ny: i64 = (if keys.up { 1 } else { 0 }) - (if keys.down { 1 } else { 0 });
    if nx == 0 && ny == 0 {
        Vec2 { x: Scalar::zero(), y: Scalar::zero() }
    } else if nx == 0 || ny == 0 {
        Vec2 { x: Scalar { a: nx, b: 0, d: 1 }, y: Scalar { a: ny, b: 0, d: 1 } }
    } else {
        Vec2 { x: Scalar { a: 0, b: nx, d: 2 }, y: Scalar { a: 0, b: ny, d: 2 } }
    }
}

/// One frame of the movement system: the position advances by
/// `speed * elapsed` along the unit direction of the held keys; speed,
/// facing and visuals are untouched.  With no keys held, or opposite keys
/// cancelling, the displacement is the zero vector.
pub fn move_player(player: &mut Player, keys: &DirectionKeys, elapsed: &Scalar)
    requires
        old(player).wf(),
        elapsed.wf(),
        move_fits(*old(player), *keys, elapsed@),
    ensures
        final(player).wf(),
        final(player).position@.x == qv_add(
            old(player).position@.x,
            displacement(old(player).speed.0@, elapsed@, *keys).x,
        ),
        final(player).position@.y == qv_add(
            old(player).position@.y,
            displacement(old(player).speed.0@, elapsed@, *keys).y,
        ),
        final(player).facing == old(player).facing,
        final(player).speed == old(player).speed,
        final(player).visual == old(player).visual,
{
    let u = unit_direction(keys);
    let sd = player.speed.0.mul(elapsed);
    let disp = u.scale(&sd);
    let moved = player.position.add(&disp);
    player.position = moved;
}

/// The cursor position moved from screen coordinates to world coordinates:
/// the camera is centred on the origin, so half the window size is
/// subtracted from each coordinate.
pub open spec fn world_cursor(width: Qv, height: Qv, cursor: Qv2) -> Qv2 {
    Qv2 { x: qv_sub(cursor.x, qv_half(width)), y: qv_sub(cursor.y, qv_half(height)) }
}

/// The displacement from the player to the cursor's world position.
pub open spec fn cursor_displacement(p: Player, width: Qv, height: Qv, cursor: Qv2) -> Qv2 {
    qv2_sub(world_cursor(width, height, cursor), p.position@)
}

/// The arithmetic of one cursor-tracking frame stays within the machine
/// integers.
pub open spec fn track_fits(p: Player, w: WindowSnapshot) -> bool {
    w.cursor matches Some(c) ==> {
        let wx: Qv = qv_sub(c@.x, qv_half(w.width@));
        let wy: Qv = qv_sub(c@.y, qv_half(w.height@));
        &&& qv_in_range(qv_half(w.width@))
        &&& qv_in_range(qv_half(w.height@))
        &&& qv_in_range(wx)
        &&& qv_in_range(wy)
        &&& qv_in_range(qv_sub(wx, p.position@.x))
        &&& qv_in_range(qv_sub(wy, p.position@.y))
    }
}

/// Screen-to-world conversion of the cursor position; exactly the vector
/// [`world_cursor`] describes.
pub fn cursor_world_position(width: &Scalar, height: &Scalar, cursor: &Vec2) -> (r: Vec2)
    requires
        width.wf(),
        height.wf(),
        cursor.wf(),
        qv_in_range(qv_half(width@)),
        qv_in_range(qv_half(height@)),
        qv_in_range(qv_sub(cursor@.x, qv_half(width@))),
        qv_in_range(qv_sub(cursor@.y, qv_half(height@))),
    ensures
        r@ == world_cursor(width@, height@, cursor@),
        r.wf(),
{
    let hw = width.half();
    let hh = height.half();
    Vec2 { x: cursor.x.sub(&hw), y: cursor.y.sub(&hh) }
}

/// One frame of the cursor-tracking system.  Without a window or a cursor
/// position the player is untouched; so it is when the cursor sits exactly on
/// the player.  Otherwise the facing becomes the displacement from player to
/// world cursor, and position, speed and visuals are untouched.
pub fn track_mouse_cursor(player: &mut Player, window: Option<&WindowSnapshot>)
    requires
        old(player).wf(),
        window matches Some(w) ==> w.wf() && track_fits(*old(player), *w),
    ensures
        final(player).wf(),
        window is None ==> *final(player) == *old(player),
        window matches Some(w) ==> match w.cursor {
            None => *final(player) == *old(player),
            Some(c) => {
                let disp = cursor_displacement(*old(player), w.width@, w.height@, c@);
                &&& (qv2_is_zero(disp) ==> *final(player) == *old(player))
                &&& (!qv2_is_zero(disp) ==> {
                    &&& final(player).facing@ == disp
                    &&& final(player).position == old(player).position
                    &&& final(player).speed == old(player).speed
                    &&& final(player).visual == old(player).visual
                })
            },
        },
{
    match window {
        None => {},
        Some(w) => {
            match &w.cursor {
                None => {},
                Some(c) => {
                    let world = cursor_world_position(&w.width, &w.height, c);
                    let disp = world.sub(&player.position);
                    if !disp.is_zero() {
                        player.facing = disp;
                    }
                },
            }
        },
    }
}

/// Law: the movement direction really is normalized.  Its squared length is
/// zero when no keys are held or opposite keys cancel, and one as soon as a
/// net direction remains, diagonals included.
pub proof fn lemma_unit_direction_normalized(keys: DirectionKeys)
    ensures
        net_x(keys) == 0 && net_y(keys) == 0 ==> qv_eq(qv2_norm_sq(unit_dir(keys)), qv_zero()),
        !(net_x(keys) == 0 && net_y(keys) == 0) ==> qv_eq(qv2_norm_sq(unit_dir(keys)), qv_one()),
{
    let nx: int = net_x(keys);
    let ny: int = net_y(keys);
    assert(nx == -1 || nx == 0 || nx == 1);
    assert(ny == -1 || ny == 0 || ny == 1);
    let dp: Qv = qv2_norm_sq(unit_dir(keys));
    if nx == 0 && ny == 0 {
        assert(dp.a == 0 && dp.b == 0 && dp.d == 1) by (nonlinear_arith)
            requires
                dp.a == (0 * 0 + 2 * (0 * 0)) * (1 * 1) + (0 * 0 + 2 * (0 * 0)) * (1 * 1),
                dp.b == (0 * 0 + 0 * 0) * (1 * 1) + (0 * 0 + 0 * 0) * (1 * 1),
                dp.d == (1 * 1) * (1 * 1),
        ;
        assert(dp.a * 1 == 0 * dp.d && dp.b * 1 == 0 * dp.d) by (nonlinear_arith)
            requires
                dp.a == 0 && dp.b == 0 && dp.d == 1,
        ;
        assert(qv_eq(dp, qv_zero()));
    } else if nx == 0 || ny == 0 {
        assert(dp.a == 1 && dp.b == 0 && dp.d == 1) by (nonlinear_arith)
            requires
                nx == 0 && (ny == 1 || ny == -1) || ny == 0 && (nx == 1 || nx == -1),
                dp.a == (nx * nx + 2 * (0 * 0)) * (1 * 1) + (ny * ny + 2 * (0 * 0)) * (1 * 1),
                dp.b == (nx * 0 + 0 * nx) * (1 * 1) + (ny * 0 + 0 * ny) * (1 * 1),
                dp.d == (1 * 1) * (1 * 1),
        ;
        assert(dp.a * 1 == 1 * dp.d && dp.b * 1 == 0 * dp.d) by (nonlinear_arith)
            requires
                dp.a == 1 && dp.b == 0 && dp.d == 1,
        ;
        assert(qv_eq(dp, qv_one()));
    } else {
        assert(dp.a == 16 && dp.b == 0 && dp.d == 16) by (nonlinear_arith)
            requires
                (nx == 1 || nx == -1) && (ny == 1 || ny == -1),
                dp.a == (0 * 0 + 2 * (nx * nx)) * (2 * 2) + (0 * 0 + 2 * (ny * ny)) * (2 * 2),
                dp.b == (0 * nx + nx * 0) * (2 * 2) + (0 * ny + ny * 0) * (2 * 2),
                dp.d == (2 * 2) * (2 * 2),
        ;
        assert(dp.a * 1 == 1 * dp.d && dp.b * 1 == 0 * dp.d) by (nonlinear_arith)
            requires
                dp.a == 16 && dp.b == 0 && dp.d == 16,
        ;
        assert(qv_eq(dp, qv_one()));
    }
}

proof fn lemma_mul_x_2y(x: int, y: int)
    by (nonlinear_arith)
    ensures
        x * (2 * y) == 2 * (x * y),
        (2 * x) * y == 2 * (x * y),
{
}

/// Doubling a value doubles both numerators of the triple.
proof fn lemma_qv_double(x: Qv)
    ensures
        qv_mul(qv_int(2), x) == (Qv { a: 2 * x.a, b: 2 * x.b, d: x.d }),
{
}

/// Doubling the right factor doubles the product's numerators.
proof fn lemma_qv_mul_double_right(x: Qv, y: Qv)
    ensures
        qv_mul(x, Qv { a: 2 * y.a, b: 2 * y.b, d: y.d }) == (Qv {
            a: 2 * qv_mul(x, y).a,
            b: 2 * qv_mul(x, y).b,
            d: qv_mul(x, y).d,
        }),
{
    lemma_mul_x_2y(x.a, y.a);
    lemma_mul_x_2y(x.b, y.b);
    lemma_mul_x_2y(x.a, y.b);
    lemma_mul_x_2y(x.b, y.a);
}

/// Doubling the left factor doubles the product's numerators.
proof fn lemma_qv_mul_double_left(x: Qv, y: Qv)
    ensures
        qv_mul(Qv { a: 2 * x.a, b: 2 * x.b, d: x.d }, y) == (Qv {
            a: 2 * qv_mul(x, y).a,
            b: 2 * qv_mul(x, y).b,
            d: qv_mul(x, y).d,
        }),
{
    lemma_mul_x_2y(x.a, y.a);
    lemma_mul_x_2y(x.b, y.b);
    lemma_mul_x_2y(x.a, y.b);
    lemma_mul_x_2y(x.b, y.a);
}

/// Law: the position update scales linearly with elapsed time.  Doubling the
/// elapsed time doubles the frame's displacement, for any fixed speed and key
/// combination; the two vectors are even equal triple for triple.
pub proof fn lemma_displacement_time_linear(speed: Qv, elapsed: Qv, keys: DirectionKeys)
    ensures
        displacement(speed, qv_mul(qv_int(2), elapsed), keys) == qv2_scale(
            qv_int(2),
            displacement(speed, elapsed, keys),
        ),
{
    let u: Qv2 = unit_dir(keys);
    let sd: Qv = qv_mul(speed, elapsed);
    lemma_qv_double(elapsed);
    lemma_qv_mul_double_right(speed, elapsed);
    lemma_qv_mul_double_left(sd, u.x);
    lemma_qv_mul_double_left(sd, u.y);
    lemma_qv_double(qv_mul(sd, u.x));
    lemma_qv_double(qv_mul(sd, u.y));
}

proof fn lemma_den_pos(d1: int, d2: int)
    by (nonlinear_arith)
    requires
        d1 >= 1,
        d2 >= 1,
    ensures
        d1 * d2 >= 1,
{
}

/// Law: after a tracking frame with an obtainable cursor whose displacement
/// from the player is non-zero, the rotation points the forward axis exactly
/// at the cursor: the new facing (which [`track_mouse_cursor`] guarantees to
/// be that displacement) and the displacement point the same way.
pub proof fn lemma_tracking_faces_cursor(
    before: Player,
    after: Player,
    width: Qv,
    height: Qv,
    cursor: Qv2,
)
    requires
        before.wf(),
        qv_wf(width),
        qv_wf(height),
        qv2_wf(cursor),
        !qv2_is_zero(cursor_displacement(before, width, height, cursor)),
        after.facing@ == cursor_displacement(before, width, height, cursor),
    ensures
        same_direction(after.facing@, cursor_displacement(before, width, height, cursor)),
{
    let disp: Qv2 = cursor_displacement(before, width, height, cursor);
    lemma_den_pos(cursor.x.d, 2 * width.d);
    lemma_den_pos(cursor.y.d, 2 * height.d);
    lemma_den_pos(cursor.x.d * (2 * width.d), before.position@.x.d);
    lemma_den_pos(cursor.y.d * (2 * height.d), before.position@.y.d);
    assert(qv2_wf(disp));
    lemma_nonzero_self_direction(disp);
}

} // verus!

