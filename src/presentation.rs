//! What the renderer is handed: the units in view and the player's sprite.
use vstd::prelude::*;
use vstd::string::StringExecFns;
use crate::world::{direction_name, Player, State, Unit, UnitMovement};

verus! {

/// A viewport of `width` by `height` pixels centred on a world pixel.
#[derive(Debug, Clone, Copy, PartialEq, Eq, Structural)]
pub struct Camera {
    pub center_x: i64,
    pub center_y: i64,
    pub width: u16,
    pub height: u16,
}

impl Camera {
    pub fn new(center_x: i64, center_y: i64, width: u16, height: u16) -> (r: Camera)
        ensures
            r == (Camera { center_x, center_y, width, height }),
    {
        Camera { center_x, center_y, width, height }
    }

    /// The pixel lies within half the viewport's size of its centre on both axes.
    pub open spec fn sees(&self, x: i64, y: i64) -> bool {
        &&& self.center_x - self.width / 2 <= x <= self.center_x + self.width / 2
        &&& self.center_y - self.height / 2 <= y <= self.center_y + self.height / 2
    }

    pub fn is_visible(&self, x: i64, y: i64) -> (r: bool)
        ensures
            r == self.sees(x, y),
    {
        let hw: i128 = self.width as i128 / 2;
        let hh: i128 = self.height as i128 / 2;
        let cx: i128 = self.center_x as i128;
        let cy: i128 = self.center_y as i128;
        cx - hw <= x as i128 && x as i128 <= cx + hw && cy - hh <= y as i128 && y as i128 <= cy + hh
    }
}

/// The units of `units` whose pixel position the camera sees, in order.
pub open spec fn seen(units: Seq<Unit>, camera: Camera) -> Seq<Unit>
    decreases units.len(),
{
    if units.len() == 0 {
        Seq::empty()
    } else {
        let prev = seen(units.drop_last(), camera);
        if camera.sees(units.last().pixel_x, units.last().pixel_y) {
            prev.push(units.last())
        } else {
            prev
        }
    }
}

/// The player followed by the boxes, keeping those the camera sees, in order.
pub fn get_visible_objects(cur_state: &State, camera: &Camera) -> (r: Vec<Unit>)
    ensures
        r@ == seen(seq![cur_state.player.unit] + cur_state.mobs@, *camera),
{
    let ghost all = seq![cur_state.player.unit] + cur_state.mobs@;
    let mut units: Vec<Unit> = Vec::new();
    let p = cur_state.player.unit;
    assert(all.take(1).drop_last() =~= all.take(0));
    assert(all.take(1).last() == p);
    assert(seen(all.take(0), *camera) =~= Seq::<Unit>::empty());
    if camera.is_visible(p.pixel_x, p.pixel_y) {
        units.push(p);
    }
    let n = cur_state.mobs.len();
    let mut k: usize = 0;
    while k < n
        invariant
            n == cur_state.mobs@.len(),
            all == seq![cur_state.player.unit] + cur_state.mobs@,
            0 <= k <= n,
            units@ == seen(all.take(k as int + 1), *camera),
        decreases n - k,
    {
        assert(all.take(k as int + 2).drop_last() =~= all.take(k as int + 1));
        let u = cur_state.mobs[k];
        assert(u == all[k as int + 1]);
        if camera.is_visible(u.pixel_x, u.pixel_y) {
            units.push(u);
        }
        k += 1;
    }
    assert(all.take(n as int + 1) =~= all);
    units
}

/// The decimal digit `d`.
pub open spec fn digit_char(d: nat) -> char {
    if d == 0 {
        '0'
    } else if d == 1 {
        '1'
    } else if d == 2 {
        '2'
    } else if d == 3 {
        '3'
    } else if d == 4 {
        '4'
    } else if d == 5 {
        '5'
    } else if d == 6 {
        '6'
    } else if d == 7 {
        '7'
    } else if d == 8 {
        '8'
    } else {
        '9'
    }
}

/// Decimal digits of `n`, most significant first, without leading zeros.
pub open spec fn decimal(n: nat) -> Seq<char>
    decreases n,
{
    if n < 10 {
        seq![digit_char(n)]
    } else {
        decimal(n / 10) + seq![digit_char(n % 10)]
    }
}

fn digit_str(d: u32) -> (r: &'static str)
    requires
        d < 10,
    ensures
        r@ == seq![digit_char(d as nat)],
{
    if d == 0 {
        proof {
            reveal_strlit("0");
            assert("0"@ =~= seq!['0']);
        }
        "0"
    } else if d == 1 {
        proof {
            reveal_strlit("1");
            assert("1"@ =~= seq!['1']);
        }
        "1"
    } else if d == 2 {
        proof {
            reveal_strlit("2");
            assert("2"@ =~= seq!['2']);
        }
        "2"
    } else if d == 3 {
        proof {
            reveal_strlit("3");
            assert("3"@ =~= seq!['3']);
        }
        "3"
    } else if d == 4 {
        proof {
            reveal_strlit("4");
            assert("4"@ =~= seq!['4']);
        }
        "4"
    } else if d == 5 {
        proof {
            reveal_strlit("5");
            assert("5"@ =~= seq!['5']);
        }
        "5"
    } else if d == 6 {
        proof {
            reveal_strlit("6");
            assert("6"@ =~= seq!['6']);
        }
        "6"
    } else if d == 7 {
        proof {
            reveal_strlit("7");
            assert("7"@ =~= seq!['7']);
        }
        "7"
    } else if d == 8 {
        proof {
            reveal_strlit("8");
            assert("8"@ =~= seq!['8']);
        }
        "8"
    } else {
        proof {
            reveal_strlit("9");
            assert("9"@ =~= seq!['9']);
        }
        "9"
    }
}

/// Appends the decimal digits of `n` to `s`.
fn push_decimal(s: &mut String, n: u32)
    ensures
        final(s)@ == old(s)@ + decimal(n as nat),
    decreases n,
{
    if n >= 10 {
        push_decimal(s, n / 10);
    }
    s.append(digit_str(n % 10));
    proof {
        if n < 10 {
            assert(n % 10 == n);
        }
    }
}

/// `"{prefix}_{dir}_{frame}"`, the frame number in decimal.
fn sprite_name(prefix: &str, dir: &str, frame: u32) -> (r: String)
    ensures
        r@ == prefix@ + "_"@ + dir@ + "_"@ + decimal(frame as nat),
{
    let mut s = String::from_str(prefix);
    s.append("_");
    s.append(dir);
    s.append("_");
    push_decimal(&mut s, frame);
    s
}

/// Animation of each movement state: sprite prefix, frame count and frame
/// period in microseconds.
pub open spec fn animation_of(m: UnitMovement) -> (Seq<char>, u32, u64) {
    match m {
        UnitMovement::Moving { .. } => ("running"@, 14, 45_000),
        UnitMovement::Pushing { .. } => ("pushing"@, 37, 25_000),
        UnitMovement::Idle => ("idle"@, 31, 45_000),
        UnitMovement::PrePushing { .. } => ("walkingforward"@, 24, 30_000),
        UnitMovement::PostPushing { .. } => ("walkingback"@, 23, 30_000),
    }
}

/// Frame shown `total_time` microseconds into an animation of `frames`
/// frames of `period` microseconds each, cycling.
pub open spec fn frame_at(total_time: u64, frames: u32, period: u64) -> nat {
    (((total_time / period) as u32) % frames) as nat
}

/// Sprite name `"{animation}_{direction}_{frame}"` of the player at
/// `total_time` microseconds of game time.
pub fn get_player_sprite(player: &Player, total_time: u64) -> (r: String)
    ensures
        ({
            let (prefix, frames, period) = animation_of(player.unit.movement);
            r@ == prefix + "_"@ + direction_name(player.unit.direction) + "_"@ + decimal(
                frame_at(total_time, frames, period),
            )
        }),
{
    let (prefix, total_frames, period): (&str, u32, u64) = match player.unit.movement {
        UnitMovement::Moving { .. } => ("running", 14, 45_000),
        UnitMovement::Pushing { .. } => ("pushing", 37, 25_000),
        UnitMovement::Idle => ("idle", 31, 45_000),
        UnitMovement::PrePushing { .. } => ("walkingforward", 24, 30_000),
        UnitMovement::PostPushing { .. } => ("walkingback", 23, 30_000),
    };
    let dir_suffix = player.unit.direction.as_str();
    let cycles = (total_time / period) as u32;
    let frame_idx = cycles % total_frames;
    sprite_name(prefix, dir_suffix, frame_idx)
}

} // verus!
