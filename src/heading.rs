use vstd::prelude::*;

verus! {

/// Direction of travel, one of the four unit vectors on the screen (y grows downwards).
#[derive(Clone, Copy, Debug, PartialEq, Eq, Structural)]
pub enum Heading {
    Up,
    Down,
    Left,
    Right,
}

impl Heading {
    pub open spec fn spec_dx(self) -> int {
        match self {
            Heading::Left => -1,
            Heading::Right => 1,
            _ => 0,
        }
    }

    pub open spec fn spec_dy(self) -> int {
        match self {
            Heading::Up => -1,
            Heading::Down => 1,
            _ => 0,
        }
    }

    /// The heading that points the other way.
    pub open spec fn opposite(self) -> Heading {
        match self {
            Heading::Up => Heading::Down,
            Heading::Down => Heading::Up,
            Heading::Left => Heading::Right,
            Heading::Right => Heading::Left,
        }
    }

    /// Horizontal component of the unit vector.
    pub fn dx(&self) -> (r: i32)
        ensures
            r == self.spec_dx(),
    {
        match self {
            Heading::Left => -1,
            Heading::Right => 1,
            _ => 0,
        }
    }

    /// Vertical component of the unit vector.
    pub fn dy(&self) -> (r: i32)
        ensures
            r == self.spec_dy(),
    {
        match self {
            Heading::Up => -1,
            Heading::Down => 1,
            _ => 0,
        }
    }
}

/// The heading after one tick's keys, each key tried in turn against the
/// heading that the keys before it left:
/// Up unless heading down; Down unless heading up or while a horizontal key is
/// held; Left unless heading right or while Up is held; Right unless heading
/// left or while Up is held.
pub open spec fn resolved_heading(h: Heading, up: bool, down: bool, left: bool, right: bool) -> Heading {
    let after_up = if up && h != Heading::Down {
        Heading::Up
    } else {
        h
    };
    let after_down = if down && after_up != Heading::Up && !(right || left) {
        Heading::Down
    } else {
        after_up
    };
    let after_left = if left && after_down != Heading::Right && !up {
        Heading::Left
    } else {
        after_down
    };
    if right && after_left != Heading::Left && !up {
        Heading::Right
    } else {
        after_left
    }
}

/// The heading that the pressed direction keys select, starting from `h`.
pub fn resolve_heading(h: Heading, up: bool, down: bool, left: bool, right: bool) -> (r: Heading)
    ensures
        r == resolved_heading(h, up, down, left, right),
{
    let mut dir = h;
    if up && dir != Heading::Down {
        dir = Heading::Up;
    }
    if down && dir != Heading::Up && !(right || left) {
        dir = Heading::Down;
    }
    if left && dir != Heading::Right && !up {
        dir = Heading::Left;
    }
    if right && dir != Heading::Left && !up {
        dir = Heading::Right;
    }
    dir
}

/// No choice of keys turns the snake straight back in one tick.
pub proof fn lemma_no_reversal(h: Heading, up: bool, down: bool, left: bool, right: bool)
    ensures
        resolved_heading(h, up, down, left, right) != h.opposite(),
{
}

/// With no key held the heading stays as it was.
pub proof fn lemma_no_keys_keep_heading(h: Heading)
    ensures
        resolved_heading(h, false, false, false, false) == h,
{
}

} // verus!
