use vstd::prelude::*;

verus! {

/// Whether the round is still being played.
#[derive(Clone, Copy, Debug, PartialEq, Eq, Structural)]
pub enum RunState {
    Running,
    Ended,
}

/// The physical variants of trash, each with its own collider size.
#[derive(Clone, Copy, Debug, PartialEq, Eq, Structural)]
pub enum TrashType {
    Bottle,
    Pizza,
    BigBox,
    GlassBottle,
    News,
    Shampoo,
    SmallCan,
    Soda,
    Spray,
}

/// A special behaviour that fires once the trash's word has been typed.
#[derive(Clone, Copy, Debug, PartialEq, Eq, Structural)]
pub enum PowerUp {
    Nothing,
    Explosion,
    Link,
}

/// What a collision of an activated trash with a power-up set off.
#[derive(Clone, Copy, Debug, PartialEq, Eq, Structural)]
pub enum PowerUpEvent {
    Nothing,
    /// A blast was spawned; the trash leaves through the blast, not the
    /// ordinary text removal.
    EntityDestroyed,
    /// Linked trash should go; nothing consumes this yet.
    DestroyLinked,
}

/// Half extents of a collider box, in world units.
#[derive(Clone, Copy, Debug, PartialEq, Eq, Structural)]
pub struct Extent {
    pub x: u32,
    pub y: u32,
}

/// The data of one falling object.
#[derive(Clone, Copy, Debug, PartialEq, Eq, Structural)]
pub struct Trash {
    pub trash_type: TrashType,
    pub power_up: PowerUp,
    pub size: Extent,
    pub activated: bool,
}

/// The collider half extents of each kind of trash.
pub open spec fn size_of(t: TrashType) -> Extent {
    match t {
        TrashType::Bottle => Extent { x: 15, y: 16 },
        TrashType::Pizza => Extent { x: 32, y: 16 },
        TrashType::BigBox => Extent { x: 25, y: 24 },
        TrashType::GlassBottle => Extent { x: 8, y: 25 },
        TrashType::News => Extent { x: 26, y: 16 },
        TrashType::Shampoo => Extent { x: 17, y: 22 },
        TrashType::SmallCan => Extent { x: 11, y: 15 },
        TrashType::Soda => Extent { x: 9, y: 17 },
        TrashType::Spray => Extent { x: 8, y: 20 },
    }
}

/// A fresh trash of the given kind: its size, no power-up, not activated.
pub open spec fn fresh_trash(t: TrashType) -> Trash {
    Trash { trash_type: t, power_up: PowerUp::Nothing, size: size_of(t), activated: false }
}

/// The kinds in the order in which a uniform draw picks them.
pub open spec fn trash_type_at(i: int) -> TrashType {
    if i == 0 {
        TrashType::Bottle
    } else if i == 1 {
        TrashType::Pizza
    } else if i == 2 {
        TrashType::BigBox
    } else if i == 3 {
        TrashType::GlassBottle
    } else if i == 4 {
        TrashType::News
    } else if i == 5 {
        TrashType::Shampoo
    } else if i == 6 {
        TrashType::SmallCan
    } else if i == 7 {
        TrashType::Soda
    } else {
        TrashType::Spray
    }
}

/// Number of kinds of trash.
pub const TRASH_TYPE_COUNT: usize = 9;

/// A power-up draw falls in `0..POWER_UP_DRAWS`; only the last value gives
/// an explosion.
pub const POWER_UP_DRAWS: usize = 10;

pub open spec fn power_up_at(i: int) -> PowerUp {
    if i == POWER_UP_DRAWS - 1 {
        PowerUp::Explosion
    } else {
        PowerUp::Nothing
    }
}

/// The kind picked by a draw in `0..TRASH_TYPE_COUNT`.
pub fn trash_type_from_draw(i: usize) -> (r: TrashType)
    requires
        i < TRASH_TYPE_COUNT,
    ensures
        r == trash_type_at(i as int),
{
    if i == 0 {
        TrashType::Bottle
    } else if i == 1 {
        TrashType::Pizza
    } else if i == 2 {
        TrashType::BigBox
    } else if i == 3 {
        TrashType::GlassBottle
    } else if i == 4 {
        TrashType::News
    } else if i == 5 {
        TrashType::Shampoo
    } else if i == 6 {
        TrashType::SmallCan
    } else if i == 7 {
        TrashType::Soda
    } else {
        TrashType::Spray
    }
}

/// The power-up picked by a draw in `0..POWER_UP_DRAWS`.
pub fn power_up_from_draw(i: usize) -> (r: PowerUp)
    requires
        i < POWER_UP_DRAWS,
    ensures
        r == power_up_at(i as int),
{
    if i == POWER_UP_DRAWS - 1 {
        PowerUp::Explosion
    } else {
        PowerUp::Nothing
    }
}

impl Default for TrashType {
    fn default() -> (r: Self)
        ensures
            r == TrashType::Bottle,
    {
        TrashType::Bottle
    }
}

impl Default for PowerUp {
    fn default() -> (r: Self)
        ensures
            r == PowerUp::Nothing,
    {
        PowerUp::Nothing
    }
}

impl Default for Trash {
    fn default() -> (r: Self)
        ensures
            r == fresh_trash(TrashType::Bottle),
    {
        Self::bottle()
    }
}

impl Trash {
    /// A fresh trash of the given kind.
    pub fn get_by_type(trash_type: TrashType) -> (r: Self)
        ensures
            r == fresh_trash(trash_type),
    {
        match trash_type {
            TrashType::Bottle => Self::bottle(),
            TrashType::Pizza => Self::pizza(),
            TrashType::News => Self::news(),
            TrashType::Shampoo => Self::shampoo(),
            TrashType::SmallCan => Self::small_can(),
            TrashType::Soda => Self::soda(),
            TrashType::Spray => Self::spray(),
            TrashType::BigBox => Self::big_box(),
            TrashType::GlassBottle => Self::glass_bottle(),
        }
    }

    pub fn bottle() -> (r: Self)
        ensures
            r == fresh_trash(TrashType::Bottle),
    {
        Trash {
            trash_type: TrashType::Bottle,
            size: Extent { x: 15, y: 16 },
            power_up: PowerUp::Nothing,
            activated: false,
        }
    }

    pub fn pizza() -> (r: Self)
        ensures
            r == fresh_trash(TrashType::Pizza),
    {
        Trash {
            trash_type: TrashType::Pizza,
            size: Extent { x: 32, y: 16 },
            power_up: PowerUp::Nothing,
            activated: false,
        }
    }

    pub fn big_box() -> (r: Self)
        ensures
            r == fresh_trash(TrashType::BigBox),
    {
        Trash {
            trash_type: TrashType::BigBox,
            size: Extent { x: 25, y: 24 },
            power_up: PowerUp::Nothing,
            activated: false,
        }
    }

    pub fn glass_bottle() -> (r: Self)
        ensures
            r == fresh_trash(TrashType::GlassBottle),
    {
        Trash {
            trash_type: TrashType::GlassBottle,
            size: Extent { x: 8, y: 25 },
            power_up: PowerUp::Nothing,
            activated: false,
        }
    }

    pub fn news() -> (r: Self)
        ensures
            r == fresh_trash(TrashType::News),
    {
        Trash {
            trash_type: TrashType::News,
            size: Extent { x: 26, y: 16 },
            power_up: PowerUp::Nothing,
            activated: false,
        }
    }

    pub fn shampoo() -> (r: Self)
        ensures
            r == fresh_trash(TrashType::Shampoo),
    {
        Trash {
            trash_type: TrashType::Shampoo,
            size: Extent { x: 17, y: 22 },
            power_up: PowerUp::Nothing,
            activated: false,
        }
    }

    pub fn small_can() -> (r: Self)
        ensures
            r == fresh_trash(TrashType::SmallCan),
    {
        Trash {
            trash_type: TrashType::SmallCan,
            size: Extent { x: 11, y: 15 },
            power_up: PowerUp::Nothing,
            activated: false,
        }
    }

    pub fn soda() -> (r: Self)
        ensures
            r == fresh_trash(TrashType::Soda),
    {
        Trash {
            trash_type: TrashType::Soda,
            size: Extent { x: 9, y: 17 },
            power_up: PowerUp::Nothing,
            activated: false,
        }
    }

    pub fn spray() -> (r: Self)
        ensures
            r == fresh_trash(TrashType::Spray),
    {
        Trash {
            trash_type: TrashType::Spray,
            size: Extent { x: 8, y: 20 },
            power_up: PowerUp::Nothing,
            activated: false,
        }
    }
}

} // verus!
