use vstd::prelude::*;

verus! {

/// Where the player steers the launcher.
#[derive(Clone, Copy, Debug, PartialEq, Eq, Structural)]
pub enum MovementDirection {
    Left,
    Right,
    Neither,
}

/// A move in the inventory.
#[derive(Clone, Copy, Debug, PartialEq, Eq, Structural)]
pub enum InventoryNavigation {
    Up,
    Down,
    Neither,
}

/// Decisions taken from the state of the buttons.
pub struct InputHandler;

impl InputHandler {
    /// One of left and right held steers that way; both or none do nothing.
    pub fn get_movement_direction(left: bool, right: bool) -> (r: MovementDirection)
        ensures
            r == (if left && !right {
                MovementDirection::Left
            } else if right && !left {
                MovementDirection::Right
            } else {
                MovementDirection::Neither
            }),
    {
        match (left, right) {
            (true, false) => MovementDirection::Left,
            (false, true) => MovementDirection::Right,
            _ => MovementDirection::Neither,
        }
    }

    /// A press of up moves up, else a press of down moves down.
    pub fn get_inventory_navigation(up_pressed: bool, down_pressed: bool) -> (r: InventoryNavigation)
        ensures
            r == (if up_pressed {
                InventoryNavigation::Up
            } else if down_pressed {
                InventoryNavigation::Down
            } else {
                InventoryNavigation::Neither
            }),
    {
        if up_pressed {
            InventoryNavigation::Up
        } else if down_pressed {
            InventoryNavigation::Down
        } else {
            InventoryNavigation::Neither
        }
    }
}

} // verus!
