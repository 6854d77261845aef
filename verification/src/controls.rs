//! What the person at the window does to the game: the state of the pointer
//! and of the view, and how each input changes it and the live cells.

use crate::cells::{Cell, CellSet};
use crate::grid::{next_generation, next_grid_state};
use crate::pattern::{glider_offsets, spawn_glider, spawned};
use crate::rules::Conditions;
use crate::viewport::{
    grid_coord, mouse_to_grid_coords, pan, panned, to_unsigned, unsigned, zoom_size, zoom_start,
    zoomed_size, zoomed_start,
};
use vstd::prelude::*;

verus! {

/// One thing that the keyboard, the pointer or the window reports. Points
/// are given in pixels from the window's corner.
#[derive(Clone, Copy, Debug, PartialEq, Eq)]
pub enum Input {
    /// Stop the generations, or let them run again.
    TogglePause,
    /// Compute one generation now.
    Step,
    /// Show the lines between the cells, or hide them.
    ToggleGridLines,
    /// The left button went down: the plane is dragged from here.
    LeftDown { x: i32, y: i32 },
    /// The middle button went down: the cell here changes its state.
    MiddleDown { x: i32, y: i32 },
    /// The right button went down: a glider is placed here.
    RightDown { x: i32, y: i32 },
    /// The left button went up.
    LeftUp,
    /// The middle button went up.
    MiddleUp,
    /// The pointer moved to this point.
    Motion { x: i32, y: i32 },
    /// The wheel was turned by `y` notches.
    Wheel { y: i32 },
    /// The window was given this width and height.
    Resized { x: i32, y: i32 },
}

/// The state of the view and of the pointer, as plain values.
pub struct ControlsView {
    /// Width and height of the window, in pixels.
    pub res: (u32, u32),
    /// The cell that is drawn in the window's corner.
    pub start_coords: Cell,
    /// Width and height of a cell, in pixels.
    pub pixel_size: (u32, u32),
    /// Whether the lines between the cells were asked for.
    pub grid_lines: bool,
    /// Whether the left button is down.
    pub lmd_down: bool,
    /// Whether the middle button is down.
    pub mmd_down: bool,
    /// Whether the generations are stopped.
    pub pause: bool,
    /// The cell under the pointer when the left button went down.
    pub last_click_grid_cell: Cell,
}

impl ControlsView {
    /// A cell is at least one pixel wide and high, and its size is a
    /// positive `i32`.
    pub open spec fn well_sized(self) -> bool {
        &&& 1 <= self.pixel_size.0 <= i32::MAX
        &&& 1 <= self.pixel_size.1 <= i32::MAX
    }

    /// The cell that is drawn at the point `(x, y)` of the window.
    pub open spec fn pointed(self, x: i32, y: i32) -> Cell {
        (
            grid_coord(unsigned(x), self.pixel_size.0, self.start_coords.0),
            grid_coord(unsigned(y), self.pixel_size.1, self.start_coords.1),
        )
    }

    /// The state after `input`.
    pub open spec fn after(self, input: Input) -> ControlsView {
        match input {
            Input::TogglePause => ControlsView { pause: !self.pause, ..self },
            Input::Step => self,
            Input::ToggleGridLines => ControlsView { grid_lines: !self.grid_lines, ..self },
            Input::LeftDown { x, y } => ControlsView {
                lmd_down: true,
                last_click_grid_cell: self.pointed(x, y),
                ..self
            },
            Input::MiddleDown { x, y } => ControlsView { mmd_down: true, ..self },
            Input::RightDown { x, y } => self,
            Input::LeftUp => ControlsView { lmd_down: false, ..self },
            Input::MiddleUp => ControlsView { mmd_down: false, ..self },
            Input::Motion { x, y } => if self.lmd_down {
                ControlsView {
                    start_coords: (
                        panned(
                            self.start_coords.0,
                            self.last_click_grid_cell.0,
                            self.pointed(x, y).0,
                        ),
                        panned(
                            self.start_coords.1,
                            self.last_click_grid_cell.1,
                            self.pointed(x, y).1,
                        ),
                    ),
                    ..self
                }
            } else {
                self
            },
            Input::Wheel { y } => {
                let size = (zoomed_size(self.pixel_size.0, y), zoomed_size(self.pixel_size.1, y));
                ControlsView {
                    pixel_size: size,
                    start_coords: (
                        zoomed_start(self.start_coords.0, self.res.0, self.pixel_size.0, size.0),
                        zoomed_start(self.start_coords.1, self.res.1, self.pixel_size.1, size.1),
                    ),
                    ..self
                }
            },
            Input::Resized { x, y } => ControlsView { res: (unsigned(x), unsigned(y)), ..self },
        }
    }

    /// The live cells after `input`, where `live` were alive before it.
    pub open spec fn cells_after(self, input: Input, live: Set<Cell>, cond: Conditions) -> Set<
        Cell,
    > {
        match input {
            Input::Step => next_generation(live, cond),
            Input::MiddleDown { x, y } => if live.contains(self.pointed(x, y)) {
                live.remove(self.pointed(x, y))
            } else {
                live.insert(self.pointed(x, y))
            },
            Input::RightDown { x, y } => spawned(live, glider_offsets(), self.pointed(x, y)),
            Input::Motion { x, y } => if self.mmd_down {
                live.insert(self.pointed(x, y))
            } else {
                live
            },
            _ => live,
        }
    }

    /// Whether the window has to be drawn again after `input`.
    pub open spec fn changes(self, input: Input, live: Set<Cell>) -> bool {
        match input {
            Input::TogglePause => false,
            Input::LeftDown { x, y } => false,
            Input::LeftUp => false,
            Input::MiddleUp => false,
            Input::Motion { x, y } => self.lmd_down || (self.mmd_down && !live.contains(
                self.pointed(x, y),
            )),
            _ => true,
        }
    }

    /// Whether the lines between the cells are drawn: where they were asked
    /// for or a cell is more than 20 pixels wide and high, and a cell is
    /// more than one pixel wide and high.
    pub open spec fn shows_grid_lines(self) -> bool {
        (self.grid_lines || (self.pixel_size.0 > 20 && self.pixel_size.1 > 20)) && (
        self.pixel_size.0 > 1 && self.pixel_size.1 > 1)
    }
}

/// The state of the view and of the pointer.
pub struct Controls {
    res: (u32, u32),
    start_coords: Cell,
    pixel_size: (u32, u32),
    grid_lines: bool,
    lmd_down: bool,
    mmd_down: bool,
    pause: bool,
    last_click_grid_cell: Cell,
}

impl View for Controls {
    type V = ControlsView;

    closed spec fn view(&self) -> ControlsView {
        ControlsView {
            res: self.res,
            start_coords: self.start_coords,
            pixel_size: self.pixel_size,
            grid_lines: self.grid_lines,
            lmd_down: self.lmd_down,
            mmd_down: self.mmd_down,
            pause: self.pause,
            last_click_grid_cell: self.last_click_grid_cell,
        }
    }
}

impl Controls {
    #[verifier::type_invariant]
    spec fn sized(self) -> bool {
        self@.well_sized()
    }

    /// The state at the start: a window of `res` pixels with the cell
    /// `(0, 0)` in its corner, cells of three by three pixels, no lines, no
    /// button down, the generations running.
    pub fn new(res: (u32, u32)) -> (controls: Self)
        ensures
            controls@ == (ControlsView {
                res,
                start_coords: (0i32, 0i32),
                pixel_size: (3u32, 3u32),
                grid_lines: false,
                lmd_down: false,
                mmd_down: false,
                pause: false,
                last_click_grid_cell: (0i32, 0i32),
            }),
    {
        Controls {
            res,
            start_coords: (0, 0),
            pixel_size: (3, 3),
            grid_lines: false,
            lmd_down: false,
            mmd_down: false,
            pause: false,
            last_click_grid_cell: (0, 0),
        }
    }

    /// Width and height of the window, in pixels.
    pub fn res(&self) -> (res: (u32, u32))
        ensures
            res == self@.res,
    {
        self.res
    }

    /// The cell that is drawn in the window's corner.
    pub fn start_coords(&self) -> (start: Cell)
        ensures
            start == self@.start_coords,
    {
        self.start_coords
    }

    /// Width and height of a cell, in pixels: neither is 0.
    pub fn pixel_size(&self) -> (size: (u32, u32))
        ensures
            size == self@.pixel_size,
            self@.well_sized(),
    {
        proof {
            use_type_invariant(self);
        }
        self.pixel_size
    }

    /// Whether the generations are stopped.
    pub fn is_paused(&self) -> (pause: bool)
        ensures
            pause == self@.pause,
    {
        self.pause
    }

    /// Whether the lines between the cells are to be drawn.
    pub fn show_grid_lines(&self) -> (shown: bool)
        ensures
            shown == self@.shows_grid_lines(),
    {
        (self.grid_lines || (self.pixel_size.0 > 20 && self.pixel_size.1 > 20)) && (
        self.pixel_size.0 > 1 && self.pixel_size.1 > 1)
    }

    /// The cell that is drawn at the point `(x, y)` of the window.
    pub fn cell_at(&self, x: i32, y: i32) -> (cell: Cell)
        ensures
            cell == self@.pointed(x, y),
    {
        proof {
            use_type_invariant(self);
        }
        mouse_to_grid_coords((to_unsigned(x), to_unsigned(y)), self.pixel_size, self.start_coords)
    }

    /// Takes one input: changes the state and the live cells as the input
    /// asks, and tells whether the window has to be drawn again.
    pub fn handle(&mut self, input: Input, alive_cells: &mut CellSet, cond: &Conditions) -> (changed:
        bool)
        requires
            cond.is_valid(),
        ensures
            final(self)@ == old(self)@.after(input),
            final(alive_cells)@ == old(self)@.cells_after(input, old(alive_cells)@, *cond),
            changed == old(self)@.changes(input, old(alive_cells)@),
    {
        proof {
            use_type_invariant(&*self);
        }
        match input {
            Input::TogglePause => {
                self.pause = !self.pause;
                false
            },
            Input::Step => {
                let next = next_grid_state(alive_cells, cond);
                *alive_cells = next;
                true
            },
            Input::ToggleGridLines => {
                self.grid_lines = !self.grid_lines;
                true
            },
            Input::LeftDown { x, y } => {
                self.lmd_down = true;
                self.last_click_grid_cell = self.cell_at(x, y);
                false
            },
            Input::MiddleDown { x, y } => {
                self.mmd_down = true;
                alive_cells.toggle(self.cell_at(x, y));
                true
            },
            Input::RightDown { x, y } => {
                spawn_glider(self.cell_at(x, y), alive_cells);
                true
            },
            Input::LeftUp => {
                self.lmd_down = false;
                false
            },
            Input::MiddleUp => {
                self.mmd_down = false;
                false
            },
            Input::Motion { x, y } => {
                let coords = self.cell_at(x, y);
                let mut changed = false;
                if self.mmd_down {
                    if alive_cells.insert(coords) {
                        changed = true;
                    }
                }
                if self.lmd_down {
                    self.start_coords = pan(self.start_coords, self.last_click_grid_cell, coords);
                    changed = true;
                }
                changed
            },
            Input::Wheel { y } => {
                let size = (zoom_size(self.pixel_size.0, y), zoom_size(self.pixel_size.1, y));
                self.start_coords = (
                    zoom_start(self.start_coords.0, self.res.0, self.pixel_size.0, size.0),
                    zoom_start(self.start_coords.1, self.res.1, self.pixel_size.1, size.1),
                );
                self.pixel_size = size;
                true
            },
            Input::Resized { x, y } => {
                self.res = (to_unsigned(x), to_unsigned(y));
                true
            },
        }
    }

    /// Ends a round of inputs: unless the generations are stopped, computes
    /// the next one. Tells whether it did.
    pub fn tick(&self, alive_cells: &mut CellSet, cond: &Conditions) -> (changed: bool)
        requires
            cond.is_valid(),
        ensures
            changed == !self@.pause,
            final(alive_cells)@ == if self@.pause {
                old(alive_cells)@
            } else {
                next_generation(old(alive_cells)@, *cond)
            },
    {
        if !self.pause {
            let next = next_grid_state(alive_cells, cond);
            *alive_cells = next;
            true
        } else {
            false
        }
    }
}

} // verus!
