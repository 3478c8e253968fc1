//! Plain 2D game components: body kinds, key bindings, tile grids,
//! triggers and tags.

use vstd::prelude::*;
use crate::text::owned;
use crate::lines::{text_lines, trimmed, trim_str, chars_of, split_lines};

verus! {

broadcast use vstd::string::group_string_axioms;

/// Data that can be attached to an entity: any value that can be shared
/// across threads.
pub trait Component: Send + Sync + 'static {}

impl<T: Send + Sync + 'static> Component for T {}

/// How a rigid body moves.
#[derive(Debug, Clone, Copy, PartialEq, Eq, Structural)]
pub enum BodyType {
    Dynamic,
    Kinematic,
    Static,
}

/// Key names bound to movement and jumping.
#[derive(Debug, Clone)]
pub struct InputMap {
    pub move_left: Vec<String>,
    pub move_right: Vec<String>,
    pub jump: Vec<String>,
    pub enabled: bool,
}

/// The views of a list of strings.
pub open spec fn string_views(v: Seq<String>) -> Seq<Seq<char>> {
    v.map_values(|s: String| s@)
}

impl InputMap {
    /// A/D or the arrows to move; W, Space or Up to jump.
    pub fn wasd() -> (r: Self)
        ensures
            string_views(r.move_left@) == seq!["KeyA"@, "ArrowLeft"@],
            string_views(r.move_right@) == seq!["KeyD"@, "ArrowRight"@],
            string_views(r.jump@) == seq!["KeyW"@, "Space"@, "ArrowUp"@],
            r.enabled,
    {
        let move_left = vec![owned("KeyA"), owned("ArrowLeft")];
        let move_right = vec![owned("KeyD"), owned("ArrowRight")];
        let jump = vec![owned("KeyW"), owned("Space"), owned("ArrowUp")];
        let r = InputMap { move_left, move_right, jump, enabled: true };
        assert(string_views(r.move_left@) =~= seq!["KeyA"@, "ArrowLeft"@]);
        assert(string_views(r.move_right@) =~= seq!["KeyD"@, "ArrowRight"@]);
        assert(string_views(r.jump@) =~= seq!["KeyW"@, "Space"@, "ArrowUp"@]);
        r
    }

    /// The arrows to move; Up or Space to jump.
    pub fn arrows() -> (r: Self)
        ensures
            string_views(r.move_left@) == seq!["ArrowLeft"@],
            string_views(r.move_right@) == seq!["ArrowRight"@],
            string_views(r.jump@) == seq!["ArrowUp"@, "Space"@],
            r.enabled,
    {
        let move_left = vec![owned("ArrowLeft")];
        let move_right = vec![owned("ArrowRight")];
        let jump = vec![owned("ArrowUp"), owned("Space")];
        let r = InputMap { move_left, move_right, jump, enabled: true };
        assert(string_views(r.move_left@) =~= seq!["ArrowLeft"@]);
        assert(string_views(r.move_right@) =~= seq!["ArrowRight"@]);
        assert(string_views(r.jump@) =~= seq!["ArrowUp"@, "Space"@]);
        r
    }
}

impl Default for InputMap {
    fn default() -> (r: Self)
        ensures
            string_views(r.move_left@) == seq!["KeyA"@, "ArrowLeft"@],
            string_views(r.move_right@) == seq!["KeyD"@, "ArrowRight"@],
            string_views(r.jump@) == seq!["KeyW"@, "Space"@, "ArrowUp"@],
            r.enabled,
    {
        InputMap::wasd()
    }
}

/// A grid of tile ids (0 is empty) drawn with a tileset.
#[derive(Debug)]
pub struct Tilemap {
    pub tileset: String,
    pub grid: Vec<Vec<u16>>,
    pub tile_size: (u32, u32),
}

/// The rows of a grid.
pub open spec fn grid_view(g: Seq<Vec<u16>>) -> Seq<Seq<u16>> {
    g.map_values(|row: Vec<u16>| row@)
}

/// A `width` by `height` grid of zeros.
fn zero_grid(width: usize, height: usize) -> (r: Vec<Vec<u16>>)
    ensures
        grid_view(r@) == Seq::new(height as nat, |y: int| Seq::new(width as nat, |x: int| 0u16)),
{
    let mut grid: Vec<Vec<u16>> = Vec::new();
    let mut y: usize = 0;
    while y < height
        invariant
            y <= height,
            grid@.len() == y,
            forall|k: int| 0 <= k < y ==> #[trigger] grid@[k]@ == Seq::new(width as nat, |x: int| 0u16),
        decreases height - y,
    {
        let mut row: Vec<u16> = Vec::new();
        let mut x: usize = 0;
        while x < width
            invariant
                x <= width,
                row@ == Seq::new(x as nat, |i: int| 0u16),
            decreases width - x,
        {
            row.push(0u16);
            x = x + 1;
            assert(row@ =~= Seq::new(x as nat, |i: int| 0u16));
        }
        grid.push(row);
        y = y + 1;
    }
    assert(grid_view(grid@) =~= Seq::new(height as nat, |y: int| Seq::new(width as nat, |x: int| 0u16)));
    grid
}

/// The tile a map character stands for: `#` solid, `=` platform, anything
/// else empty.
pub open spec fn tile_of(c: char) -> u16 {
    if c == '#' {
        1
    } else if c == '=' {
        2
    } else {
        0
    }
}

/// One grid row of `width` tiles read from a line; short lines are padded
/// with empty tiles, long ones cut.
pub open spec fn tile_row(line: Seq<char>, width: nat) -> Seq<u16> {
    Seq::new(width, |x: int| if x < line.len() { tile_of(line[x]) } else { 0u16 })
}

/// The grid a text map describes: one row per line of the trimmed text,
/// as wide as the first line.
pub open spec fn tile_grid(data: Seq<char>) -> Seq<Seq<u16>> {
    let lines = text_lines(trimmed(data));
    let width: nat = if lines.len() > 0 { lines[0].len() } else { 0 };
    Seq::new(lines.len(), |y: int| tile_row(lines[y], width))
}

fn tile_for(c: char) -> (r: u16)
    ensures
        r == tile_of(c),
{
    if c == '#' {
        1
    } else if c == '=' {
        2
    } else {
        0
    }
}

impl Tilemap {
    /// An empty `width` by `height` map.
    pub fn new(tileset: &str, width: usize, height: usize, tile_size: (u32, u32)) -> (r: Self)
        ensures
            r.tileset@ == tileset@,
            grid_view(r.grid@) == Seq::new(height as nat, |y: int| Seq::new(width as nat, |x: int| 0u16)),
            r.tile_size == tile_size,
    {
        Tilemap { tileset: owned(tileset), grid: zero_grid(width, height), tile_size }
    }

    /// A map read from text: rows are the lines of the trimmed text, the
    /// width is that of the first line, `#` is solid (1), `=` a platform
    /// (2), anything else empty (0).
    pub fn from_string(tileset: &str, data: &str, tile_size: (u32, u32)) -> (r: Self)
        ensures
            r.tileset@ == tileset@,
            grid_view(r.grid@) == tile_grid(data@),
            r.tile_size == tile_size,
    {
        let text = trim_str(data);
        let chars = chars_of(text);
        let lines = split_lines(&chars);
        let ghost line_views = lines@.map_values(|l: Vec<char>| l@);
        assert(line_views == text_lines(trimmed(data@)));
        let height = lines.len();
        let width = if height > 0 {
            lines[0].len()
        } else {
            0
        };
        assert(width == (if line_views.len() > 0 { line_views[0].len() } else { 0 }));
        let mut grid: Vec<Vec<u16>> = Vec::new();
        let mut y: usize = 0;
        while y < height
            invariant
                y <= height,
                height == lines@.len(),
                line_views == lines@.map_values(|l: Vec<char>| l@),
                grid@.len() == y,
                forall|k: int| 0 <= k < y ==> #[trigger] grid@[k]@ == tile_row(line_views[k], width as nat),
            decreases height - y,
        {
            let line = &lines[y];
            let mut row: Vec<u16> = Vec::new();
            let mut x: usize = 0;
            while x < width
                invariant
                    x <= width,
                    line@ == line_views[y as int],
                    row@ == tile_row(line@, width as nat).subrange(0, x as int),
                decreases width - x,
            {
                let t = if x < line.len() {
                    tile_for(line[x])
                } else {
                    0
                };
                row.push(t);
                x = x + 1;
                assert(row@ == tile_row(line@, width as nat).subrange(0, x as int));
            }
            assert(row@ == tile_row(line@, width as nat));
            grid.push(row);
            y = y + 1;
        }
        assert(grid_view(grid@) == tile_grid(data@));
        Tilemap { tileset: owned(tileset), grid, tile_size }
    }

    /// Sets the tile at column `x` of row `y`; does nothing outside the grid.
    pub fn set_tile(&mut self, x: usize, y: usize, tile_id: u16)
        ensures
            final(self).tileset == old(self).tileset,
            final(self).tile_size == old(self).tile_size,
            grid_view(final(self).grid@) == if y < old(self).grid@.len() && x < old(self).grid@[y as int]@.len() {
                grid_view(old(self).grid@).update(y as int, old(self).grid@[y as int]@.update(x as int, tile_id))
            } else {
                grid_view(old(self).grid@)
            },
    {
        if y < self.grid.len() && x < self.grid[y].len() {
            let mut row = self.grid[y].clone();
            row.set(x, tile_id);
            let ghost before = self.grid@;
            self.grid.set(y, row);
            assert(grid_view(self.grid@) =~= grid_view(before).update(y as int, before[y as int]@.update(x as int, tile_id)));
        }
    }

    /// The tile at column `x` of row `y`, or 0 outside the grid.
    pub fn get_tile(&self, x: usize, y: usize) -> (r: u16)
        ensures
            r == if y < self.grid@.len() && x < self.grid@[y as int]@.len() {
                self.grid@[y as int]@[x as int]
            } else {
                0u16
            },
    {
        if y < self.grid.len() && x < self.grid[y].len() {
            self.grid[y][x]
        } else {
            0
        }
    }
}

/// Events raised when something enters or leaves an area.
#[derive(Debug, Clone)]
pub struct Trigger {
    pub on_enter: Option<String>,
    pub on_exit: Option<String>,
}

impl Trigger {
    /// A trigger that raises `on_enter` on entry and nothing on exit.
    pub fn new(on_enter: &str) -> (r: Self)
        ensures
            r.on_enter matches Some(e) && e@ == on_enter@,
            r.on_exit is None,
    {
        Trigger { on_enter: Some(owned(on_enter)), on_exit: None }
    }
}

/// Tags for editor queries.
#[derive(Debug, Clone)]
pub struct ScriptTag {
    pub tags: Vec<String>,
}

impl ScriptTag {
    /// The tags `tags`, in order.
    pub fn new(tags: Vec<&str>) -> (r: Self)
        ensures
            string_views(r.tags@) == tags@.map_values(|t: &str| t@),
    {
        let mut out: Vec<String> = Vec::new();
        let mut i: usize = 0;
        while i < tags.len()
            invariant
                i <= tags@.len(),
                out@.len() == i,
                forall|k: int| 0 <= k < i ==> #[trigger] out@[k]@ == tags@[k]@,
            decreases tags@.len() - i,
        {
            out.push(owned(tags[i]));
            i = i + 1;
        }
        assert(string_views(out@) =~= tags@.map_values(|t: &str| t@));
        ScriptTag { tags: out }
    }

    /// Whether `tag` is one of the tags.
    pub fn has_tag(&self, tag: &str) -> (r: bool)
        ensures
            r == string_views(self.tags@).contains(tag@),
    {
        let t = owned(tag);
        let mut i: usize = 0;
        while i < self.tags.len()
            invariant
                i <= self.tags@.len(),
                t@ == tag@,
                forall|k: int| 0 <= k < i ==> self.tags@[k]@ != tag@,
            decreases self.tags@.len() - i,
        {
            if self.tags[i] == t {
                assert(string_views(self.tags@)[i as int] == tag@);
                return true;
            }
            i = i + 1;
        }
        assert(!string_views(self.tags@).contains(tag@)) by {
            if string_views(self.tags@).contains(tag@) {
                let k = choose|k: int| 0 <= k < self.tags@.len() && string_views(self.tags@)[k] == tag@;
                assert(self.tags@[k]@ == tag@);
            }
        }
        false
    }
}

} // verus!
