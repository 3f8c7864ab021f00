//! Maps: tile layers, named areas and settings.
use vstd::prelude::*;

verus! {

/// Identifier of a map.
#[derive(Clone, Copy, Debug, PartialEq, Eq, Hash, Structural)]
pub struct MapId(pub u64);

/// The value of the reserved start map's identifier.
pub const START_MAP: u64 = 0;

impl MapId {
    /// The reserved map that always exists and on which players spawn.
    pub fn start() -> (r: MapId)
        ensures
            r == (MapId(START_MAP)),
    {
        MapId(START_MAP)
    }
}

/// The fixed set of tile layers that every map has.
#[derive(Clone, Copy, Debug, PartialEq, Eq, Hash, Structural)]
pub enum MapLayer {
    Ground,
    Mask,
    Mask2,
    Fringe,
}

/// A tileset coordinate.
#[derive(Clone, Copy, Debug, PartialEq, Eq, Structural)]
pub struct TileUv {
    pub x: u32,
    pub y: u32,
}

/// One cell of a layer.
#[derive(Clone, Copy, Debug, PartialEq, Eq, Structural)]
pub enum Tile {
    Empty,
    Basic(TileUv),
    Autotile(TileUv),
}

/// What an area does to players whose footprint touches it.
#[derive(Debug)]
pub enum AreaData {
    /// Players cannot move into it.
    Blocked,
    /// Players inside it receive this message, at most once per cooldown.
    Log(String),
}

impl Clone for AreaData {
    fn clone(&self) -> (r: Self)
        ensures
            r == *self,
    {
        match self {
            AreaData::Blocked => AreaData::Blocked,
            AreaData::Log(m) => AreaData::Log(m.clone()),
        }
    }
}

/// A rectangular region of a map, in world units.
#[derive(Debug)]
pub struct Area {
    pub x: i64,
    pub y: i64,
    pub width: i64,
    pub height: i64,
    pub data: AreaData,
}

impl Clone for Area {
    fn clone(&self) -> (r: Self)
        ensures
            r == *self,
    {
        Area {
            x: self.x,
            y: self.y,
            width: self.width,
            height: self.height,
            data: self.data.clone(),
        }
    }
}

/// Maps reached by walking off each edge of a map.
#[derive(Clone, Copy, Debug, PartialEq, Eq, Structural)]
pub struct EdgeWarps {
    pub north: Option<MapId>,
    pub east: Option<MapId>,
    pub south: Option<MapId>,
    pub west: Option<MapId>,
}

/// Settings of a map.
#[derive(Debug)]
pub struct MapSettings {
    pub name: String,
    pub tileset: String,
    pub music: Option<String>,
    pub revision: u64,
    pub warps: EdgeWarps,
}

impl Clone for MapSettings {
    fn clone(&self) -> (r: Self)
        ensures
            r == *self,
    {
        let music = match &self.music {
            Some(m) => Some(m.clone()),
            None => None,
        };
        MapSettings {
            name: self.name.clone(),
            tileset: self.tileset.clone(),
            music,
            revision: self.revision,
            warps: self.warps,
        }
    }
}

/// No edge warps at all.
pub open spec fn no_warps() -> EdgeWarps {
    EdgeWarps { north: None, east: None, south: None, west: None }
}

/// Settings of a freshly made map: no name, no tileset, no music, revision 0
/// and no edge warps.
pub open spec fn is_default_settings(s: MapSettings) -> bool {
    &&& s.name@ == Seq::<char>::empty()
    &&& s.tileset@ == Seq::<char>::empty()
    &&& s.music is None
    &&& s.revision == 0
    &&& s.warps == no_warps()
}

/// Makes the settings of a freshly made map.
pub fn default_settings() -> (r: MapSettings)
    ensures
        is_default_settings(r),
{
    MapSettings {
        name: String::new(),
        tileset: String::new(),
        music: None,
        revision: 0,
        warps: EdgeWarps { north: None, east: None, south: None, west: None },
    }
}

/// A map: four tile layers of `width * height` cells each (row-major), the
/// named areas and the settings.
#[derive(Debug)]
pub struct GameMap {
    pub id: MapId,
    pub width: u32,
    pub height: u32,
    pub ground: Vec<Tile>,
    pub mask: Vec<Tile>,
    pub mask2: Vec<Tile>,
    pub fringe: Vec<Tile>,
    pub areas: Vec<Area>,
    pub settings: MapSettings,
}

/// What a map holds, as mathematical values.
pub struct MapView {
    pub id: MapId,
    pub width: u32,
    pub height: u32,
    pub ground: Seq<Tile>,
    pub mask: Seq<Tile>,
    pub mask2: Seq<Tile>,
    pub fringe: Seq<Tile>,
    pub areas: Seq<Area>,
    pub settings: MapSettings,
}

impl View for GameMap {
    type V = MapView;

    open spec fn view(&self) -> MapView {
        MapView {
            id: self.id,
            width: self.width,
            height: self.height,
            ground: self.ground@,
            mask: self.mask@,
            mask2: self.mask2@,
            fringe: self.fringe@,
            areas: self.areas@,
            settings: self.settings,
        }
    }
}

/// Number of cells in a map of the given size.
pub open spec fn cell_count(width: u32, height: u32) -> int {
    width as int * height as int
}

/// A layer of `n` empty cells.
pub open spec fn empty_layer(n: int) -> Seq<Tile> {
    Seq::new(n as nat, |i: int| Tile::Empty)
}

impl GameMap {
    /// The cells of one layer.
    pub open spec fn layer_spec(&self, layer: MapLayer) -> Seq<Tile> {
        match layer {
            MapLayer::Ground => self.ground@,
            MapLayer::Mask => self.mask@,
            MapLayer::Mask2 => self.mask2@,
            MapLayer::Fringe => self.fringe@,
        }
    }

    /// Every layer holds exactly `width * height` cells.
    pub open spec fn wf(&self) -> bool {
        forall|l: MapLayer| #[trigger] self.layer_spec(l).len() == cell_count(self.width, self.height)
    }

    /// An empty map of the given size: all cells empty, no areas, default
    /// settings.
    pub fn new(id: MapId, width: u32, height: u32) -> (r: GameMap)
        requires
            cell_count(width, height) <= usize::MAX,
        ensures
            r.wf(),
            r.id == id,
            r.width == width,
            r.height == height,
            forall|l: MapLayer| #[trigger] r.layer_spec(l) == empty_layer(cell_count(width, height)),
            r.areas@.len() == 0,
            is_default_settings(r.settings),
    {
        let size: usize = (width as u64 * height as u64) as usize;
        GameMap {
            id,
            width,
            height,
            ground: empty_cells(size),
            mask: empty_cells(size),
            mask2: empty_cells(size),
            fringe: empty_cells(size),
            areas: Vec::new(),
            settings: default_settings(),
        }
    }

    /// The cells of one layer.
    pub fn tiles(&self, layer: MapLayer) -> (r: &Vec<Tile>)
        ensures
            r@ == self.layer_spec(layer),
    {
        match layer {
            MapLayer::Ground => &self.ground,
            MapLayer::Mask => &self.mask,
            MapLayer::Mask2 => &self.mask2,
            MapLayer::Fringe => &self.fringe,
        }
    }

    /// Number of cells in one layer.
    pub fn tile_count(&self, layer: MapLayer) -> (r: usize)
        ensures
            r == self.layer_spec(layer).len(),
            self.wf() ==> r == cell_count(self.width, self.height),
    {
        self.tiles(layer).len()
    }

    /// Tells whether every layer holds exactly `width * height` cells.
    pub fn is_valid(&self) -> (r: bool)
        ensures
            r == self.wf(),
    {
        assert(self.width * self.height <= u32::MAX * u32::MAX) by (nonlinear_arith)
            requires
                self.width <= u32::MAX,
                self.height <= u32::MAX,
        ;
        let size: u64 = self.width as u64 * self.height as u64;
        let r = self.ground.len() as u64 == size && self.mask.len() as u64 == size
            && self.mask2.len() as u64 == size && self.fringe.len() as u64 == size;
        proof {
            if !r {
                if self.ground@.len() != size {
                    assert(self.layer_spec(MapLayer::Ground).len() != size);
                } else if self.mask@.len() != size {
                    assert(self.layer_spec(MapLayer::Mask).len() != size);
                } else if self.mask2@.len() != size {
                    assert(self.layer_spec(MapLayer::Mask2).len() != size);
                } else {
                    assert(self.layer_spec(MapLayer::Fringe).len() != size);
                }
            }
        }
        r
    }

    /// The cell `(x, y)` lies on the map.
    pub open spec fn valid_spec(&self, x: int, y: int) -> bool {
        0 <= x < self.width && 0 <= y < self.height
    }

    /// Row-major index of the cell `(x, y)`.
    pub open spec fn index_spec(&self, x: int, y: int) -> int {
        x + y * self.width
    }

    /// Tells whether the cell `(x, y)` lies on the map.
    pub fn valid(&self, x: i64, y: i64) -> (r: bool)
        ensures
            r == self.valid_spec(x as int, y as int),
    {
        x >= 0 && x < self.width as i64 && y >= 0 && y < self.height as i64
    }

    fn index(&self, x: i64, y: i64) -> (r: Option<usize>)
        requires
            self.wf(),
        ensures
            r is Some <==> self.valid_spec(x as int, y as int),
            r matches Some(i) ==> i == self.index_spec(x as int, y as int) && i < cell_count(
                self.width,
                self.height,
            ),
    {
        if !self.valid(x, y) {
            return None;
        }
        proof {
            assert(self.layer_spec(MapLayer::Ground).len() == cell_count(self.width, self.height));
            assert((x + y * self.width) < self.width * self.height) by (nonlinear_arith)
                requires
                    0 <= x < self.width,
                    0 <= y < self.height,
            ;
        }
        let n: usize = self.ground.len();
        let i: usize = (x as usize) + (y as usize) * (self.width as usize);
        Some(i)
    }

    /// The cell `(x, y)` of a layer, if it lies on the map.
    pub fn tile(&self, layer: MapLayer, x: i64, y: i64) -> (r: Option<Tile>)
        requires
            self.wf(),
        ensures
            r == (if self.valid_spec(x as int, y as int) {
                Some(self.layer_spec(layer)[self.index_spec(x as int, y as int)])
            } else {
                None::<Tile>
            }),
    {
        match self.index(x, y) {
            Some(i) => {
                assert(self.layer_spec(layer).len() == cell_count(self.width, self.height));
                let t = self.tiles(layer)[i];
                assert(t == self.layer_spec(layer)[self.index_spec(x as int, y as int)]);
                Some(t)
            },
            None => None,
        }
    }

    /// Replaces the cell `(x, y)` of a layer; does nothing off the map.
    pub fn set_tile(&mut self, layer: MapLayer, x: i64, y: i64, tile: Tile)
        requires
            old(self).wf(),
        ensures
            final(self).wf(),
            final(self).id == old(self).id,
            final(self).width == old(self).width,
            final(self).height == old(self).height,
            final(self).areas == old(self).areas,
            final(self).settings == old(self).settings,
            forall|l: MapLayer| #[trigger] final(self).layer_spec(l) == (if l == layer && old(self).valid_spec(x as int, y as int) {
                old(self).layer_spec(l).update(old(self).index_spec(x as int, y as int), tile)
            } else {
                old(self).layer_spec(l)
            }),
    {
        if let Some(i) = self.index(x, y) {
            assert(self.layer_spec(layer).len() == cell_count(self.width, self.height));
            match layer {
                MapLayer::Ground => self.ground.set(i, tile),
                MapLayer::Mask => self.mask.set(i, tile),
                MapLayer::Mask2 => self.mask2.set(i, tile),
                MapLayer::Fringe => self.fringe.set(i, tile),
            }
            assert(i == old(self).index_spec(x as int, y as int));
            assert forall|l: MapLayer| #[trigger] self.layer_spec(l).len() == cell_count(self.width, self.height) by {
                assert(old(self).layer_spec(l).len() == cell_count(self.width, self.height));
            }
            assert forall|l: MapLayer| #[trigger] self.layer_spec(l) == (if l == layer {
                old(self).layer_spec(l).update(i as int, tile)
            } else {
                old(self).layer_spec(l)
            }) by {
                match l {
                    MapLayer::Ground => {},
                    MapLayer::Mask => {},
                    MapLayer::Mask2 => {},
                    MapLayer::Fringe => {},
                }
            }
        }
    }
}

/// A layer of `n` empty cells.
fn empty_cells(n: usize) -> (r: Vec<Tile>)
    ensures
        r@ == empty_layer(n as int),
{
    let mut v: Vec<Tile> = Vec::new();
    let mut i: usize = 0;
    while i < n
        invariant
            i <= n,
            v@ == empty_layer(i as int),
        decreases n - i,
    {
        v.push(Tile::Empty);
        i = i + 1;
        assert(v@ =~= empty_layer(i as int));
    }
    v
}

/// A copy of a vector whose elements clone exactly.
pub fn clone_areas(v: &Vec<Area>) -> (r: Vec<Area>)
    ensures
        r@ == v@,
{
    let r = v.clone();
    assert(r@ =~= v@);
    r
}

/// A copy of a layer.
pub fn clone_tiles(v: &Vec<Tile>) -> (r: Vec<Tile>)
    ensures
        r@ == v@,
{
    let r = v.clone();
    assert(r@ =~= v@);
    r
}

impl Clone for GameMap {
    fn clone(&self) -> (r: Self)
        ensures
            r@ == self@,
    {
        let r = GameMap {
            id: self.id,
            width: self.width,
            height: self.height,
            ground: clone_tiles(&self.ground),
            mask: clone_tiles(&self.mask),
            mask2: clone_tiles(&self.mask2),
            fringe: clone_tiles(&self.fringe),
            areas: clone_areas(&self.areas),
            settings: self.settings.clone(),
        };
        r
    }
}

} // verus!
