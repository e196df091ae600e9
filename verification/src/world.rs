//! The tile world: pages of terrain, the two of them that are in view, and
//! the scroll offset that says where the view stands between them.

use crate::bitmap::{bitmap_pixels, crop, cropped, is_sound, pixel_at, rgb_of, sound};
use crate::tile::{class_of, TileClass};
use crate::tuning::{
    HORIZONTAL_TILES, PAGE_WIDTH_PX, SCROLL_STEP, TILE_SCALE, VERTICAL_TILES,
};
use rustbitmap::BitMap;
use vstd::prelude::*;

verus! {

/// Number of tiles in one page: `HORIZONTAL_TILES * VERTICAL_TILES`.
pub const PAGE_TILES: usize = 768;

/// The tile in column `col` and row `row` of a page stored row by row;
/// `Empty` where the page has no such tile.
pub open spec fn tile_of(page: Seq<TileClass>, col: int, row: int) -> TileClass {
    if 0 <= col < HORIZONTAL_TILES && 0 <= row < VERTICAL_TILES && page.len() == PAGE_TILES {
        page[row * HORIZONTAL_TILES + col]
    } else {
        TileClass::Empty
    }
}

/// The tile at `col`, `row` of the strip that the current page and the next
/// page form side by side.
pub open spec fn strip_tile(
    current: Seq<TileClass>,
    next: Seq<TileClass>,
    col: int,
    row: int,
) -> TileClass {
    if col < HORIZONTAL_TILES {
        tile_of(current, col, row)
    } else {
        tile_of(next, col - HORIZONTAL_TILES, row)
    }
}

/// The tile column of the strip that viewport column `world_x` falls into
/// at scroll offset `scroll`.
pub open spec fn strip_column(world_x: int, scroll: int) -> int {
    (world_x + scroll) / (TILE_SCALE as int)
}

/// The terrain under a viewport pixel at a scroll offset.
pub open spec fn spec_classify(
    current: Seq<TileClass>,
    next: Seq<TileClass>,
    world_x: int,
    world_y: int,
    scroll: int,
) -> TileClass {
    strip_tile(current, next, strip_column(world_x, scroll), world_y / (TILE_SCALE as int))
}

/// The page that follows `current` when the caller names `choice`: the
/// chosen page where there is one of that number, else the page after
/// `current` in rotation.
pub open spec fn spec_select_next(current: int, count: int, choice: Option<u32>) -> int {
    match choice {
        Some(c) if (c as int) < count => c as int,
        _ => (current + 1) % count,
    }
}

/// The tiles that page number `index` of a terrain atlas decodes to: tile
/// `col`, `row` of the page is the class of the atlas pixel at
/// `index * HORIZONTAL_TILES + col`, `row`.
pub open spec fn decoded(pixels: Map<(int, int), (u8, u8, u8)>, index: int) -> Seq<TileClass> {
    Seq::new(
        PAGE_TILES as nat,
        |k: int|
            class_of(
                rgb_of(
                    pixels[(
                        index * HORIZONTAL_TILES + k % (HORIZONTAL_TILES as int),
                        k / (HORIZONTAL_TILES as int),
                    )],
                ),
            ),
    )
}

/// One page of terrain: `HORIZONTAL_TILES` by `VERTICAL_TILES` tiles.
pub struct TilePage {
    tiles: Vec<TileClass>,
}

impl View for TilePage {
    type V = Seq<TileClass>;

    closed spec fn view(&self) -> Seq<TileClass> {
        self.tiles@
    }
}

impl TilePage {
    /// A page holds exactly `PAGE_TILES` tiles.
    pub open spec fn wf(&self) -> bool {
        self@.len() == PAGE_TILES
    }

    /// A page of empty space.
    pub fn empty() -> (page: TilePage)
        ensures
            page.wf(),
            forall|k: int| 0 <= k < PAGE_TILES ==> page@[k] == TileClass::Empty,
    {
        let mut tiles: Vec<TileClass> = Vec::new();
        let mut k: usize = 0;
        while k < PAGE_TILES
            invariant
                k <= PAGE_TILES,
                tiles.len() == k,
                forall|j: int| 0 <= j < k ==> tiles[j] == TileClass::Empty,
            decreases PAGE_TILES - k,
        {
            tiles.push(TileClass::Empty);
            k += 1;
        }
        TilePage { tiles }
    }

    /// Takes a page from its tiles, row by row; refuses any other number of
    /// tiles than `PAGE_TILES`.
    pub fn from_tiles(tiles: Vec<TileClass>) -> (page: Option<TilePage>)
        ensures
            page.is_some() == (tiles.len() == PAGE_TILES),
            page matches Some(p) ==> p.wf() && p@ == tiles@,
    {
        if tiles.len() == PAGE_TILES {
            Some(TilePage { tiles })
        } else {
            None
        }
    }

    /// The tile in column `col` and row `row`; `Empty` outside the page.
    pub fn tile(&self, col: u32, row: u32) -> (class: TileClass)
        requires
            self.wf(),
        ensures
            class == tile_of(self@, col as int, row as int),
    {
        if col < HORIZONTAL_TILES && row < VERTICAL_TILES {
            self.tiles[(row * HORIZONTAL_TILES + col) as usize]
        } else {
            TileClass::Empty
        }
    }

    /// Puts `class` into column `col` and row `row`; outside the page
    /// nothing changes.
    pub fn set_tile(&mut self, col: u32, row: u32, class: TileClass)
        requires
            old(self).wf(),
        ensures
            final(self).wf(),
            final(self)@ == (if col < HORIZONTAL_TILES && row < VERTICAL_TILES {
                old(self)@.update(row * HORIZONTAL_TILES + col, class)
            } else {
                old(self)@
            }),
    {
        if col < HORIZONTAL_TILES && row < VERTICAL_TILES {
            self.tiles.set((row * HORIZONTAL_TILES + col) as usize, class);
        }
    }

    /// Decodes page number `index` of a terrain atlas, in which the pages
    /// stand side by side and each pixel is one tile.
    ///
    /// The page is cut out of the atlas, which hands its rows over
    /// bottom-up, and read back in reverse so that row 0 stays the top row.
    /// Decoding succeeds exactly when the atlas is sound and covers the
    /// whole page.
    pub fn decode(atlas: &BitMap, index: u32) -> (page: Option<TilePage>)
        ensures
            page.is_some() == holds_page(*atlas, index as int),
            page matches Some(p) ==> p.wf() && p@ == decoded(bitmap_pixels(*atlas), index as int),
    {
        if !is_sound(atlas) {
            return None;
        }
        if index > (u32::MAX - HORIZONTAL_TILES) / HORIZONTAL_TILES {
            return None;
        }
        let from_x: u32 = index * HORIZONTAL_TILES;
        let block = match crop(atlas, from_x, 0, from_x + HORIZONTAL_TILES, VERTICAL_TILES) {
            Ok(block) => block,
            Err(_) => {
                return None;
            },
        };
        let ghost source = bitmap_pixels(*atlas);
        let mut tiles: Vec<TileClass> = Vec::new();
        let mut k: usize = 0;
        while k < PAGE_TILES
            invariant
                k <= PAGE_TILES,
                tiles.len() == k,
                from_x == index * HORIZONTAL_TILES,
                source == bitmap_pixels(*atlas),
                sound(block),
                bitmap_pixels(block) == cropped(
                    source,
                    from_x as int,
                    from_x + HORIZONTAL_TILES,
                    VERTICAL_TILES as int,
                ),
                forall|j: int| 0 <= j < k ==> tiles[j] == decoded(source, index as int)[j],
            decreases PAGE_TILES - k,
        {
            let col: u32 = (k % 48) as u32;
            let row: u32 = (k / 48) as u32;
            let class = match pixel_at(&block, col, VERTICAL_TILES - 1 - row) {
                Some(colour) => TileClass::from_rgb(&colour),
                None => TileClass::Empty,
            };
            tiles.push(class);
            k += 1;
        }
        assert(tiles@ =~= decoded(source, index as int));
        Some(TilePage { tiles })
    }
}

/// Decodes the first `num_maps` pages of a terrain atlas, in order; fails
/// where the atlas does not hold all of them.
pub fn load_blocks(atlas: &BitMap, num_maps: u32) -> (pages: Option<Vec<TilePage>>)
    ensures
        pages.is_some() == (forall|i: int| 0 <= i < num_maps ==> #[trigger] holds_page(*atlas, i)),
        pages matches Some(v) ==> {
            &&& v.len() == num_maps
            &&& forall|i: int|
                0 <= i < num_maps ==> (#[trigger] v[i]).wf() && v[i]@ == decoded(
                    bitmap_pixels(*atlas),
                    i,
                )
        },
{
    let mut result: Vec<TilePage> = Vec::new();
    let mut i: u32 = 0;
    while i < num_maps
        invariant
            i <= num_maps,
            result.len() == i,
            forall|j: int| 0 <= j < i ==> #[trigger] holds_page(*atlas, j),
            forall|j: int|
                0 <= j < i ==> (#[trigger] result[j]).wf() && result[j]@ == decoded(
                    bitmap_pixels(*atlas),
                    j,
                ),
        decreases num_maps - i,
    {
        match TilePage::decode(atlas, i) {
            Some(page) => {
                result.push(page);
            },
            None => {
                assert(!holds_page(*atlas, i as int));
                return None;
            },
        }
        i += 1;
    }
    Some(result)
}

/// What a tile world holds: its pages, the numbers of the two that are in
/// view, and the scroll offset between them.
pub struct WorldView {
    pub pages: Seq<Seq<TileClass>>,
    pub current: int,
    pub next: int,
    pub scroll: int,
}

impl WorldView {
    /// The page that the view is leaving.
    pub open spec fn current_page(self) -> Seq<TileClass> {
        self.pages[self.current]
    }

    /// The page that scrolls in from the right.
    pub open spec fn next_page(self) -> Seq<TileClass> {
        self.pages[self.next]
    }

    /// There is at least one page, every page is complete, both active
    /// pages exist, and the scroll offset lies inside a page.
    pub open spec fn wf(self) -> bool {
        &&& 0 < self.pages.len() <= u32::MAX
        &&& 0 <= self.current < self.pages.len()
        &&& 0 <= self.next < self.pages.len()
        &&& 0 <= self.scroll < PAGE_WIDTH_PX
        &&& forall|i: int|
            0 <= i < self.pages.len() ==> (#[trigger] self.pages[i]).len() == PAGE_TILES
    }

    /// The terrain under a viewport pixel at scroll offset `scroll`.
    pub open spec fn class_at(self, world_x: int, world_y: int, scroll: int) -> TileClass {
        spec_classify(self.current_page(), self.next_page(), world_x, world_y, scroll)
    }

    /// The world after the page roles have swapped: the next page has
    /// become the current one, a new next page is selected, and the scroll
    /// offset is back at 0.
    pub open spec fn swapped(self, choice: Option<u32>) -> WorldView {
        WorldView {
            pages: self.pages,
            current: self.next,
            next: spec_select_next(self.next, self.pages.len() as int, choice),
            scroll: 0,
        }
    }

    /// The world one quiet tick later: scrolled on by `SCROLL_STEP`, and
    /// swapped where that reaches the width of a page.
    pub open spec fn scrolled(self, choice: Option<u32>) -> WorldView {
        if self.scroll + SCROLL_STEP >= PAGE_WIDTH_PX {
            self.swapped(choice)
        } else {
            WorldView { scroll: self.scroll + SCROLL_STEP, ..self }
        }
    }

    /// The world as a fresh run finds it: the first page in view, the page
    /// that `get_next_block` names behind it, no scroll.
    pub open spec fn rewound(self) -> WorldView {
        WorldView { pages: self.pages, current: 0, next: 0, scroll: 0 }
    }
}

/// The page that scrolls in first when a run starts over `max_blocks`
/// pages: always the first one.
pub fn get_next_block(max_blocks: u32) -> (block: u32)
    ensures
        block == 0,
{
    0
}

/// The terrain of a run: all its pages and the two-page window on them.
pub struct TileWorld {
    pages: Vec<TilePage>,
    current: usize,
    next: usize,
    scroll: u32,
}

impl View for TileWorld {
    type V = WorldView;

    closed spec fn view(&self) -> WorldView {
        WorldView {
            pages: self.pages@.map_values(|p: TilePage| p@),
            current: self.current as int,
            next: self.next as int,
            scroll: self.scroll as int,
        }
    }
}

impl TileWorld {
    /// See `WorldView::wf`.
    pub open spec fn wf(&self) -> bool {
        self@.wf()
    }

    /// Builds a world over `pages`, rewound to its start; refuses an empty
    /// list of pages and one too long to number.
    pub fn new(pages: Vec<TilePage>) -> (world: Option<TileWorld>)
        requires
            forall|i: int| 0 <= i < pages.len() ==> (#[trigger] pages[i]).wf(),
        ensures
            world.is_some() == (0 < pages.len() <= u32::MAX),
            world matches Some(w) ==> {
                &&& w.wf()
                &&& w@.pages == pages@.map_values(|p: TilePage| p@)
                &&& w@.current == 0
                &&& w@.next == 0
                &&& w@.scroll == 0
            },
    {
        let count = pages.len();
        if count == 0 || count > u32::MAX as usize {
            return None;
        }
        let next = get_next_block(count as u32) as usize;
        let world = TileWorld { pages, current: 0, next, scroll: 0 };
        Some(world)
    }

    /// Number of pages in the world.
    pub fn page_count(&self) -> (count: u32)
        requires
            self.wf(),
        ensures
            count == self@.pages.len(),
    {
        self.pages.len() as u32
    }

    /// The scroll offset, in pixels.
    pub fn scroll_offset(&self) -> (scroll: u32)
        requires
            self.wf(),
        ensures
            scroll == self@.scroll,
            scroll < PAGE_WIDTH_PX,
    {
        self.scroll
    }

    /// Number of the page that the view is leaving.
    pub fn current_block(&self) -> (index: u32)
        requires
            self.wf(),
        ensures
            index == self@.current,
    {
        self.current as u32
    }

    /// Number of the page that scrolls in from the right.
    pub fn next_block(&self) -> (index: u32)
        requires
            self.wf(),
        ensures
            index == self@.next,
    {
        self.next as u32
    }

    /// The tile in column `col` and row `row` of page number `index`;
    /// `Empty` where there is no such page or tile.
    pub fn page_tile(&self, index: u32, col: u32, row: u32) -> (class: TileClass)
        requires
            self.wf(),
        ensures
            class == (if index < self@.pages.len() {
                tile_of(self@.pages[index as int], col as int, row as int)
            } else {
                TileClass::Empty
            }),
    {
        if (index as usize) < self.pages.len() {
            assert(self@.pages[index as int] == self.pages[index as int]@);
            self.pages[index as usize].tile(col, row)
        } else {
            TileClass::Empty
        }
    }

    /// The terrain under the viewport pixel `world_x`, `world_y` when the
    /// view has scrolled by `scroll_offset` pixels: the tile of the current
    /// page while the scrolled column lies inside it, else the tile of the
    /// next page, and `Empty` beyond both pages or below the last row.
    pub fn classify(&self, world_x: u32, world_y: u32, scroll_offset: u32) -> (class: TileClass)
        requires
            self.wf(),
        ensures
            class == self@.class_at(world_x as int, world_y as int, scroll_offset as int),
    {
        let column: u64 = (world_x as u64 + scroll_offset as u64) / (TILE_SCALE as u64);
        let row: u32 = world_y / TILE_SCALE;
        let first: u64 = HORIZONTAL_TILES as u64;
        assert(self@.pages[self.current as int] == self.pages[self.current as int]@);
        assert(self@.pages[self.next as int] == self.pages[self.next as int]@);
        if column < first {
            self.pages[self.current].tile(column as u32, row)
        } else if column < 2 * first {
            self.pages[self.next].tile((column - first) as u32, row)
        } else {
            TileClass::Empty
        }
    }

    /// Swaps the roles of the two active pages: the next page becomes the
    /// current one, and the page that `choice` names, or else the one
    /// after it in rotation, becomes the next. The scroll offset goes back
    /// to 0.
    pub fn advance(&mut self, choice: Option<u32>)
        requires
            old(self).wf(),
        ensures
            final(self).wf(),
            final(self)@ == old(self)@.swapped(choice),
    {
        let count = self.pages.len();
        let rotated = (self.next + 1) % count;
        let selected = match choice {
            Some(c) => if (c as usize) < count {
                c as usize
            } else {
                rotated
            },
            None => rotated,
        };
        self.scroll = 0;
        self.current = self.next;
        self.next = selected;
    }

    /// Scrolls the view on by one tick: by `SCROLL_STEP` pixels, and where
    /// that reaches the width of a page, by a swap of the pages instead.
    /// Tells whether the pages swapped.
    pub fn scroll_forward(&mut self, choice: Option<u32>) -> (swapped: bool)
        requires
            old(self).wf(),
        ensures
            final(self).wf(),
            final(self)@ == old(self)@.scrolled(choice),
            swapped == (old(self)@.scroll + SCROLL_STEP >= PAGE_WIDTH_PX),
    {
        if self.scroll + SCROLL_STEP >= PAGE_WIDTH_PX {
            self.advance(choice);
            true
        } else {
            self.scroll = self.scroll + SCROLL_STEP;
            false
        }
    }

    /// Puts the view back where a fresh run starts.
    pub fn rewind(&mut self)
        requires
            old(self).wf(),
        ensures
            final(self).wf(),
            final(self)@ == old(self)@.rewound(),
    {
        let count = self.pages.len() as u32;
        self.current = 0;
        self.next = get_next_block(count) as usize;
        self.scroll = 0;
    }
}

/// Scrolling is continuous. One more pixel of scroll shows at every
/// viewport column what stood one pixel to its right before, and the tile
/// column that a viewport column samples stays or moves on by one: no tile
/// is skipped.
pub proof fn lemma_scroll_is_continuous(world: WorldView, x: u32, y: u32, o: u32)
    requires
        world.wf(),
        o < PAGE_WIDTH_PX,
    ensures
        world.class_at(x as int, y as int, o + 1) == world.class_at(x + 1, y as int, o as int),
        strip_column(x as int, o as int) <= strip_column(x as int, o + 1) <= strip_column(
            x as int,
            o as int,
        ) + 1,
{
}

/// The page swap is exact. Once the scroll offset has reached the width of
/// a page, the swapped world at offset 0 shows across the whole viewport
/// what the world showed at the full offset; the first tile of what was the
/// next page is the first tile of the current page.
pub proof fn lemma_swap_is_exact(world: WorldView, choice: Option<u32>, x: u32, y: u32)
    requires
        world.wf(),
        x < PAGE_WIDTH_PX,
    ensures
        world.swapped(choice).wf(),
        world.swapped(choice).scroll == 0,
        world.swapped(choice).current_page() == world.next_page(),
        world.swapped(choice).class_at(x as int, y as int, 0) == world.class_at(
            x as int,
            y as int,
            PAGE_WIDTH_PX as int,
        ),
{
}

/// Whether an atlas holds page number `index` in full: the page's last
/// column can be numbered, and the atlas covers the page's far corner, the
/// last column in the last row.
pub open spec fn covers_page(pixels: Map<(int, int), (u8, u8, u8)>, index: int) -> bool {
    &&& (index + 1) * HORIZONTAL_TILES <= u32::MAX
    &&& pixels.dom().contains(
        (index * HORIZONTAL_TILES + HORIZONTAL_TILES - 1, VERTICAL_TILES - 1),
    )
}

/// Whether a terrain atlas holds page number `index`: the atlas is sound
/// and covers the page.
pub open spec fn holds_page(atlas: BitMap, index: int) -> bool {
    sound(atlas) && covers_page(bitmap_pixels(atlas), index)
}

} // verus!
