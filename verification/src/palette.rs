//! The fixed, ordered palette of named colors. The position of a color in the
//! palette is the numeric index used by every grid cell.

use std::collections::HashMap;
use vstd::prelude::*;

verus! {

broadcast use vstd::string::group_string_axioms, vstd::std_specs::hash::group_hash_axioms;

/// One palette entry: a human-readable name and an RGB triple.
pub struct PaletteColor {
    pub name: String,
    pub rgb: (u8, u8, u8),
}

/// The RGB triple of palette entry `i`, for `0 <= i < 32`.
pub open spec fn palette_rgb(i: int) -> (u8, u8, u8) {
    if i == 0 { (109u8, 0u8, 26u8) }
    else if i == 1 { (190u8, 0u8, 57u8) }
    else if i == 2 { (255u8, 69u8, 0u8) }
    else if i == 3 { (255u8, 168u8, 0u8) }
    else if i == 4 { (255u8, 214u8, 53u8) }
    else if i == 5 { (255u8, 248u8, 184u8) }
    else if i == 6 { (0u8, 163u8, 104u8) }
    else if i == 7 { (0u8, 204u8, 120u8) }
    else if i == 8 { (126u8, 237u8, 86u8) }
    else if i == 9 { (0u8, 117u8, 111u8) }
    else if i == 10 { (0u8, 158u8, 170u8) }
    else if i == 11 { (0u8, 204u8, 192u8) }
    else if i == 12 { (36u8, 80u8, 164u8) }
    else if i == 13 { (54u8, 144u8, 234u8) }
    else if i == 14 { (81u8, 233u8, 244u8) }
    else if i == 15 { (73u8, 58u8, 193u8) }
    else if i == 16 { (106u8, 92u8, 255u8) }
    else if i == 17 { (148u8, 179u8, 255u8) }
    else if i == 18 { (129u8, 30u8, 159u8) }
    else if i == 19 { (180u8, 74u8, 192u8) }
    else if i == 20 { (228u8, 171u8, 255u8) }
    else if i == 21 { (222u8, 16u8, 127u8) }
    else if i == 22 { (255u8, 56u8, 129u8) }
    else if i == 23 { (255u8, 153u8, 170u8) }
    else if i == 24 { (109u8, 72u8, 47u8) }
    else if i == 25 { (156u8, 105u8, 38u8) }
    else if i == 26 { (255u8, 180u8, 112u8) }
    else if i == 27 { (0u8, 0u8, 0u8) }
    else if i == 28 { (81u8, 82u8, 82u8) }
    else if i == 29 { (137u8, 141u8, 144u8) }
    else if i == 30 { (212u8, 215u8, 217u8) }
    else { (255u8, 255u8, 255u8) }
}

/// The name of palette entry `i`, for `0 <= i < 32`.
pub open spec fn palette_name(i: int) -> Seq<char> {
    if i == 0 { "burgundy"@ }
    else if i == 1 { "dark red"@ }
    else if i == 2 { "red"@ }
    else if i == 3 { "orange"@ }
    else if i == 4 { "yellow"@ }
    else if i == 5 { "pale yellow"@ }
    else if i == 6 { "dark green"@ }
    else if i == 7 { "green"@ }
    else if i == 8 { "light green"@ }
    else if i == 9 { "dark teal"@ }
    else if i == 10 { "teal"@ }
    else if i == 11 { "light teal"@ }
    else if i == 12 { "dark blue"@ }
    else if i == 13 { "blue"@ }
    else if i == 14 { "light blue"@ }
    else if i == 15 { "indigo"@ }
    else if i == 16 { "periwinkle"@ }
    else if i == 17 { "lavender"@ }
    else if i == 18 { "dark purple"@ }
    else if i == 19 { "purple"@ }
    else if i == 20 { "pale purple"@ }
    else if i == 21 { "magenta"@ }
    else if i == 22 { "pink"@ }
    else if i == 23 { "light pink"@ }
    else if i == 24 { "dark brown"@ }
    else if i == 25 { "brown"@ }
    else if i == 26 { "beige"@ }
    else if i == 27 { "black"@ }
    else if i == 28 { "dark gray"@ }
    else if i == 29 { "gray"@ }
    else if i == 30 { "light gray"@ }
    else { "white"@ }
}

/// A sequence is the palette exactly when it has the 32 entries above, in
/// order.
pub open spec fn is_palette(s: Seq<PaletteColor>) -> bool {
    &&& s.len() == 32
    &&& forall|i: int| #![trigger s[i]]
        0 <= i < 32 ==> s[i].rgb == palette_rgb(i) && s[i].name@ == palette_name(i)
}

fn entry(name: &str, rgb: (u8, u8, u8)) -> (c: PaletteColor)
    ensures
        c.rgb == rgb,
        c.name@ == name@,
{
    PaletteColor { name: name.to_string(), rgb }
}

/// Build the palette: the ordered list of allowed colors.
pub fn create_palette() -> (r: Vec<PaletteColor>)
    ensures
        is_palette(r@),
{
    let mut v: Vec<PaletteColor> = Vec::new();
    v.push(entry("burgundy", (109, 0, 26)));
    v.push(entry("dark red", (190, 0, 57)));
    v.push(entry("red", (255, 69, 0)));
    v.push(entry("orange", (255, 168, 0)));
    v.push(entry("yellow", (255, 214, 53)));
    v.push(entry("pale yellow", (255, 248, 184)));
    v.push(entry("dark green", (0, 163, 104)));
    v.push(entry("green", (0, 204, 120)));
    v.push(entry("light green", (126, 237, 86)));
    v.push(entry("dark teal", (0, 117, 111)));
    v.push(entry("teal", (0, 158, 170)));
    v.push(entry("light teal", (0, 204, 192)));
    v.push(entry("dark blue", (36, 80, 164)));
    v.push(entry("blue", (54, 144, 234)));
    v.push(entry("light blue", (81, 233, 244)));
    v.push(entry("indigo", (73, 58, 193)));
    v.push(entry("periwinkle", (106, 92, 255)));
    v.push(entry("lavender", (148, 179, 255)));
    v.push(entry("dark purple", (129, 30, 159)));
    v.push(entry("purple", (180, 74, 192)));
    v.push(entry("pale purple", (228, 171, 255)));
    v.push(entry("magenta", (222, 16, 127)));
    v.push(entry("pink", (255, 56, 129)));
    v.push(entry("light pink", (255, 153, 170)));
    v.push(entry("dark brown", (109, 72, 47)));
    v.push(entry("brown", (156, 105, 38)));
    v.push(entry("beige", (255, 180, 112)));
    v.push(entry("black", (0, 0, 0)));
    v.push(entry("dark gray", (81, 82, 82)));
    v.push(entry("gray", (137, 141, 144)));
    v.push(entry("light gray", (212, 215, 217)));
    v.push(entry("white", (255, 255, 255)));
    v
}

/// No two palette entries share an RGB triple, so the triple is usable as a
/// lookup key for the index.
pub proof fn lemma_palette_distinct()
    ensures
        forall|i: int, j: int|
            0 <= i < 32 && 0 <= j < 32 && i != j ==> palette_rgb(i) != palette_rgb(j),
{
}

/// The palette's colors are pairwise distinct, stated of any sequence that is
/// the palette.
pub proof fn lemma_is_palette_distinct(s: Seq<PaletteColor>)
    requires
        is_palette(s),
    ensures
        forall|j1: int, j2: int|
            0 <= j1 < s.len() && 0 <= j2 < s.len() && j1 != j2
                ==> #[trigger] s[j1].rgb != #[trigger] s[j2].rgb,
{
    lemma_palette_distinct();
}

/// An RGB triple packed into a single integer, the key of the lookup table.
pub open spec fn rgb_key(c: (u8, u8, u8)) -> int {
    c.0 * 0x10000 + c.1 * 0x100 + c.2
}

fn rgb_key_exec(c: (u8, u8, u8)) -> (k: u32)
    ensures
        k as int == rgb_key(c),
{
    (c.0 as u32) * 0x10000 + (c.1 as u32) * 0x100 + (c.2 as u32)
}

/// Packing is injective: distinct triples get distinct keys.
pub proof fn lemma_rgb_key_injective(a: (u8, u8, u8), b: (u8, u8, u8))
    requires
        rgb_key(a) == rgb_key(b),
    ensures
        a == b,
{
}

/// The mapping an index table stands for: from an RGB triple to the palette
/// index stored under its packed key.
pub open spec fn abs_lookup(m: Map<u32, u8>) -> Map<(u8, u8, u8), u8> {
    Map::new(
        |c: (u8, u8, u8)| m.contains_key(rgb_key(c) as u32),
        |c: (u8, u8, u8)| m[rgb_key(c) as u32],
    )
}

/// What `build_lookup` promises of the table: a triple is mapped exactly when
/// it occurs in the palette, and it is mapped to its last occurrence (a later
/// duplicate silently overwrites an earlier entry).
pub open spec fn lookup_matches(m: Map<(u8, u8, u8), u8>, palette: Seq<PaletteColor>) -> bool {
    &&& forall|c: (u8, u8, u8)|
        #[trigger] m.contains_key(c) <==> exists|j: int| 0 <= j < palette.len() && #[trigger] palette[j].rgb == c
    &&& forall|c: (u8, u8, u8)| #[trigger] m.contains_key(c) ==> {
        &&& 0 <= m[c] < palette.len()
        &&& palette[m[c] as int].rgb == c
        &&& forall|j: int| m[c] < j < palette.len() ==> #[trigger] palette[j].rgb != c
    }
}

/// The RGB-to-index table built once from the palette.
pub struct ColorLookup {
    map: HashMap<u32, u8>,
}

impl View for ColorLookup {
    type V = Map<(u8, u8, u8), u8>;

    closed spec fn view(&self) -> Map<(u8, u8, u8), u8> {
        abs_lookup(self.map@)
    }
}

impl ColorLookup {
    /// The palette index stored for `rgb`, or `None` when no palette entry has
    /// that triple.
    pub fn get(&self, rgb: (u8, u8, u8)) -> (r: Option<u8>)
        ensures
            match r {
                Some(idx) => self@.contains_key(rgb) && idx == self@[rgb],
                None => !self@.contains_key(rgb),
            },
    {
        let key = rgb_key_exec(rgb);
        match self.map.get(&key) {
            Some(idx) => Some(*idx),
            None => None,
        }
    }
}

/// Build the RGB-to-index table in one pass over the palette, in order; a
/// later entry with the same triple overwrites an earlier one.
pub fn build_lookup(palette: &Vec<PaletteColor>) -> (r: ColorLookup)
    requires
        palette@.len() <= 256,
    ensures
        lookup_matches(r@, palette@),
{
    let mut map: HashMap<u32, u8> = HashMap::new();
    let mut i: usize = 0;
    while i < palette.len()
        invariant
            palette@.len() <= 256,
            i <= palette@.len(),
            lookup_matches(abs_lookup(map@), palette@.take(i as int)),
        decreases palette@.len() - i,
    {
        let rgb = palette[i].rgb;
        let key = rgb_key_exec(rgb);
        let ghost pre = abs_lookup(map@);
        map.insert(key, i as u8);
        proof {
            let post = abs_lookup(map@);
            assert forall|c: (u8, u8, u8)| #[trigger] post.contains_key(c) <==> (pre.contains_key(c)
                || c == rgb) by {
                if rgb_key(c) == rgb_key(rgb) {
                    lemma_rgb_key_injective(c, rgb);
                }
            }
            assert forall|c: (u8, u8, u8)| #[trigger] post.contains_key(c) && c != rgb implies post[c]
                == pre[c] by {
                if rgb_key(c) == rgb_key(rgb) {
                    lemma_rgb_key_injective(c, rgb);
                }
            }
            assert(post.contains_key(rgb) && post[rgb] == i as u8);
            assert(palette@.take(i + 1)[i as int].rgb == rgb);
            assert(forall|j: int| 0 <= j < i ==> palette@.take(i + 1)[j] == palette@.take(i as int)[j]);
        }
        i += 1;
    }
    proof {
        assert(palette@.take(palette@.len() as int) =~= palette@);
    }
    ColorLookup { map }
}

/// With pairwise-distinct palette colors, the table maps each palette color to
/// its own index: quantizing that exact color recovers the index.
pub proof fn lemma_lookup_finds_index(m: Map<(u8, u8, u8), u8>, palette: Seq<PaletteColor>, i: int)
    requires
        lookup_matches(m, palette),
        forall|j1: int, j2: int|
            0 <= j1 < palette.len() && 0 <= j2 < palette.len() && j1 != j2
                ==> #[trigger] palette[j1].rgb != #[trigger] palette[j2].rgb,
        0 <= i < palette.len(),
    ensures
        m.contains_key(palette[i].rgb),
        m[palette[i].rgb] == i as u8,
{
    let c = palette[i].rgb;
    assert(m.contains_key(c));
    let stored = m[c] as int;
    assert(palette[stored].rgb == c);
    if stored != i {
        assert(palette[stored].rgb != palette[i].rgb);
    }
}

} // verus!
