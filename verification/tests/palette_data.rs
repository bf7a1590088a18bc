use placeplace::palette::{build_lookup, create_palette};

#[test]
fn palette_has_32_distinct_colors() {
    let palette = create_palette();
    assert_eq!(palette.len(), 32);
    for i in 0..palette.len() {
        for j in 0..palette.len() {
            if i != j {
                assert_ne!(palette[i].rgb, palette[j].rgb);
            }
        }
    }
    assert_eq!(palette[0].name, "burgundy");
    assert_eq!(palette[0].rgb, (109, 0, 26));
    assert_eq!(palette[2].name, "red");
    assert_eq!(palette[2].rgb, (255, 69, 0));
    assert_eq!(palette[27].name, "black");
    assert_eq!(palette[27].rgb, (0, 0, 0));
    assert_eq!(palette[31].name, "white");
    assert_eq!(palette[31].rgb, (255, 255, 255));
}

#[test]
fn lookup_maps_every_palette_color_to_its_index() {
    let palette = create_palette();
    let lookup = build_lookup(&palette);
    for (i, color) in palette.iter().enumerate() {
        assert_eq!(lookup.get(color.rgb), Some(i as u8));
    }
}

#[test]
fn lookup_misses_colors_outside_the_palette() {
    let palette = create_palette();
    let lookup = build_lookup(&palette);
    assert_eq!(lookup.get((1, 2, 3)), None);
    assert_eq!(lookup.get((255, 255, 254)), None);
}

#[test]
fn lookup_last_duplicate_wins() {
    let mut palette = create_palette();
    // A configuration defect, not a runtime error: a later entry with the
    // same triple silently overwrites the earlier mapping.
    let dup = placeplace::palette::PaletteColor { name: "white again".to_string(), rgb: (255, 255, 255) };
    palette.push(dup);
    let lookup = build_lookup(&palette);
    assert_eq!(lookup.get((255, 255, 255)), Some(32));
}
