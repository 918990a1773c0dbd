use ansi_art::color::{Rgba, MAX_DISTANCE_SQUARED};
use ansi_art::palette::{CliPixel, Palette};

const CODES: [&str; 8] = [
    "\x1b[1;40m", "\x1b[1;41m", "\x1b[1;42m", "\x1b[1;43m", "\x1b[1;44m", "\x1b[1;45m",
    "\x1b[1;46m", "\x1b[1;47m",
];

const CORNERS: [(u8, u8, u8); 8] = [
    (0, 0, 0),
    (255, 0, 0),
    (0, 255, 0),
    (255, 255, 0),
    (0, 0, 255),
    (255, 0, 255),
    (0, 255, 255),
    (255, 255, 255),
];

fn entry(code: &str, r: u8, g: u8, b: u8) -> CliPixel {
    CliPixel::new(String::from(code), Rgba::new(r, g, b, 255))
}

fn brute_force(palette: &Palette, color: &Rgba) -> usize {
    let mut best = 0;
    for index in 1..palette.len() {
        let here = CliPixel::distance_squared(color, &palette.entry(index).rgba);
        let there = CliPixel::distance_squared(color, &palette.entry(best).rgba);
        if here < there {
            best = index;
        }
    }
    best
}

#[test]
fn distance_squared_is_the_sum_of_squared_gaps() {
    let black = Rgba::new(0, 0, 0, 255);
    let white = Rgba::new(255, 255, 255, 255);
    let red = Rgba::new(255, 0, 0, 255);
    assert_eq!(CliPixel::distance_squared(&black, &white), 195075);
    assert_eq!(CliPixel::distance_squared(&black, &red), 65025);
    assert_eq!(CliPixel::distance_squared(&red, &white), 130050);
    assert_eq!(CliPixel::distance_squared(&Rgba::new(1, 2, 3, 0), &Rgba::new(4, 6, 15, 0)), 169);
    let near = Rgba::new(10, 200, 30, 0);
    assert_eq!(CliPixel::distance_squared(&near, &Rgba::new(7, 190, 90, 0)), 3709);
    assert_eq!(CliPixel::distance_squared(&red, &red), 0);
}

#[test]
fn distance_squared_orders_as_the_distance_does() {
    let from = Rgba::new(90, 14, 201, 255);
    let colors = [
        Rgba::new(0, 0, 0, 255),
        Rgba::new(91, 14, 201, 255),
        Rgba::new(90, 14, 200, 255),
        Rgba::new(255, 255, 255, 255),
        Rgba::new(12, 240, 77, 255),
    ];
    for left in colors.iter() {
        for right in colors.iter() {
            let squared_left = CliPixel::distance_squared(&from, left);
            let squared_right = CliPixel::distance_squared(&from, right);
            let root_left = f64::from(squared_left).sqrt();
            let root_right = f64::from(squared_right).sqrt();
            assert_eq!(squared_left < squared_right, root_left < root_right);
            assert_eq!(squared_left == squared_right, root_left == root_right);
        }
    }
}

#[test]
fn square_root_is_strictly_increasing_over_all_distances() {
    let mut below = f64::from(0u32).sqrt();
    for squared in 1..=MAX_DISTANCE_SQUARED {
        let here = f64::from(squared).sqrt();
        assert!(below < here);
        below = here;
    }
    assert_eq!(MAX_DISTANCE_SQUARED, 3 * 255 * 255);
}

#[test]
fn distance_squared_ignores_alpha_and_order() {
    let left = Rgba::new(12, 34, 56, 0);
    let right = Rgba::new(200, 100, 0, 255);
    let left_opaque = Rgba::new(12, 34, 56, 255);
    assert_eq!(
        CliPixel::distance_squared(&left, &right),
        CliPixel::distance_squared(&left_opaque, &right)
    );
    assert_eq!(
        CliPixel::distance_squared(&left, &right),
        CliPixel::distance_squared(&right, &left)
    );
    assert_eq!(CliPixel::distance_squared(&left, &left_opaque), 0);
}

#[test]
fn new_entry_keeps_code_and_colour() {
    let made = CliPixel::new(String::from("\x1b[1;41m"), Rgba::new(255, 0, 0, 1));
    assert_eq!(made.code, "\x1b[1;41m");
    assert_eq!(made.rgba, Rgba::new(255, 0, 0, 1));
}

#[test]
fn ansi_palette_has_the_eight_colours_in_order() {
    let palette = Palette::ansi();
    assert_eq!(palette.len(), 8);
    for index in 0..8 {
        let (r, g, b) = CORNERS[index];
        assert_eq!(palette.entry(index).code, CODES[index]);
        assert_eq!(palette.entry(index).rgba.r, r);
        assert_eq!(palette.entry(index).rgba.g, g);
        assert_eq!(palette.entry(index).rgba.b, b);
    }
}

#[test]
fn empty_palette_is_refused() {
    assert!(Palette::new(Vec::new()).is_none());
}

#[test]
fn palette_of_one_entry_matches_everything_to_it() {
    let palette = Palette::new(vec![entry("only", 10, 20, 30)]).unwrap();
    assert_eq!(palette.len(), 1);
    assert_eq!(palette.closest(&Rgba::new(0, 0, 0, 0)), "only");
    assert_eq!(palette.closest(&Rgba::new(255, 255, 255, 255)), "only");
    assert_eq!(palette.closest_index(&Rgba::new(10, 20, 30, 7)), 0);
}

#[test]
fn new_palette_keeps_the_entries_in_order() {
    let palette = Palette::new(vec![entry("a", 1, 2, 3), entry("b", 4, 5, 6), entry("c", 7, 8, 9)])
        .unwrap();
    assert_eq!(palette.len(), 3);
    assert_eq!(palette.entry(0).code, "a");
    assert_eq!(palette.entry(1).code, "b");
    assert_eq!(palette.entry(2).code, "c");
    assert_eq!(palette.entry(2).rgba, Rgba::new(7, 8, 9, 255));
}

#[test]
fn each_ansi_colour_matches_its_own_entry() {
    let palette = Palette::ansi();
    for index in 0..8 {
        let (r, g, b) = CORNERS[index];
        for &alpha in [0u8, 1, 128, 255].iter() {
            let color = Rgba::new(r, g, b, alpha);
            assert_eq!(palette.closest_index(&color), index);
            assert_eq!(palette.closest(&color), CODES[index]);
        }
    }
}

#[test]
fn pure_red_maps_to_the_red_code() {
    let palette = Palette::ansi();
    assert_eq!(palette.closest(&Rgba::new(255, 0, 0, 255)), "\x1b[1;41m");
    assert_eq!(palette.closest(&Rgba::new(255, 0, 0, 0)), "\x1b[1;41m");
}

#[test]
fn tie_goes_to_the_entry_declared_first() {
    let gray = Rgba::new(127, 127, 127, 255);
    let dark_first = Palette::new(vec![entry("dark", 0, 0, 0), entry("light", 254, 254, 254)])
        .unwrap();
    let light_first = Palette::new(vec![entry("light", 254, 254, 254), entry("dark", 0, 0, 0)])
        .unwrap();
    assert_eq!(
        CliPixel::distance_squared(&gray, &dark_first.entry(0).rgba),
        CliPixel::distance_squared(&gray, &dark_first.entry(1).rgba)
    );
    for _ in 0..5 {
        assert_eq!(dark_first.closest(&gray), "dark");
        assert_eq!(dark_first.closest_index(&gray), 0);
        assert_eq!(light_first.closest(&gray), "light");
        assert_eq!(light_first.closest_index(&gray), 0);
    }
}

#[test]
fn tie_on_one_axis_goes_to_the_entry_declared_first() {
    let palette = Palette::new(vec![
        entry("far", 255, 255, 255),
        entry("low", 100, 0, 0),
        entry("high", 110, 0, 0),
        entry("same as low", 100, 0, 0),
    ])
    .unwrap();
    assert_eq!(palette.closest(&Rgba::new(105, 0, 0, 255)), "low");
    assert_eq!(palette.closest(&Rgba::new(100, 0, 0, 255)), "low");
    assert_eq!(palette.closest(&Rgba::new(106, 0, 0, 255)), "high");
}

#[test]
fn later_entry_wins_only_when_strictly_nearer() {
    let palette = Palette::new(vec![entry("first", 50, 50, 50), entry("second", 60, 60, 60)])
        .unwrap();
    assert_eq!(palette.closest(&Rgba::new(55, 55, 55, 255)), "first");
    assert_eq!(palette.closest(&Rgba::new(56, 55, 55, 255)), "second");
    assert_eq!(palette.closest(&Rgba::new(54, 55, 55, 255)), "first");
}

#[test]
fn moving_nearer_to_an_entry_yields_that_entry() {
    let palette = Palette::ansi();
    // (100, 100, 0) is as far from red as from green, and nearest to black.
    assert_eq!(palette.closest(&Rgba::new(100, 100, 0, 255)), CODES[0]);
    // Moved towards red and away from every other entry.
    assert_eq!(palette.closest(&Rgba::new(200, 60, 0, 255)), CODES[1]);
    assert_eq!(palette.closest(&Rgba::new(250, 10, 5, 255)), CODES[1]);
    // Moved towards green instead.
    assert_eq!(palette.closest(&Rgba::new(60, 200, 0, 255)), CODES[2]);
    // Both high: yellow.
    assert_eq!(palette.closest(&Rgba::new(200, 200, 0, 255)), CODES[3]);
}

#[test]
fn ansi_match_turns_at_the_middle_of_each_channel() {
    let palette = Palette::ansi();
    assert_eq!(palette.closest_index(&Rgba::new(127, 127, 127, 255)), 0);
    assert_eq!(palette.closest_index(&Rgba::new(128, 127, 127, 255)), 1);
    assert_eq!(palette.closest_index(&Rgba::new(127, 128, 127, 255)), 2);
    assert_eq!(palette.closest_index(&Rgba::new(127, 127, 128, 255)), 4);
    assert_eq!(palette.closest_index(&Rgba::new(128, 128, 128, 255)), 7);
}

#[test]
fn ansi_match_is_the_nearest_corner_for_a_sweep_of_colours() {
    let palette = Palette::ansi();
    let steps = [0u8, 1, 50, 126, 127, 128, 129, 200, 254, 255];
    for &r in steps.iter() {
        for &g in steps.iter() {
            for &b in steps.iter() {
                let color = Rgba::new(r, g, b, 255);
                let corner = usize::from(r >= 128) + 2 * usize::from(g >= 128)
                    + 4 * usize::from(b >= 128);
                assert_eq!(palette.closest_index(&color), corner);
                assert_eq!(palette.closest_index(&color), brute_force(&palette, &color));
                assert_eq!(palette.closest(&color), CODES[corner]);
            }
        }
    }
}

#[test]
fn closest_is_the_first_of_the_nearest_in_any_palette() {
    let palette = Palette::new(vec![
        entry("0", 10, 10, 10),
        entry("1", 200, 10, 10),
        entry("2", 10, 10, 10),
        entry("3", 90, 90, 90),
        entry("4", 200, 10, 10),
    ])
    .unwrap();
    let steps = [0u8, 10, 50, 90, 105, 150, 200, 255];
    for &r in steps.iter() {
        for &g in steps.iter() {
            let color = Rgba::new(r, g, 10, 255);
            let index = palette.closest_index(&color);
            assert_eq!(index, brute_force(&palette, &color));
            let best = CliPixel::distance_squared(&color, &palette.entry(index).rgba);
            for other in 0..palette.len() {
                let here = CliPixel::distance_squared(&color, &palette.entry(other).rgba);
                assert!(best <= here);
                if other < index {
                    assert!(best < here);
                }
            }
            assert_eq!(palette.closest(&color), &palette.entry(index).code);
        }
    }
}
