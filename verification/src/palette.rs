//! The palette of terminal colours, and the match of a colour to its nearest
//! entry.

use vstd::prelude::*;
use crate::color::{channel_gap, channel_gap_squared, distance_squared, gap_squared};
use crate::color::{lemma_distance_zero, Rgba, MAX_DISTANCE_SQUARED};

verus! {

/// One entry of a palette: a colour, and the code that makes a terminal show
/// it. The code is written out as it stands and never looked into.
pub struct CliPixel {
    pub code: String,
    pub rgba: Rgba,
}

/// What an entry is to the contracts: its code as a sequence of characters,
/// and its colour.
pub struct CliPixelView {
    pub code: Seq<char>,
    pub rgba: Rgba,
}

impl View for CliPixel {
    type V = CliPixelView;

    open spec fn view(&self) -> CliPixelView {
        CliPixelView { code: self.code@, rgba: self.rgba }
    }
}

/// Whether the entry at `index` is the match for `color`: no entry is nearer
/// to the colour, and every entry before it is strictly farther. So of
/// several entries at the same least distance the first one matches.
pub open spec fn is_closest(entries: Seq<CliPixelView>, color: Rgba, index: int) -> bool {
    &&& 0 <= index < entries.len()
    &&& forall|other: int|
        0 <= other < entries.len() ==> distance_squared(color, entries[index].rgba)
            <= distance_squared(color, #[trigger] entries[other].rgba)
    &&& forall|earlier: int|
        0 <= earlier < index ==> distance_squared(color, entries[index].rgba) < distance_squared(
            color,
            #[trigger] entries[earlier].rgba,
        )
}

/// The index of the entry that matches `color`. It is the one index that
/// `is_closest` holds of, whenever there is an entry at all.
pub open spec fn closest_index(entries: Seq<CliPixelView>, color: Rgba) -> int {
    choose|index: int| is_closest(entries, color, index)
}

/// The code of the entry that matches `color`.
pub open spec fn closest_code(entries: Seq<CliPixelView>, color: Rgba) -> Seq<char> {
    entries[closest_index(entries, color)].code
}

/// The eight colours of an ANSI terminal, each with the code that sets it as
/// the background: black, red, green, yellow, blue, magenta, cyan, white.
pub open spec fn ansi_entries() -> Seq<CliPixelView> {
    seq![
        CliPixelView { code: "\x1b[1;40m"@, rgba: Rgba { r: 0, g: 0, b: 0, a: 255 } },
        CliPixelView { code: "\x1b[1;41m"@, rgba: Rgba { r: 255, g: 0, b: 0, a: 255 } },
        CliPixelView { code: "\x1b[1;42m"@, rgba: Rgba { r: 0, g: 255, b: 0, a: 255 } },
        CliPixelView { code: "\x1b[1;43m"@, rgba: Rgba { r: 255, g: 255, b: 0, a: 255 } },
        CliPixelView { code: "\x1b[1;44m"@, rgba: Rgba { r: 0, g: 0, b: 255, a: 255 } },
        CliPixelView { code: "\x1b[1;45m"@, rgba: Rgba { r: 255, g: 0, b: 255, a: 255 } },
        CliPixelView { code: "\x1b[1;46m"@, rgba: Rgba { r: 0, g: 255, b: 255, a: 255 } },
        CliPixelView { code: "\x1b[1;47m"@, rgba: Rgba { r: 255, g: 255, b: 255, a: 255 } },
    ]
}

/// Where the match for `color` stands in the ANSI palette. The eight entries
/// are the corners of the colour cube, in an order that counts red as 1,
/// green as 2 and blue as 4; the nearest corner has each channel at the end
/// of its range that the colour's channel is nearer to.
pub open spec fn ansi_index(color: Rgba) -> int {
    let red: int = if color.r < 128 { 0 } else { 1 };
    let green: int = if color.g < 128 { 0 } else { 2 };
    let blue: int = if color.b < 128 { 0 } else { 4 };
    red + green + blue
}

impl CliPixel {
    /// An entry that shows `rgba` by writing `code`.
    pub fn new(code: String, rgba: Rgba) -> (entry: CliPixel)
        ensures
            entry@ == (CliPixelView { code: code@, rgba }),
    {
        CliPixel { code, rgba }
    }

    /// Computes the squared distance between two colours.
    pub fn distance_squared(left: &Rgba, right: &Rgba) -> (squared: u32)
        ensures
            squared == distance_squared(*left, *right),
            squared <= MAX_DISTANCE_SQUARED,
    {
        let red = gap_squared(left.r, right.r);
        let green = gap_squared(left.g, right.g);
        let blue = gap_squared(left.b, right.b);
        red + green + blue
    }
}

/// A palette: a fixed, ordered run of at least one entry.
pub struct Palette {
    entries: Vec<CliPixel>,
}

impl View for Palette {
    type V = Seq<CliPixelView>;

    closed spec fn view(&self) -> Seq<CliPixelView> {
        self.entries@.map_values(|entry: CliPixel| entry@)
    }
}

impl Palette {
    #[verifier::type_invariant]
    spec fn has_an_entry(self) -> bool {
        self.entries@.len() > 0
    }

    /// A palette of the given entries, in their order; `None` where there is
    /// no entry, since then nothing could match.
    pub fn new(entries: Vec<CliPixel>) -> (palette: Option<Palette>)
        ensures
            palette is None <==> entries@.len() == 0,
            palette matches Some(made) ==> made@ == entries@.map_values(|entry: CliPixel| entry@),
    {
        if entries.len() == 0 {
            None
        } else {
            Some(Palette { entries })
        }
    }

    /// The palette of the eight ANSI colours, as background codes.
    pub fn ansi() -> (palette: Palette)
        ensures
            palette@ == ansi_entries(),
    {
        let mut entries: Vec<CliPixel> = Vec::new();
        entries.push(CliPixel::new(String::from_str("\x1b[1;40m"), Rgba::new(0, 0, 0, 255)));
        entries.push(CliPixel::new(String::from_str("\x1b[1;41m"), Rgba::new(255, 0, 0, 255)));
        entries.push(CliPixel::new(String::from_str("\x1b[1;42m"), Rgba::new(0, 255, 0, 255)));
        entries.push(CliPixel::new(String::from_str("\x1b[1;43m"), Rgba::new(255, 255, 0, 255)));
        entries.push(CliPixel::new(String::from_str("\x1b[1;44m"), Rgba::new(0, 0, 255, 255)));
        entries.push(CliPixel::new(String::from_str("\x1b[1;45m"), Rgba::new(255, 0, 255, 255)));
        entries.push(CliPixel::new(String::from_str("\x1b[1;46m"), Rgba::new(0, 255, 255, 255)));
        entries.push(CliPixel::new(String::from_str("\x1b[1;47m"), Rgba::new(255, 255, 255, 255)));
        let palette = Palette { entries };
        assert(palette@ =~= ansi_entries());
        palette
    }

    /// The number of entries, which is never zero.
    pub fn len(&self) -> (count: usize)
        ensures
            count == self@.len(),
            count > 0,
    {
        proof {
            use_type_invariant(self);
        }
        self.entries.len()
    }

    /// The entry at `index`.
    pub fn entry(&self, index: usize) -> (entry: &CliPixel)
        requires
            index < self@.len(),
        ensures
            entry@ == self@[index as int],
    {
        &self.entries[index]
    }

    /// Finds the entry that matches `color` and returns its index.
    ///
    /// The entries are gone through once, in their order, and an entry takes
    /// the place of the best one so far only where it is strictly nearer.
    pub fn closest_index(&self, color: &Rgba) -> (index: usize)
        ensures
            is_closest(self@, *color, index as int),
            index == closest_index(self@, *color),
    {
        proof {
            use_type_invariant(self);
        }
        let mut closest_distance = CliPixel::distance_squared(color, &self.entries[0].rgba);
        let mut closest_index: usize = 0;
        let mut i: usize = 1;
        while i < self.entries.len()
            invariant
                1 <= i <= self.entries@.len(),
                self@.len() == self.entries@.len(),
                closest_distance == distance_squared(*color, self@[closest_index as int].rgba),
                is_closest(self@.take(i as int), *color, closest_index as int),
            decreases self.entries@.len() - i,
        {
            let current_distance = CliPixel::distance_squared(color, &self.entries[i].rgba);
            if current_distance < closest_distance {
                closest_distance = current_distance;
                closest_index = i;
            }
            i += 1;
        }
        proof {
            assert(self@.take(i as int) == self@);
            lemma_closest_unique(self@, *color, closest_index as int);
        }
        closest_index
    }

    /// Finds the entry that matches `color` and returns its code.
    pub fn closest(&self, color: &Rgba) -> (code: &String)
        ensures
            code@ == closest_code(self@, *color),
    {
        let index = self.closest_index(color);
        &self.entries[index].code
    }
}

/// At most one entry matches: an index that `is_closest` holds of is the one
/// that `closest_index` names.
pub proof fn lemma_closest_unique(entries: Seq<CliPixelView>, color: Rgba, index: int)
    requires
        is_closest(entries, color, index),
    ensures
        closest_index(entries, color) == index,
{
    let chosen = closest_index(entries, color);
    let to_index = distance_squared(color, entries[index].rgba);
    let to_chosen = distance_squared(color, entries[chosen].rgba);
    assert(is_closest(entries, color, chosen));
    assert(to_index <= to_chosen && to_chosen <= to_index);
}

/// Where there is an entry at all, one of them matches, and `closest_index`
/// names it.
pub proof fn lemma_closest_exists(entries: Seq<CliPixelView>, color: Rgba)
    requires
        entries.len() > 0,
    ensures
        is_closest(entries, color, closest_index(entries, color)),
{
    lemma_match_in_prefix(entries, color, entries.len() as int);
    assert(entries.take(entries.len() as int) == entries);
}

/// Among the first `count` entries one matches.
proof fn lemma_match_in_prefix(
    entries: Seq<CliPixelView>,
    color: Rgba,
    count: int,
) -> (index: int)
    requires
        0 < count <= entries.len(),
    ensures
        is_closest(entries.take(count), color, index),
    decreases count,
{
    if count == 1 {
        0
    } else {
        let best = lemma_match_in_prefix(entries, color, count - 1);
        let last = count - 1;
        assert(entries.take(last) == entries.take(count).take(last));
        if distance_squared(color, entries[last].rgba) < distance_squared(
            color,
            entries[best].rgba,
        ) {
            last
        } else {
            best
        }
    }
}

/// An entry with the colour's own red, green and blue matches it, whatever
/// the colour's alpha, unless an earlier entry has them too.
pub proof fn lemma_exact_match(entries: Seq<CliPixelView>, color: Rgba, index: int)
    requires
        0 <= index < entries.len(),
        entries[index].rgba.same_rgb(color),
        forall|earlier: int|
            0 <= earlier < index ==> !(#[trigger] entries[earlier]).rgba.same_rgb(color),
    ensures
        closest_index(entries, color) == index,
        closest_code(entries, color) == entries[index].code,
{
    lemma_distance_zero(color, entries[index].rgba);
    assert forall|earlier: int| 0 <= earlier < index implies distance_squared(
        color,
        entries[index].rgba,
    ) < distance_squared(color, #[trigger] entries[earlier].rgba) by {
        lemma_distance_zero(color, entries[earlier].rgba);
    }
    lemma_closest_unique(entries, color, index);
}

/// Of two entries equally far from the colour the later one never matches:
/// a tie goes to the entry that comes first.
pub proof fn lemma_tie_goes_to_earlier(
    entries: Seq<CliPixelView>,
    color: Rgba,
    earlier: int,
    later: int,
)
    requires
        0 <= earlier < later < entries.len(),
        distance_squared(color, entries[earlier].rgba) == distance_squared(
            color,
            entries[later].rgba,
        ),
    ensures
        closest_index(entries, color) != later,
{
    lemma_closest_exists(entries, color);
    if closest_index(entries, color) == later {
        assert(distance_squared(color, entries[later].rgba) < distance_squared(
            color,
            entries[earlier].rgba,
        ));
    }
}

/// A colour that is strictly nearer to one entry than to every other entry
/// matches that entry.
pub proof fn lemma_strictly_nearest_matches(entries: Seq<CliPixelView>, color: Rgba, index: int)
    requires
        0 <= index < entries.len(),
        forall|other: int|
            0 <= other < entries.len() && other != index ==> distance_squared(
                color,
                entries[index].rgba,
            ) < distance_squared(color, #[trigger] entries[other].rgba),
    ensures
        closest_index(entries, color) == index,
        closest_code(entries, color) == entries[index].code,
{
    lemma_closest_unique(entries, color, index);
}

/// A channel is strictly nearer to one end of its range than to the other:
/// to 0 below 128, to 255 from 128 on.
proof fn lemma_nearer_end(value: u8)
    ensures
        value < 128 ==> channel_gap_squared(value, 0) < channel_gap_squared(value, 255),
        value >= 128 ==> channel_gap_squared(value, 255) < channel_gap_squared(value, 0),
{
    let low = channel_gap(value, 0);
    let high = channel_gap(value, 255);
    assert(low < high ==> low * low < high * high) by (nonlinear_arith);
    assert(high < low ==> high * high < low * low) by (nonlinear_arith);
}

/// In the ANSI palette every colour has one nearest entry, strictly nearer
/// than the seven others, so no tie arises there; `ansi_index` names it.
pub proof fn lemma_ansi_closest(color: Rgba)
    ensures
        closest_index(ansi_entries(), color) == ansi_index(color),
        forall|other: int|
            0 <= other < 8 && other != ansi_index(color) ==> distance_squared(
                color,
                ansi_entries()[ansi_index(color)].rgba,
            ) < distance_squared(color, #[trigger] ansi_entries()[other].rgba),
{
    let entries = ansi_entries();
    let index = ansi_index(color);
    lemma_nearer_end(color.r);
    lemma_nearer_end(color.g);
    lemma_nearer_end(color.b);
    assert forall|other: int| 0 <= other < 8 && other != index implies distance_squared(
        color,
        entries[index].rgba,
    ) < distance_squared(color, #[trigger] entries[other].rgba) by {
        assert(other == 0 || other == 1 || other == 2 || other == 3 || other == 4 || other == 5
            || other == 6 || other == 7);
    }
    lemma_strictly_nearest_matches(entries, color, index);
}

/// Each colour of the ANSI palette matches its own entry, whatever alpha it
/// comes with.
pub proof fn lemma_ansi_exact_match(index: int, alpha: u8)
    requires
        0 <= index < 8,
    ensures
        ({
            let own = ansi_entries()[index].rgba;
            let color = Rgba { r: own.r, g: own.g, b: own.b, a: alpha };
            &&& closest_index(ansi_entries(), color) == index
            &&& closest_code(ansi_entries(), color) == ansi_entries()[index].code
        }),
{
    let own = ansi_entries()[index].rgba;
    lemma_ansi_closest(Rgba { r: own.r, g: own.g, b: own.b, a: alpha });
}

} // verus!
