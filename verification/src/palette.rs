//! Intensity levels and the colour tables that display them.

use crate::text::same_text;
use vstd::prelude::*;

verus! {

/// An RGB colour.
pub type Color = (u8, u8, u8);

/// Activity below this many seconds is treated as noise.
pub const NOISE_FLOOR_SECONDS: u32 = 60;

/// The intensity level of a day with `seconds` of activity, when the busiest
/// day of the rendered range has `max_seconds` and the three thresholds are
/// percentages of that maximum.
///
/// The ratio `seconds / max_seconds` is compared with `threshold / 100`
/// exactly, by cross-multiplication.
pub open spec fn level_of(seconds: nat, max_seconds: nat, thresholds: Seq<u32>) -> nat {
    if seconds < NOISE_FLOOR_SECONDS || max_seconds == 0 {
        0
    } else if seconds * 100 >= thresholds[0] * max_seconds {
        4
    } else if seconds * 100 >= thresholds[1] * max_seconds {
        3
    } else if seconds * 100 >= thresholds[2] * max_seconds {
        2
    } else {
        1
    }
}

/// Computes the intensity level, from 0 to 4, of one day.
pub fn color_level(seconds: u32, max_seconds: u32, thresholds: &[u32]) -> (level: usize)
    requires
        thresholds@.len() >= 3,
    ensures
        level == level_of(seconds as nat, max_seconds as nat, thresholds@),
        level <= 4,
        seconds < NOISE_FLOOR_SECONDS ==> level == 0,
        max_seconds == 0 ==> level == 0,
{
    if seconds < NOISE_FLOOR_SECONDS || max_seconds == 0 {
        return 0;
    }
    let scaled: u64 = seconds as u64 * 100;
    let max: u64 = max_seconds as u64;
    assert(thresholds@[0] * max_seconds <= 0xffff_ffff * 0xffff_ffff) by (nonlinear_arith)
        requires
            thresholds@[0] <= 0xffff_ffff,
            max_seconds <= 0xffff_ffff,
    ;
    assert(thresholds@[1] * max_seconds <= 0xffff_ffff * 0xffff_ffff) by (nonlinear_arith)
        requires
            thresholds@[1] <= 0xffff_ffff,
            max_seconds <= 0xffff_ffff,
    ;
    assert(thresholds@[2] * max_seconds <= 0xffff_ffff * 0xffff_ffff) by (nonlinear_arith)
        requires
            thresholds@[2] <= 0xffff_ffff,
            max_seconds <= 0xffff_ffff,
    ;
    if scaled >= thresholds[0] as u64 * max {
        4
    } else if scaled >= thresholds[1] as u64 * max {
        3
    } else if scaled >= thresholds[2] as u64 * max {
        2
    } else {
        1
    }
}

/// Raising the seconds of a day, with the maximum and the thresholds fixed,
/// never lowers its level.
pub proof fn lemma_level_monotonic(
    fewer: nat,
    more: nat,
    max_seconds: nat,
    thresholds: Seq<u32>,
)
    requires
        fewer <= more,
    ensures
        level_of(fewer, max_seconds, thresholds) <= level_of(more, max_seconds, thresholds),
{
}

/// A named table of five colours, one for each level from 0 to 4.
#[derive(Clone, Copy, Debug)]
pub struct Palette {
    pub name: &'static str,
    pub colors: [Color; 5],
}

impl Palette {
    /// The colour of a level.
    pub fn get_color(&self, level: usize) -> (color: Color)
        requires
            level < 5,
        ensures
            color == self.colors@[level as int],
    {
        self.colors[level]
    }

    /// The colour of a day with `value` seconds of activity, when the busiest
    /// day has `max` seconds.
    pub fn calculate_color(&self, value: u32, max: u32, ranges: &[u32]) -> (color: Color)
        requires
            ranges@.len() >= 3,
        ensures
            color == self.colors@[level_of(value as nat, max as nat, ranges@) as int],
    {
        let level = color_level(value, max, ranges);
        self.get_color(level)
    }
}

/// The colours of the theme `dark`.
pub open spec fn dark_colors() -> Seq<Color> {
    seq![(22u8, 27u8, 34u8), (0u8, 92u8, 46u8), (0u8, 130u8, 60u8), (57u8, 166u8, 84u8), (
        112u8,
        201u8,
        133u8,
    )]
}

/// The colours of the theme `light`.
pub open spec fn light_colors() -> Seq<Color> {
    seq![
        (235u8, 237u8, 240u8),
        (155u8, 233u8, 168u8),
        (64u8, 196u8, 99u8),
        (48u8, 161u8, 78u8),
        (33u8, 110u8, 57u8),
    ]
}

/// The colours of the theme `catppuccin_light`.
pub open spec fn catppuccin_light_colors() -> Seq<Color> {
    seq![
        (204u8, 208u8, 218u8),
        (64u8, 160u8, 43u8),
        (223u8, 142u8, 29u8),
        (254u8, 100u8, 11u8),
        (210u8, 15u8, 57u8),
    ]
}

/// The colours of the theme `catppuccin_dark`.
pub open spec fn catppuccin_dark_colors() -> Seq<Color> {
    seq![
        (49u8, 50u8, 68u8),
        (166u8, 227u8, 161u8),
        (249u8, 226u8, 175u8),
        (250u8, 179u8, 135u8),
        (243u8, 139u8, 168u8),
    ]
}

/// The theme that is used where no other is chosen.
pub fn dark_palette() -> (palette: Palette)
    ensures
        palette.name@ == "dark"@,
        palette.colors@ == dark_colors(),
{
    let colors: [Color; 5] = [(22, 27, 34), (0, 92, 46), (0, 130, 60), (57, 166, 84), (
        112,
        201,
        133,
    )];
    assert(colors@ =~= dark_colors());
    Palette { name: "dark", colors }
}

/// The theme `light`.
pub fn light_palette() -> (palette: Palette)
    ensures
        palette.name@ == "light"@,
        palette.colors@ == light_colors(),
{
    let colors: [Color; 5] = [
        (235, 237, 240),
        (155, 233, 168),
        (64, 196, 99),
        (48, 161, 78),
        (33, 110, 57),
    ];
    assert(colors@ =~= light_colors());
    Palette { name: "light", colors }
}

/// The theme `catppuccin_light`.
pub fn catppuccin_light_palette() -> (palette: Palette)
    ensures
        palette.name@ == "catppuccin_light"@,
        palette.colors@ == catppuccin_light_colors(),
{
    let colors: [Color; 5] = [
        (204, 208, 218),
        (64, 160, 43),
        (223, 142, 29),
        (254, 100, 11),
        (210, 15, 57),
    ];
    assert(colors@ =~= catppuccin_light_colors());
    Palette { name: "catppuccin_light", colors }
}

/// The theme `catppuccin_dark`.
pub fn catppuccin_dark_palette() -> (palette: Palette)
    ensures
        palette.name@ == "catppuccin_dark"@,
        palette.colors@ == catppuccin_dark_colors(),
{
    let colors: [Color; 5] = [
        (49, 50, 68),
        (166, 227, 161),
        (249, 226, 175),
        (250, 179, 135),
        (243, 139, 168),
    ];
    assert(colors@ =~= catppuccin_dark_colors());
    Palette { name: "catppuccin_dark", colors }
}

/// The themes that come with the library, the default one first.
pub fn builtin_palettes() -> (palettes: Vec<Palette>)
    ensures
        palettes@.len() == 4,
        palettes@[0].name@ == "dark"@ && palettes@[0].colors@ == dark_colors(),
        palettes@[1].name@ == "light"@ && palettes@[1].colors@ == light_colors(),
        palettes@[2].name@ == "catppuccin_light"@ && palettes@[2].colors@
            == catppuccin_light_colors(),
        palettes@[3].name@ == "catppuccin_dark"@ && palettes@[3].colors@
            == catppuccin_dark_colors(),
{
    let mut palettes: Vec<Palette> = Vec::new();
    palettes.push(dark_palette());
    palettes.push(light_palette());
    palettes.push(catppuccin_light_palette());
    palettes.push(catppuccin_dark_palette());
    palettes
}

/// Where the first palette called `name` stands in `palettes`, looking from
/// `from` on; the length of `palettes` where there is none.
pub open spec fn palette_index(palettes: Seq<Palette>, name: Seq<char>, from: int) -> int
    decreases palettes.len() - from,
{
    if from >= palettes.len() {
        palettes.len() as int
    } else if palettes[from].name@ == name {
        from
    } else {
        palette_index(palettes, name, from + 1)
    }
}

/// Picks the first palette called `name`, or the dark theme where
/// `palettes` has none of that name.
pub fn get_palette(palettes: &[Palette], name: &String) -> (palette: Palette)
    ensures
        ({
            let at = palette_index(palettes@, name@, 0);
            if at < palettes@.len() {
                palette == palettes@[at]
            } else {
                palette.name@ == "dark"@ && palette.colors@ == dark_colors()
            }
        }),
{
    let mut i: usize = 0;
    while i < palettes.len()
        invariant
            i <= palettes@.len(),
            palette_index(palettes@, name@, 0) == palette_index(palettes@, name@, i as int),
        decreases palettes@.len() - i,
    {
        if same_text(palettes[i].name, name.as_str()) {
            return palettes[i];
        }
        i = i + 1;
    }
    dark_palette()
}

/// The colours that a theme name stands for: those of the theme of that
/// name, and those of the dark theme for any other name.
pub open spec fn theme_colors(theme: Seq<char>) -> Seq<Color> {
    if theme == "light"@ {
        light_colors()
    } else if theme == "catppuccin_light"@ {
        catppuccin_light_colors()
    } else if theme == "catppuccin_dark"@ {
        catppuccin_dark_colors()
    } else {
        dark_colors()
    }
}

/// The name of the theme that a theme name stands for: itself where the
/// library has a theme of that name, else `dark`.
pub open spec fn theme_name(theme: Seq<char>) -> Seq<char> {
    if theme == "light"@ || theme == "catppuccin_light"@ || theme == "catppuccin_dark"@ {
        theme
    } else {
        "dark"@
    }
}

/// Picks the palette of a theme among those that come with the library.
pub fn theme_palette(theme: &String) -> (palette: Palette)
    ensures
        palette.name@ == theme_name(theme@),
        palette.colors@ == theme_colors(theme@),
        palette.colors@.len() == 5,
{
    let palettes = builtin_palettes();
    let palette = get_palette(palettes.as_slice(), theme);
    proof {
        reveal_strlit("dark");
        reveal_strlit("light");
        reveal_strlit("catppuccin_light");
        reveal_strlit("catppuccin_dark");
        reveal_with_fuel(palette_index, 5);
        assert("dark"@.len() == 4 && "light"@.len() == 5);
        assert("catppuccin_light"@.len() == 16 && "catppuccin_dark"@.len() == 15);
        let at = palette_index(palettes@, theme@, 0);
        if theme@ == "light"@ {
            assert(at == 1);
        } else if theme@ == "catppuccin_light"@ {
            assert(at == 2);
        } else if theme@ == "catppuccin_dark"@ {
            assert(at == 3);
        } else if theme@ == "dark"@ {
            assert(at == 0);
        } else {
            assert(at == 4);
        }
    }
    palette
}

/// The character of a hexadecimal digit, in lower case.
pub open spec fn hex_char(digit: nat) -> char {
    if digit < 10 {
        crate::text::digit_char(digit)
    } else if digit == 10 {
        'a'
    } else if digit == 11 {
        'b'
    } else if digit == 12 {
        'c'
    } else if digit == 13 {
        'd'
    } else if digit == 14 {
        'e'
    } else {
        'f'
    }
}

/// A colour as `#rrggbb`.
pub open spec fn color_text(color: Color) -> Seq<char> {
    seq![
        '#',
        hex_char(color.0 as nat / 16),
        hex_char(color.0 as nat % 16),
        hex_char(color.1 as nat / 16),
        hex_char(color.1 as nat % 16),
        hex_char(color.2 as nat / 16),
        hex_char(color.2 as nat % 16),
    ]
}

/// The text of one hexadecimal digit.
fn hex_text(digit: u8) -> (text: &'static str)
    requires
        digit < 16,
    ensures
        text@ == seq![hex_char(digit as nat)],
{
    proof {
        reveal_strlit("0");
        reveal_strlit("1");
        reveal_strlit("2");
        reveal_strlit("3");
        reveal_strlit("4");
        reveal_strlit("5");
        reveal_strlit("6");
        reveal_strlit("7");
        reveal_strlit("8");
        reveal_strlit("9");
        reveal_strlit("a");
        reveal_strlit("b");
        reveal_strlit("c");
        reveal_strlit("d");
        reveal_strlit("e");
        reveal_strlit("f");
    }
    let text = if digit == 0 {
        "0"
    } else if digit == 1 {
        "1"
    } else if digit == 2 {
        "2"
    } else if digit == 3 {
        "3"
    } else if digit == 4 {
        "4"
    } else if digit == 5 {
        "5"
    } else if digit == 6 {
        "6"
    } else if digit == 7 {
        "7"
    } else if digit == 8 {
        "8"
    } else if digit == 9 {
        "9"
    } else if digit == 10 {
        "a"
    } else if digit == 11 {
        "b"
    } else if digit == 12 {
        "c"
    } else if digit == 13 {
        "d"
    } else if digit == 14 {
        "e"
    } else {
        "f"
    };
    assert(text@ =~= seq![hex_char(digit as nat)]);
    text
}

/// Writes a colour as `#rrggbb`, in lower case.
pub fn color_hex(color: Color) -> (text: String)
    ensures
        text@ == color_text(color),
{
    proof {
        reveal_strlit("#");
    }
    let mut text = String::from_str("#");
    text.append(hex_text(color.0 / 16));
    text.append(hex_text(color.0 % 16));
    text.append(hex_text(color.1 / 16));
    text.append(hex_text(color.1 % 16));
    text.append(hex_text(color.2 / 16));
    text.append(hex_text(color.2 % 16));
    assert(text@ =~= color_text(color));
    text
}

} // verus!
