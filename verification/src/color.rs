//! Display colors, and their names as the configuration files write them.
use vstd::prelude::*;

use crate::text::{spec_to_lowercase, str_eq, to_lowercase};

verus! {

/// A terminal color: one of the sixteen named ones, an RGB triple in the
/// terminal's 6x6x6 cube, or the terminal's default.
#[derive(Debug, Clone, Copy, PartialEq, Eq, Structural)]
pub enum Color {
    Black,
    Red,
    Green,
    Yellow,
    Blue,
    Magenta,
    Cyan,
    White,
    BrightBlack,
    BrightRed,
    BrightGreen,
    BrightYellow,
    BrightBlue,
    BrightMagenta,
    BrightCyan,
    BrightWhite,
    RGB(u8, u8, u8),
    Reset,
}

/// The color that a lowercase name stands for, if any.
pub open spec fn spec_color_of_lowercase(s: Seq<char>) -> Option<Color> {
    if s == "black"@ { Some(Color::Black) }
    else if s == "red"@ { Some(Color::Red) }
    else if s == "green"@ { Some(Color::Green) }
    else if s == "yellow"@ { Some(Color::Yellow) }
    else if s == "blue"@ { Some(Color::Blue) }
    else if s == "magenta"@ { Some(Color::Magenta) }
    else if s == "cyan"@ { Some(Color::Cyan) }
    else if s == "white"@ { Some(Color::White) }
    else if s == "brightblack"@ { Some(Color::BrightBlack) }
    else if s == "brightred"@ { Some(Color::BrightRed) }
    else if s == "brightgreen"@ { Some(Color::BrightGreen) }
    else if s == "brightyellow"@ { Some(Color::BrightYellow) }
    else if s == "brightblue"@ { Some(Color::BrightBlue) }
    else if s == "brightmagenta"@ { Some(Color::BrightMagenta) }
    else if s == "brightcyan"@ { Some(Color::BrightCyan) }
    else if s == "brightwhite"@ { Some(Color::BrightWhite) }
    else if s == "reset"@ { Some(Color::Reset) }
    else { None }
}

/// The color that a capitalised name, as the layout file writes it, stands for.
pub open spec fn spec_color_of_name(s: Seq<char>) -> Option<Color> {
    if s == "Black"@ { Some(Color::Black) }
    else if s == "Red"@ { Some(Color::Red) }
    else if s == "Green"@ { Some(Color::Green) }
    else if s == "Yellow"@ { Some(Color::Yellow) }
    else if s == "Blue"@ { Some(Color::Blue) }
    else if s == "Magenta"@ { Some(Color::Magenta) }
    else if s == "Cyan"@ { Some(Color::Cyan) }
    else if s == "White"@ { Some(Color::White) }
    else if s == "BrightBlack"@ { Some(Color::BrightBlack) }
    else if s == "BrightRed"@ { Some(Color::BrightRed) }
    else if s == "BrightGreen"@ { Some(Color::BrightGreen) }
    else if s == "BrightYellow"@ { Some(Color::BrightYellow) }
    else if s == "BrightBlue"@ { Some(Color::BrightBlue) }
    else if s == "BrightMagenta"@ { Some(Color::BrightMagenta) }
    else if s == "BrightCyan"@ { Some(Color::BrightCyan) }
    else if s == "BrightWhite"@ { Some(Color::BrightWhite) }
    else if s == "Reset"@ { Some(Color::Reset) }
    else { None }
}

/// The lowercase name of a named color, as `sbrc` and commands write it.
pub open spec fn lowercase_name(c: Color) -> Seq<char> {
    match c {
        Color::Black => "black"@,
        Color::Red => "red"@,
        Color::Green => "green"@,
        Color::Yellow => "yellow"@,
        Color::Blue => "blue"@,
        Color::Magenta => "magenta"@,
        Color::Cyan => "cyan"@,
        Color::White => "white"@,
        Color::BrightBlack => "brightblack"@,
        Color::BrightRed => "brightred"@,
        Color::BrightGreen => "brightgreen"@,
        Color::BrightYellow => "brightyellow"@,
        Color::BrightBlue => "brightblue"@,
        Color::BrightMagenta => "brightmagenta"@,
        Color::BrightCyan => "brightcyan"@,
        Color::BrightWhite => "brightwhite"@,
        Color::Reset => "reset"@,
        Color::RGB(_, _, _) => Seq::empty(),
    }
}

/// The capitalised name of a named color, as the layout file writes it.
pub open spec fn capitalised_name(c: Color) -> Seq<char> {
    match c {
        Color::Black => "Black"@,
        Color::Red => "Red"@,
        Color::Green => "Green"@,
        Color::Yellow => "Yellow"@,
        Color::Blue => "Blue"@,
        Color::Magenta => "Magenta"@,
        Color::Cyan => "Cyan"@,
        Color::White => "White"@,
        Color::BrightBlack => "BrightBlack"@,
        Color::BrightRed => "BrightRed"@,
        Color::BrightGreen => "BrightGreen"@,
        Color::BrightYellow => "BrightYellow"@,
        Color::BrightBlue => "BrightBlue"@,
        Color::BrightMagenta => "BrightMagenta"@,
        Color::BrightCyan => "BrightCyan"@,
        Color::BrightWhite => "BrightWhite"@,
        Color::Reset => "Reset"@,
        Color::RGB(_, _, _) => Seq::empty(),
    }
}

/// Reading a color's own lowercase name gives that color back, and no two
/// names give the same color.
pub proof fn law_lowercase_names(c: Color, s: Seq<char>, t: Seq<char>)
    ensures
        !(c is RGB) ==> spec_color_of_lowercase(lowercase_name(c)) == Some(c),
        spec_color_of_lowercase(s) is Some && spec_color_of_lowercase(s) == spec_color_of_lowercase(t) ==> s == t,
        spec_color_of_lowercase(s) matches Some(d) ==> s == lowercase_name(d),
{
    reveal_strlit("black");
    reveal_strlit("red");
    reveal_strlit("green");
    reveal_strlit("yellow");
    reveal_strlit("blue");
    reveal_strlit("magenta");
    reveal_strlit("cyan");
    reveal_strlit("white");
    reveal_strlit("brightblack");
    reveal_strlit("brightred");
    reveal_strlit("brightgreen");
    reveal_strlit("brightyellow");
    reveal_strlit("brightblue");
    reveal_strlit("brightmagenta");
    reveal_strlit("brightcyan");
    reveal_strlit("brightwhite");
    reveal_strlit("reset");
    assert("black"@.len() == 5 && "black"@[0] == 'b');
    assert("red"@.len() == 3 && "red"@[0] == 'r');
    assert("green"@.len() == 5 && "green"@[0] == 'g');
    assert("yellow"@.len() == 6 && "yellow"@[0] == 'y');
    assert("blue"@.len() == 4 && "blue"@[0] == 'b');
    assert("magenta"@.len() == 7 && "magenta"@[0] == 'm' && "magenta"@[6] == 'a');
    assert("cyan"@.len() == 4 && "cyan"@[0] == 'c');
    assert("white"@.len() == 5 && "white"@[0] == 'w');
    assert("brightblack"@.len() == 11 && "brightblack"@[0] == 'b' && "brightblack"@[6] == 'b');
    assert("brightred"@.len() == 9 && "brightred"@[0] == 'b' && "brightred"@[6] == 'r');
    assert("brightgreen"@.len() == 11 && "brightgreen"@[0] == 'b' && "brightgreen"@[6] == 'g');
    assert("brightyellow"@.len() == 12 && "brightyellow"@[0] == 'b' && "brightyellow"@[6] == 'y');
    assert("brightblue"@.len() == 10 && "brightblue"@[0] == 'b' && "brightblue"@[6] == 'b');
    assert("brightmagenta"@.len() == 13 && "brightmagenta"@[0] == 'b' && "brightmagenta"@[6] == 'm');
    assert("brightcyan"@.len() == 10 && "brightcyan"@[0] == 'b' && "brightcyan"@[6] == 'c');
    assert("brightwhite"@.len() == 11 && "brightwhite"@[0] == 'b' && "brightwhite"@[6] == 'w');
    assert("reset"@.len() == 5 && "reset"@[0] == 'r');
}

/// Reading a color's own capitalised name gives that color back, and no
/// two names give the same color.
pub proof fn law_capitalised_names(c: Color, s: Seq<char>, t: Seq<char>)
    ensures
        !(c is RGB) ==> spec_color_of_name(capitalised_name(c)) == Some(c),
        spec_color_of_name(s) is Some && spec_color_of_name(s) == spec_color_of_name(t) ==> s == t,
        spec_color_of_name(s) matches Some(d) ==> s == capitalised_name(d),
{
    reveal_strlit("Black");
    reveal_strlit("Red");
    reveal_strlit("Green");
    reveal_strlit("Yellow");
    reveal_strlit("Blue");
    reveal_strlit("Magenta");
    reveal_strlit("Cyan");
    reveal_strlit("White");
    reveal_strlit("BrightBlack");
    reveal_strlit("BrightRed");
    reveal_strlit("BrightGreen");
    reveal_strlit("BrightYellow");
    reveal_strlit("BrightBlue");
    reveal_strlit("BrightMagenta");
    reveal_strlit("BrightCyan");
    reveal_strlit("BrightWhite");
    reveal_strlit("Reset");
    assert("Black"@.len() == 5 && "Black"@[0] == 'B');
    assert("Red"@.len() == 3 && "Red"@[0] == 'R');
    assert("Green"@.len() == 5 && "Green"@[0] == 'G');
    assert("Yellow"@.len() == 6 && "Yellow"@[0] == 'Y');
    assert("Blue"@.len() == 4 && "Blue"@[0] == 'B');
    assert("Magenta"@.len() == 7 && "Magenta"@[0] == 'M' && "Magenta"@[6] == 'a');
    assert("Cyan"@.len() == 4 && "Cyan"@[0] == 'C');
    assert("White"@.len() == 5 && "White"@[0] == 'W');
    assert("BrightBlack"@.len() == 11 && "BrightBlack"@[0] == 'B' && "BrightBlack"@[6] == 'B');
    assert("BrightRed"@.len() == 9 && "BrightRed"@[0] == 'B' && "BrightRed"@[6] == 'R');
    assert("BrightGreen"@.len() == 11 && "BrightGreen"@[0] == 'B' && "BrightGreen"@[6] == 'G');
    assert("BrightYellow"@.len() == 12 && "BrightYellow"@[0] == 'B' && "BrightYellow"@[6] == 'Y');
    assert("BrightBlue"@.len() == 10 && "BrightBlue"@[0] == 'B' && "BrightBlue"@[6] == 'B');
    assert("BrightMagenta"@.len() == 13 && "BrightMagenta"@[0] == 'B' && "BrightMagenta"@[6] == 'M');
    assert("BrightCyan"@.len() == 10 && "BrightCyan"@[0] == 'B' && "BrightCyan"@[6] == 'C');
    assert("BrightWhite"@.len() == 11 && "BrightWhite"@[0] == 'B' && "BrightWhite"@[6] == 'W');
    assert("Reset"@.len() == 5 && "Reset"@[0] == 'R');
}

impl Color {
    /// The color whose name, in lower case, is `s`.
    pub fn from_lowercase(s: &str) -> (r: Option<Color>)
        ensures
            r == spec_color_of_lowercase(s@),
    {
        if str_eq(s, "black") { Some(Color::Black) }
        else if str_eq(s, "red") { Some(Color::Red) }
        else if str_eq(s, "green") { Some(Color::Green) }
        else if str_eq(s, "yellow") { Some(Color::Yellow) }
        else if str_eq(s, "blue") { Some(Color::Blue) }
        else if str_eq(s, "magenta") { Some(Color::Magenta) }
        else if str_eq(s, "cyan") { Some(Color::Cyan) }
        else if str_eq(s, "white") { Some(Color::White) }
        else if str_eq(s, "brightblack") { Some(Color::BrightBlack) }
        else if str_eq(s, "brightred") { Some(Color::BrightRed) }
        else if str_eq(s, "brightgreen") { Some(Color::BrightGreen) }
        else if str_eq(s, "brightyellow") { Some(Color::BrightYellow) }
        else if str_eq(s, "brightblue") { Some(Color::BrightBlue) }
        else if str_eq(s, "brightmagenta") { Some(Color::BrightMagenta) }
        else if str_eq(s, "brightcyan") { Some(Color::BrightCyan) }
        else if str_eq(s, "brightwhite") { Some(Color::BrightWhite) }
        else if str_eq(s, "reset") { Some(Color::Reset) }
        else { None }
    }

    /// Parses a color name in any case ("Yellow", "YELLOW", "yellow").
    /// An RGB color has no name and is never the result.
    pub fn try_from_str(s: &str) -> (r: Result<Color, &'static str>)
        ensures
            match spec_color_of_lowercase(spec_to_lowercase(s@)) {
                Some(c) => r == Ok::<Color, &'static str>(c),
                None => r is Err,
            },
    {
        let lower = to_lowercase(s);
        match Color::from_lowercase(lower.as_str()) {
            Some(c) => Ok(c),
            None => Err("Could not parse color"),
        }
    }

    /// The color whose capitalised name is `s` ("Yellow", "BrightRed").
    pub fn from_name(s: &str) -> (r: Option<Color>)
        ensures
            r == spec_color_of_name(s@),
    {
        if str_eq(s, "Black") { Some(Color::Black) }
        else if str_eq(s, "Red") { Some(Color::Red) }
        else if str_eq(s, "Green") { Some(Color::Green) }
        else if str_eq(s, "Yellow") { Some(Color::Yellow) }
        else if str_eq(s, "Blue") { Some(Color::Blue) }
        else if str_eq(s, "Magenta") { Some(Color::Magenta) }
        else if str_eq(s, "Cyan") { Some(Color::Cyan) }
        else if str_eq(s, "White") { Some(Color::White) }
        else if str_eq(s, "BrightBlack") { Some(Color::BrightBlack) }
        else if str_eq(s, "BrightRed") { Some(Color::BrightRed) }
        else if str_eq(s, "BrightGreen") { Some(Color::BrightGreen) }
        else if str_eq(s, "BrightYellow") { Some(Color::BrightYellow) }
        else if str_eq(s, "BrightBlue") { Some(Color::BrightBlue) }
        else if str_eq(s, "BrightMagenta") { Some(Color::BrightMagenta) }
        else if str_eq(s, "BrightCyan") { Some(Color::BrightCyan) }
        else if str_eq(s, "BrightWhite") { Some(Color::BrightWhite) }
        else if str_eq(s, "Reset") { Some(Color::Reset) }
        else { None }
    }
}

} // verus!
