//! The colour and weight in which a name is shown.

use colored::Colorize;
use vstd::prelude::*;

use crate::options::{is_hidden, is_hidden_name};

verus! {

/// The colour of a name.
#[derive(Clone, Copy, Debug, PartialEq, Eq, Structural)]
pub enum NameColor {
    /// The colour of directories.
    Blue,
    /// The colour of everything else.
    Green,
}

/// How a name is shown.
#[derive(Clone, Copy, Debug, PartialEq, Eq, Structural)]
pub struct NameStyle {
    /// The colour of the name.
    pub color: NameColor,
    /// Whether the name is shown in bold.
    pub bold: bool,
}

/// The style of an entry's name: directories are blue, everything else is
/// green, and the names that are not hidden are bold. Neither the order nor
/// the filter reads it.
pub open spec fn style_of(name: Seq<char>, is_dir: bool) -> NameStyle {
    NameStyle {
        color: if is_dir {
            NameColor::Blue
        } else {
            NameColor::Green
        },
        bold: !is_hidden_name(name),
    }
}

/// The character that starts an escape code.
pub open spec fn escape() -> char {
    '\u{1b}'
}

/// The escape code that switches a style on.
pub open spec fn style_start(style: NameStyle) -> Seq<char> {
    let weight = if style.bold { seq!['1', ';'] } else { Seq::<char>::empty() };
    let color = match style.color {
        NameColor::Blue => seq!['3', '4'],
        NameColor::Green => seq!['3', '2'],
    };
    seq![escape(), '['] + weight + color + seq!['m']
}

/// The escape code that switches every style off.
pub open spec fn style_end() -> Seq<char> {
    seq![escape(), '[', '0', 'm']
}

/// `text` shows `name` in `style`: it is the name between the codes that
/// switch the style on and off, or, where colours are not in use, the name
/// alone.
pub open spec fn is_painted(text: Seq<char>, name: Seq<char>, style: NameStyle) -> bool {
    text == name || text == style_start(style) + name + style_end()
}

/// Chooses the style of an entry's name.
pub fn name_style(name: &str, is_dir: bool) -> (style: NameStyle)
    ensures
        style == style_of(name@, is_dir),
{
    let color = if is_dir {
        NameColor::Blue
    } else {
        NameColor::Green
    };
    NameStyle { color, bold: !is_hidden(name) }
}

/// `Colorize::blue` and `Display` of the `ColoredString` that it makes.
/// `Display` writes the text alone where colours are not in use (which the
/// environment and the kind of the output decide), and else `ESC[34m`, the
/// text and `ESC[0m`. A text that holds an escape code of its own may be
/// changed on the way: nothing is claimed of it.
#[verifier::external_body]
fn blue(name: &str) -> (text: String)
    ensures
        !name@.contains(escape()) ==> is_painted(
            text@,
            name@,
            NameStyle { color: NameColor::Blue, bold: false },
        ),
{
    name.blue().to_string()
}

/// `Colorize::blue`, `Colorize::bold` and `Display` of the `ColoredString`
/// that they make: the text alone, or `ESC[1;34m`, the text and `ESC[0m`.
#[verifier::external_body]
fn blue_bold(name: &str) -> (text: String)
    ensures
        !name@.contains(escape()) ==> is_painted(
            text@,
            name@,
            NameStyle { color: NameColor::Blue, bold: true },
        ),
{
    name.blue().bold().to_string()
}

/// `Colorize::green` and `Display` of the `ColoredString` that it makes:
/// the text alone, or `ESC[32m`, the text and `ESC[0m`.
#[verifier::external_body]
fn green(name: &str) -> (text: String)
    ensures
        !name@.contains(escape()) ==> is_painted(
            text@,
            name@,
            NameStyle { color: NameColor::Green, bold: false },
        ),
{
    name.green().to_string()
}

/// `Colorize::green`, `Colorize::bold` and `Display` of the `ColoredString`
/// that they make: the text alone, or `ESC[1;32m`, the text and `ESC[0m`.
#[verifier::external_body]
fn green_bold(name: &str) -> (text: String)
    ensures
        !name@.contains(escape()) ==> is_painted(
            text@,
            name@,
            NameStyle { color: NameColor::Green, bold: true },
        ),
{
    name.green().bold().to_string()
}

/// Applies a style to a name. Whether colours are in use is the terminal
/// layer's decision, so either of two texts may come back. Of a name that
/// holds an escape character nothing is promised.
pub fn paint(name: &str, style: NameStyle) -> (text: String)
    ensures
        !name@.contains(escape()) ==> is_painted(text@, name@, style),
{
    match style.color {
        NameColor::Blue => {
            if style.bold {
                blue_bold(name)
            } else {
                blue(name)
            }
        },
        NameColor::Green => {
            if style.bold {
                green_bold(name)
            } else {
                green(name)
            }
        },
    }
}

} // verus!
