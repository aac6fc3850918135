//! Terminal colours, the plain styling used where no escape codes are written, and the
//! layout of the interpreter's own messages.

use vstd::prelude::*;
use crate::desserts::icedtea::{lines_of, lines_v};
use crate::text::{append_chars, append_str};

verus! {

/// The colours of the terminal.
#[derive(Clone, Copy, Debug, PartialEq, Eq, Structural)]
pub enum Color {
    Black,
    Red,
    Green,
    Yellow,
    Blue,
    Magenta,
    Cyan,
    White,
    BrightBlack,
    BrightRed,
    BrightGreen,
    BrightYellow,
    BrightBlue,
    BrightMagenta,
    BrightCyan,
    BrightWhite,
    Purple,
}

/// Styles for text on a terminal.
pub trait Colorize {
    fn color(&self, c: Color) -> &str;
    fn bold(&self) -> &str;
    fn italic(&self) -> &str;
    fn underline(&self) -> &str;
    fn dimmed(&self) -> &str;
    fn black(&self) -> &str;
    fn red(&self) -> &str;
    fn green(&self) -> &str;
    fn yellow(&self) -> &str;
    fn blue(&self) -> &str;
    fn magenta(&self) -> &str;
    fn purple(&self) -> &str;
    fn cyan(&self) -> &str;
    fn white(&self) -> &str;
    fn bright_black(&self) -> &str;
    fn bright_red(&self) -> &str;
    fn bright_green(&self) -> &str;
    fn bright_yellow(&self) -> &str;
    fn bright_blue(&self) -> &str;
    fn bright_magenta(&self) -> &str;
    fn bright_cyan(&self) -> &str;
    fn bright_white(&self) -> &str;
}

/// Where no escape codes are written, every style gives the text back as it is.
impl Colorize for String {
    fn color(&self, c: Color) -> (r: &str)
        ensures
            r@ == self@,
    {
        self.as_str()
    }

    fn bold(&self) -> (r: &str)
        ensures
            r@ == self@,
    {
        self.as_str()
    }

    fn italic(&self) -> (r: &str)
        ensures
            r@ == self@,
    {
        self.as_str()
    }

    fn underline(&self) -> (r: &str)
        ensures
            r@ == self@,
    {
        self.as_str()
    }

    fn dimmed(&self) -> (r: &str)
        ensures
            r@ == self@,
    {
        self.as_str()
    }

    fn black(&self) -> (r: &str)
        ensures
            r@ == self@,
    {
        self.as_str()
    }

    fn red(&self) -> (r: &str)
        ensures
            r@ == self@,
    {
        self.as_str()
    }

    fn green(&self) -> (r: &str)
        ensures
            r@ == self@,
    {
        self.as_str()
    }

    fn yellow(&self) -> (r: &str)
        ensures
            r@ == self@,
    {
        self.as_str()
    }

    fn blue(&self) -> (r: &str)
        ensures
            r@ == self@,
    {
        self.as_str()
    }

    fn magenta(&self) -> (r: &str)
        ensures
            r@ == self@,
    {
        self.as_str()
    }

    fn purple(&self) -> (r: &str)
        ensures
            r@ == self@,
    {
        self.as_str()
    }

    fn cyan(&self) -> (r: &str)
        ensures
            r@ == self@,
    {
        self.as_str()
    }

    fn white(&self) -> (r: &str)
        ensures
            r@ == self@,
    {
        self.as_str()
    }

    fn bright_black(&self) -> (r: &str)
        ensures
            r@ == self@,
    {
        self.as_str()
    }

    fn bright_red(&self) -> (r: &str)
        ensures
            r@ == self@,
    {
        self.as_str()
    }

    fn bright_green(&self) -> (r: &str)
        ensures
            r@ == self@,
    {
        self.as_str()
    }

    fn bright_yellow(&self) -> (r: &str)
        ensures
            r@ == self@,
    {
        self.as_str()
    }

    fn bright_blue(&self) -> (r: &str)
        ensures
            r@ == self@,
    {
        self.as_str()
    }

    fn bright_magenta(&self) -> (r: &str)
        ensures
            r@ == self@,
    {
        self.as_str()
    }

    fn bright_cyan(&self) -> (r: &str)
        ensures
            r@ == self@,
    {
        self.as_str()
    }

    fn bright_white(&self) -> (r: &str)
        ensures
            r@ == self@,
    {
        self.as_str()
    }
}

/// The kinds of the interpreter's own messages.
#[derive(Clone, Copy, Debug, PartialEq, Eq, Structural)]
pub enum MsgType {
    Info,
    Error,
    Success,
}

/// The colour a kind of message is shown in (none for a success).
pub open spec fn msg_color_v(t: MsgType) -> Option<Color> {
    match t {
        MsgType::Info => Some(Color::Cyan),
        MsgType::Error => Some(Color::Red),
        MsgType::Success => None,
    }
}

/// The colour a kind of message is shown in.
pub fn msg_color(t: MsgType) -> (r: Option<Color>)
    ensures
        r == msg_color_v(t),
{
    match t {
        MsgType::Info => Some(Color::Cyan),
        MsgType::Error => Some(Color::Red),
        MsgType::Success => None,
    }
}

/// The lines of a message laid out: the first after a bar, the others indented by two
/// spaces, one per line.
pub open spec fn msg_layout_rows(ls: Seq<Seq<char>>, k: int) -> Seq<char>
    decreases k,
{
    if k <= 0 || k > ls.len() {
        Seq::empty()
    } else if k == 1 {
        "\u{258D} "@ + ls[0]
    } else {
        msg_layout_rows(ls, k - 1) + "\n  "@ + ls[k - 1]
    }
}

/// A message laid out over its lines.
pub open spec fn msg_layout_v(msg: Seq<char>) -> Seq<char> {
    let ls = lines_v(msg);
    msg_layout_rows(ls, ls.len() as int)
}

/// Lays a message out over its lines, without colour.
pub fn format_msg(msg: &str) -> (r: Vec<char>)
    ensures
        r@ == msg_layout_v(msg@),
{
    let ls = lines_of(msg);
    let ghost lv = lines_v(msg@);
    let mut out: Vec<char> = Vec::new();
    let mut k: usize = 0;
    while k < ls.len()
        invariant
            ls@.len() == lv.len(),
            forall|i: int| 0 <= i < ls@.len() ==> (#[trigger] ls@[i])@ == lv[i],
            k <= ls@.len(),
            out@ == msg_layout_rows(lv, k as int),
        decreases ls.len() - k,
    {
        if k == 0 {
            append_str(&mut out, "\u{258D} ");
        } else {
            append_str(&mut out, "\n  ");
        }
        append_chars(&mut out, &ls[k]);
        k += 1;
    }
    out
}

} // verus!
