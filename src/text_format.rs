//! Character formats of text fields.

use vstd::prelude::*;
use crate::color::Rgba;

verus! {

/// The format of a run of characters. A field that is `None` is not set, or,
/// for a format read over a range, not the same over the whole range.
#[derive(Clone, Copy, Debug, PartialEq, Eq)]
pub struct TextFormat {
    pub color: Option<Rgba>,
    pub bold: Option<bool>,
    pub italic: Option<bool>,
    pub underline: Option<bool>,
}

/// The format with no field set.
pub open spec fn empty_format() -> TextFormat {
    TextFormat { color: None, bold: None, italic: None, underline: None }
}

/// `old` with each field that `tf` sets taken from `tf`.
pub open spec fn merge_format(old: TextFormat, tf: TextFormat) -> TextFormat {
    TextFormat {
        color: if tf.color is Some {
            tf.color
        } else {
            old.color
        },
        bold: if tf.bold is Some {
            tf.bold
        } else {
            old.bold
        },
        italic: if tf.italic is Some {
            tf.italic
        } else {
            old.italic
        },
        underline: if tf.underline is Some {
            tf.underline
        } else {
            old.underline
        },
    }
}

/// The fields on which `a` and `b` agree; the others unset.
pub open spec fn common_format(a: TextFormat, b: TextFormat) -> TextFormat {
    TextFormat {
        color: if a.color == b.color {
            a.color
        } else {
            None
        },
        bold: if a.bold == b.bold {
            a.bold
        } else {
            None
        },
        italic: if a.italic == b.italic {
            a.italic
        } else {
            None
        },
        underline: if a.underline == b.underline {
            a.underline
        } else {
            None
        },
    }
}

/// The format shared by the characters `from` up to `to` of `fs`: each field
/// is set where it is the same on all of them. An empty range has no field set.
pub open spec fn range_format(fs: Seq<TextFormat>, from: int, to: int) -> TextFormat
    decreases to - from,
{
    if to <= from {
        empty_format()
    } else if to == from + 1 {
        fs[from]
    } else {
        common_format(range_format(fs, from, to - 1), fs[to - 1])
    }
}

impl TextFormat {
    /// The format with no field set.
    pub fn empty() -> (r: TextFormat)
        ensures
            r == empty_format(),
    {
        TextFormat { color: None, bold: None, italic: None, underline: None }
    }
}

fn same_color(a: Option<Rgba>, b: Option<Rgba>) -> (r: bool)
    ensures
        r == (a == b),
{
    match (a, b) {
        (Some(x), Some(y)) => x == y,
        (None, None) => true,
        _ => false,
    }
}

fn same_flag(a: Option<bool>, b: Option<bool>) -> (r: bool)
    ensures
        r == (a == b),
{
    match (a, b) {
        (Some(x), Some(y)) => x == y,
        (None, None) => true,
        _ => false,
    }
}

/// `old` with each field that `tf` sets taken from `tf`.
pub fn merge(old: TextFormat, tf: TextFormat) -> (r: TextFormat)
    ensures
        r == merge_format(old, tf),
{
    TextFormat {
        color: if tf.color.is_some() {
            tf.color
        } else {
            old.color
        },
        bold: if tf.bold.is_some() {
            tf.bold
        } else {
            old.bold
        },
        italic: if tf.italic.is_some() {
            tf.italic
        } else {
            old.italic
        },
        underline: if tf.underline.is_some() {
            tf.underline
        } else {
            old.underline
        },
    }
}

/// The fields on which `a` and `b` agree.
pub fn common(a: TextFormat, b: TextFormat) -> (r: TextFormat)
    ensures
        r == common_format(a, b),
{
    TextFormat {
        color: if same_color(a.color, b.color) {
            a.color
        } else {
            None
        },
        bold: if same_flag(a.bold, b.bold) {
            a.bold
        } else {
            None
        },
        italic: if same_flag(a.italic, b.italic) {
            a.italic
        } else {
            None
        },
        underline: if same_flag(a.underline, b.underline) {
            a.underline
        } else {
            None
        },
    }
}

} // verus!
