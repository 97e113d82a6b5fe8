//! The state of a text field that the `flash.text.TextField` accessors read
//! and change: its text, with a format for each character, and its settings.

use vstd::prelude::*;
use crate::color::Rgba;
use crate::text::substring;
use crate::text_format::{TextFormat, common, merge, merge_format, range_format};

verus! {

/// The longest text that a text field holds: its length is reported as a
/// 32-bit integer.
pub const MAX_TEXT_LENGTH: usize = 2147483647;

#[derive(Clone, Copy, Debug, PartialEq, Eq, Structural)]
pub enum AutoSizeMode {
    /// No automatic sizing.
    Off,
    Left,
    Center,
    Right,
}

#[derive(Clone, Copy, Debug, PartialEq, Eq, Structural)]
pub enum GridFit {
    /// No fitting to the pixel grid.
    Off,
    Pixel,
    SubPixel,
}

/// A selection from the character `from` to the character `to`; `to` is where
/// the caret stands.
#[derive(Clone, Copy, Debug, PartialEq, Eq, Structural)]
pub struct TextSelection {
    pub from: usize,
    pub to: usize,
}

impl TextSelection {
    pub open spec fn start_spec(&self) -> usize {
        if self.from <= self.to {
            self.from
        } else {
            self.to
        }
    }

    pub open spec fn end_spec(&self) -> usize {
        if self.from <= self.to {
            self.to
        } else {
            self.from
        }
    }

    /// The first selected position.
    #[verifier::when_used_as_spec(start_spec)]
    pub fn start(&self) -> (r: usize)
        ensures
            r == self.start_spec(),
    {
        if self.from <= self.to {
            self.from
        } else {
            self.to
        }
    }

    /// The position after the last selected character.
    #[verifier::when_used_as_spec(end_spec)]
    pub fn end(&self) -> (r: usize)
        ensures
            r == self.end_spec(),
    {
        if self.from <= self.to {
            self.to
        } else {
            self.from
        }
    }
}

/// `k` copies of `f`.
pub open spec fn repeated(f: TextFormat, k: nat) -> Seq<TextFormat> {
    Seq::new(k, |i: int| f)
}

/// The bounds `from`, `to` of a replacement, held inside a text of `len`
/// characters and put in order.
pub open spec fn clamp_range(from: usize, to: usize, len: nat) -> (int, int) {
    let lo = if from as int <= len {
        from as int
    } else {
        len as int
    };
    let hi = if to as int <= len {
        to as int
    } else {
        len as int
    };
    if hi < lo {
        (lo, lo)
    } else {
        (lo, hi)
    }
}

/// `a` and `b` agree on everything but the text, its formats and the selection.
pub open spec fn same_settings(a: EditText, b: EditText) -> bool {
    b == EditText { text: b.text, formats: b.formats, selection: b.selection, ..a }
}

/// The selection `s` held inside a text of `len` characters.
pub open spec fn clamp_selection_to(s: Option<TextSelection>, len: nat) -> Option<TextSelection> {
    match s {
        Some(s) => Some(
            TextSelection {
                from: if s.from <= len {
                    s.from
                } else {
                    len as usize
                },
                to: if s.to <= len {
                    s.to
                } else {
                    len as usize
                },
            },
        ),
        None => None,
    }
}

/// `fs` with the items `lo` up to `hi` replaced by `n` copies of `f`.
fn spliced(fs: &Vec<TextFormat>, lo: usize, hi: usize, f: TextFormat, n: usize) -> (r: Vec<
    TextFormat,
>)
    requires
        lo <= hi <= fs@.len(),
    ensures
        r@ == fs@.subrange(0, lo as int) + repeated(f, n as nat) + fs@.subrange(
            hi as int,
            fs@.len() as int,
        ),
{
    let len = fs.len();
    let mut formats: Vec<TextFormat> = Vec::new();
    let mut i: usize = 0;
    while i < lo
        invariant
            i <= lo <= len,
            len == fs@.len(),
            formats@ =~= fs@.subrange(0, i as int),
        decreases lo - i,
    {
        formats.push(fs[i]);
        i = i + 1;
    }
    let mut k: usize = 0;
    while k < n
        invariant
            k <= n,
            formats@ =~= fs@.subrange(0, lo as int) + repeated(f, k as nat),
        decreases n - k,
    {
        formats.push(f);
        k = k + 1;
    }
    let ghost mid = formats@;
    let mut j: usize = hi;
    while j < len
        invariant
            hi <= j <= len,
            len == fs@.len(),
            formats@ =~= mid + fs@.subrange(hi as int, j as int),
        decreases len - j,
    {
        formats.push(fs[j]);
        j = j + 1;
    }
    formats
}

/// The state of a text field.
pub struct EditText {
    pub text: String,
    /// The format of each character of `text`.
    pub formats: Vec<TextFormat>,
    pub html_text: String,
    pub is_html: bool,
    pub autosize: AutoSizeMode,
    pub has_background: bool,
    pub background_color: Rgba,
    pub has_border: bool,
    pub border_color: Rgba,
    pub is_password: bool,
    pub is_device_font: bool,
    pub is_multiline: bool,
    pub is_selectable: bool,
    pub is_editable: bool,
    pub is_word_wrap: bool,
    pub selection: Option<TextSelection>,
    /// The format that new text takes.
    pub new_text_format: TextFormat,
    pub max_chars: i32,
    /// The layout of the text: the first visible line, the last visible
    /// line, the largest first line, the number of lines, and the
    /// horizontal scroll position and its largest value.
    pub scroll: i32,
    pub bottom_scroll: i32,
    pub max_scroll: i32,
    pub num_lines: i32,
    pub hscroll: i32,
    pub max_hscroll: i32,
    pub advanced_rendering: bool,
    pub grid_fit: GridFit,
}

impl EditText {
    /// Each character has a format, the text is not too long, a selection
    /// lies inside the text, and the horizontal scroll limit is not negative.
    pub open spec fn wf(&self) -> bool {
        &&& self.formats@.len() == self.text@.len()
        &&& self.text@.len() <= MAX_TEXT_LENGTH
        &&& self.selection matches Some(s) ==> s.from <= self.text@.len() && s.to
            <= self.text@.len()
        &&& self.max_hscroll >= 0
    }

    /// An empty, dynamic, selectable text field in black on white.
    pub fn new() -> (r: EditText)
        ensures
            r.wf(),
            r.text@.len() == 0,
            r.selection is None,
            !r.is_editable,
            r.is_selectable,
    {
        let black = TextFormat {
            color: Some(Rgba { r: 0, g: 0, b: 0, a: 255 }),
            bold: Some(false),
            italic: Some(false),
            underline: Some(false),
        };
        EditText {
            text: String::new(),
            formats: Vec::new(),
            html_text: String::new(),
            is_html: false,
            autosize: AutoSizeMode::Off,
            has_background: false,
            background_color: Rgba { r: 255, g: 255, b: 255, a: 255 },
            has_border: false,
            border_color: Rgba { r: 0, g: 0, b: 0, a: 255 },
            is_password: false,
            is_device_font: true,
            is_multiline: false,
            is_selectable: true,
            is_editable: false,
            is_word_wrap: false,
            selection: None,
            new_text_format: black,
            max_chars: 0,
            scroll: 1,
            bottom_scroll: 1,
            max_scroll: 1,
            num_lines: 1,
            hscroll: 0,
            max_hscroll: 0,
            advanced_rendering: false,
            grid_fit: GridFit::Off,
        }
    }

    /// The number of characters of the text.
    pub fn text_length(&self) -> (r: usize)
        ensures
            r == self.text@.len(),
    {
        self.text.as_str().unicode_len()
    }

    /// Replaces the whole text; every character takes the new-text format.
    pub fn set_text(&mut self, text: String)
        requires
            old(self).wf(),
            text@.len() <= MAX_TEXT_LENGTH,
        ensures
            final(self).wf(),
            final(self).text@ == text@,
            final(self).formats@ == repeated(old(self).new_text_format, text@.len()),
            final(self).selection == clamp_selection_to(old(self).selection, text@.len()),
            same_settings(*old(self), *final(self)),
    {
        let n = text.as_str().unicode_len();
        let mut formats: Vec<TextFormat> = Vec::new();
        while formats.len() < n
            invariant
                formats@.len() <= n,
                formats@ =~= repeated(self.new_text_format, formats@.len()),
            decreases n - formats@.len(),
        {
            formats.push(self.new_text_format);
        }
        self.text = text;
        self.formats = formats;
        self.clamp_selection();
    }

    /// Holds the selection inside the text.
    fn clamp_selection(&mut self)
        ensures
            final(self).selection == clamp_selection_to(old(self).selection, old(self).text@.len()),
            final(self).text == old(self).text,
            final(self).formats == old(self).formats,
            same_settings(*old(self), *final(self)),
    {
        let len = self.text_length();
        if let Some(s) = self.selection {
            let from = if s.from <= len {
                s.from
            } else {
                len
            };
            let to = if s.to <= len {
                s.to
            } else {
                len
            };
            self.selection = Some(TextSelection { from, to });
        }
    }

    /// Replaces the characters `from` up to `to`, held inside the text, by
    /// `text`, which takes the new-text format.
    #[verifier::rlimit(40)]
    pub fn replace_text(&mut self, from: usize, to: usize, text: &str)
        requires
            old(self).wf(),
            old(self).text@.len() + text@.len() <= MAX_TEXT_LENGTH,
        ensures
            final(self).wf(),
            ({
                let (lo, hi) = clamp_range(from, to, old(self).text@.len());
                &&& final(self).text@ == old(self).text@.subrange(0, lo) + text@
                    + old(self).text@.subrange(hi, old(self).text@.len() as int)
                &&& final(self).formats@ == old(self).formats@.subrange(0, lo) + repeated(
                    old(self).new_text_format,
                    text@.len(),
                ) + old(self).formats@.subrange(hi, old(self).formats@.len() as int)
            }),
            final(self).selection == clamp_selection_to(old(self).selection, final(self).text@.len()),
            same_settings(*old(self), *final(self)),
    {
        let len = self.text_length();
        let lo = if from <= len {
            from
        } else {
            len
        };
        let hi0 = if to <= len {
            to
        } else {
            len
        };
        let hi = if hi0 < lo {
            lo
        } else {
            hi0
        };
        let n = text.unicode_len();
        let mut new_text = substring(self.text.as_str(), 0, lo);
        new_text.append(text);
        new_text.append(self.text.as_str().substring_char(hi, len));
        let formats = spliced(&self.formats, lo, hi, self.new_text_format, n);
        self.text = new_text;
        self.formats = formats;
        self.clamp_selection();
    }

    /// Merges `tf` into the format of the characters `from` up to `to`.
    pub fn set_text_format(&mut self, from: usize, to: usize, tf: TextFormat)
        requires
            old(self).wf(),
            from <= to <= old(self).text@.len(),
        ensures
            final(self).wf(),
            final(self).text == old(self).text,
            final(self).formats@.len() == old(self).formats@.len(),
            forall|i: int|
                0 <= i < old(self).formats@.len() ==> #[trigger] final(self).formats@[i] == if from
                    <= i < to {
                    merge_format(old(self).formats@[i], tf)
                } else {
                    old(self).formats@[i]
                },
            final(self).selection == old(self).selection,
            same_settings(*old(self), *final(self)),
    {
        let mut i: usize = from;
        while i < to
            invariant
                from <= i <= to,
                to <= self.formats@.len(),
                self.formats@.len() == old(self).formats@.len(),
                self.text == old(self).text,
                self.selection == old(self).selection,
                same_settings(*old(self), *self),
                forall|k: int|
                    0 <= k < old(self).formats@.len() ==> #[trigger] self.formats@[k] == if from
                        <= k < i {
                        merge_format(old(self).formats@[k], tf)
                    } else {
                        old(self).formats@[k]
                    },
            decreases to - i,
        {
            let f = merge(self.formats[i], tf);
            self.formats.set(i, f);
            i = i + 1;
        }
    }

    /// The format shared by the characters `from` up to `to`, held inside the
    /// text.
    pub fn text_format(&self, from: usize, to: usize) -> (r: TextFormat)
        requires
            self.wf(),
        ensures
            ({
                let (lo, hi) = clamp_range(from, to, self.text@.len());
                r == range_format(self.formats@, lo, hi)
            }),
    {
        let len = self.text_length();
        let lo = if from <= len {
            from
        } else {
            len
        };
        let hi0 = if to <= len {
            to
        } else {
            len
        };
        let hi = if hi0 < lo {
            lo
        } else {
            hi0
        };
        if hi == lo {
            return TextFormat::empty();
        }
        let mut acc = self.formats[lo];
        let mut i: usize = lo + 1;
        while i < hi
            invariant
                lo < i <= hi <= len,
                len == self.formats@.len(),
                acc == range_format(self.formats@, lo as int, i as int),
            decreases hi - i,
        {
            acc = common(acc, self.formats[i]);
            i = i + 1;
        }
        acc
    }
}

} // verus!
