//! A progress record as a line of a colour terminal.
use color_eyre::owo_colors::OwoColorize;
use num_format::{Locale, ToFormattedString};
use vstd::prelude::*;
use vstd::string::{StrSliceExecFns, StringExecFns};
use crate::runner::Progress;
use crate::text::{decimal, digit_char, to_decimal};

verus! {

/// `text` in yellow: between the escape sequence that selects the yellow
/// foreground and the one that selects the default foreground.
pub open spec fn in_yellow(text: Seq<char>) -> Seq<char> {
    "\x1b[33m"@ + text + "\x1b[39m"@
}

/// `text` in green: between the escape sequence that selects the green
/// foreground and the one that selects the default foreground.
pub open spec fn in_green(text: Seq<char>) -> Seq<char> {
    "\x1b[32m"@ + text + "\x1b[39m"@
}

/// The three digits of `n`, which is below a thousand, zeros included.
pub open spec fn three_digits(n: nat) -> Seq<char> {
    seq![digit_char(n / 100), digit_char(n / 10 % 10), digit_char(n % 10)]
}

/// `n` in base ten with a comma between its groups of three digits.
pub open spec fn thousands(n: nat) -> Seq<char>
    decreases n,
{
    if n < 1000 {
        decimal(n)
    } else {
        thousands(n / 1000) + ","@ + three_digits(n % 1000)
    }
}

/// A run of `n` spaces.
pub open spec fn spaces(n: nat) -> Seq<char> {
    Seq::new(n, |i: int| ' ')
}

/// `text` behind as many spaces as bring it to `width` characters; a text
/// of that width or more stays as it is.
pub open spec fn right_aligned(text: Seq<char>, width: nat) -> Seq<char> {
    if text.len() < width {
        spaces((width - text.len()) as nat) + text
    } else {
        text
    }
}

/// `OwoColorize::yellow` of owo-colors, written out with `{}`: the text
/// between the ANSI sequences `ESC[33m` and `ESC[39m`.
#[verifier::external_body]
fn yellow(text: &str) -> (colored: String)
    ensures
        colored@ == in_yellow(text@),
{
    format!("{}", text.yellow())
}

/// `OwoColorize::green` of owo-colors, written out with `{}`: the text
/// between the ANSI sequences `ESC[32m` and `ESC[39m`.
#[verifier::external_body]
fn green(text: &str) -> (colored: String)
    ensures
        colored@ == in_green(text@),
{
    format!("{}", text.green())
}

/// `ToFormattedString::to_formatted_string` of num-format for the locale
/// `en`: the digits of the number in groups of three, a comma between the
/// groups.
#[verifier::external_body]
fn grouped(n: u64) -> (text: String)
    ensures
        text@ == thousands(n as nat),
{
    n.to_formatted_string(&Locale::en)
}

/// Puts spaces before `text` until it is `width` characters wide.
pub fn align_right(text: &str, width: usize) -> (aligned: String)
    ensures
        aligned@ == right_aligned(text@, width as nat),
{
    let n = text.unicode_len();
    let mut aligned = String::new();
    let mut i: usize = n;
    assert(aligned@ =~= spaces(0));
    while i < width
        invariant
            n <= i,
            n < width ==> i <= width,
            n >= width ==> i == n,
            n == text@.len(),
            aligned@ == spaces((i - n) as nat),
        decreases width - i,
    {
        proof {
            reveal_strlit(" ");
        }
        aligned.append(" ");
        i += 1;
        assert(aligned@ =~= spaces((i - n) as nat));
    }
    let ghost padding = aligned@;
    aligned.append(text);
    proof {
        if n < width {
            assert(i == width);
            assert(padding == spaces((width - n) as nat));
        } else {
            assert(i == n);
            assert(spaces(0) + text@ =~= text@);
        }
        assert(aligned@ == padding + text@);
    }
    aligned
}

impl Progress {
    /// The part of the line that shows the frame, if it is known.
    pub open spec fn frame_info(self) -> Seq<char> {
        match self.frame {
            Some(frame) => " frame: "@ + in_green(right_aligned(decimal(frame as nat), 8)),
            None => Seq::empty(),
        }
    }

    /// The part of the line that shows the size, if it is known.
    pub open spec fn total_size_info(self) -> Seq<char> {
        match self.total_size {
            Some(size) => " total_size: "@ + in_yellow(
                right_aligned(thousands(size as nat), 12),
            ),
            None => Seq::empty(),
        }
    }

    /// The part of the line that shows the duplicated frames: nothing where
    /// they are unknown or exactly one.
    pub open spec fn dup_frames_info(self) -> Seq<char> {
        match self.dup_frames {
            Some(frames) if frames != 1 => " dup_frames: "@ + in_green(decimal(frames as nat)),
            _ => Seq::empty(),
        }
    }

    /// The part of the line that shows the dropped frames: nothing where
    /// they are unknown or none.
    pub open spec fn drop_frames_info(self) -> Seq<char> {
        match self.drop_frames {
            Some(frames) if frames > 0 => " drop_frames: "@ + in_green(decimal(frames as nat)),
            _ => Seq::empty(),
        }
    }

    /// The line that shows the record: the status in yellow, then the frame,
    /// the size, the duplicated and the dropped frames.
    pub open spec fn info(self) -> Seq<char> {
        in_yellow(self.status.label()) + self.frame_info() + self.total_size_info()
            + self.dup_frames_info() + self.drop_frames_info()
    }

    /// Writes the status and the counters of the record as a line of a
    /// colour terminal. The floating-point readings are not written here:
    /// the caller writes them behind this line.
    pub fn print_info(&self) -> (out: String)
        ensures
            out@ == self.info(),
    {
        let label = self.status.to_string();
        let mut out = yellow(label.as_str());
        let ghost status_part = out@;
        if let Some(frame) = self.frame {
            out.append(" frame: ");
            let digits = to_decimal(frame);
            let cell = align_right(digits.as_str(), 8);
            let colored = green(cell.as_str());
            out.append(colored.as_str());
        }
        assert(out@ =~= status_part + self.frame_info());
        let ghost frame_part = out@;
        if let Some(total_size) = self.total_size {
            out.append(" total_size: ");
            let digits = grouped(total_size);
            let cell = align_right(digits.as_str(), 12);
            let colored = yellow(cell.as_str());
            out.append(colored.as_str());
        }
        assert(out@ =~= frame_part + self.total_size_info());
        let ghost size_part = out@;
        if let Some(dup_frames) = self.dup_frames {
            if dup_frames != 1 {
                out.append(" dup_frames: ");
                let digits = to_decimal(dup_frames);
                let colored = green(digits.as_str());
                out.append(colored.as_str());
            }
        }
        assert(out@ =~= size_part + self.dup_frames_info());
        let ghost dup_part = out@;
        if let Some(drop_frames) = self.drop_frames {
            if drop_frames > 0 {
                out.append(" drop_frames: ");
                let digits = to_decimal(drop_frames);
                let colored = green(digits.as_str());
                out.append(colored.as_str());
            }
        }
        assert(out@ =~= dup_part + self.drop_frames_info());
        out
    }
}

} // verus!
