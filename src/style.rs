//! Colors of the console output.

use vstd::prelude::*;

verus! {

/// A terminal foreground color.
#[derive(Copy, Clone, Debug, PartialEq, Eq, Structural)]
pub enum Color {
    Red,
    Green,
    Yellow,
    Blue,
    Magenta,
    Cyan,
}

/// A text style: a foreground color, bold, both or neither.
#[derive(Copy, Clone, Debug, PartialEq, Eq, Structural)]
pub struct TextStyle {
    /// The foreground color, if any.
    pub fg: Option<Color>,
    /// Whether the text is bold.
    pub bold: bool,
}

/// The ANSI code of a foreground color.
pub open spec fn fg_code(c: Color) -> Seq<char> {
    match c {
        Color::Red => seq!['3', '1'],
        Color::Green => seq!['3', '2'],
        Color::Yellow => seq!['3', '3'],
        Color::Blue => seq!['3', '4'],
        Color::Magenta => seq!['3', '5'],
        Color::Cyan => seq!['3', '6'],
    }
}

/// The escape sequence that starts a style.
pub open spec fn style_prefix(st: TextStyle) -> Seq<char> {
    let fg = match st.fg {
        Some(c) => fg_code(c),
        None => Seq::empty(),
    };
    let sep = if st.fg is Some && st.bold {
        seq![';']
    } else {
        Seq::empty()
    };
    let bold = if st.bold {
        seq!['1']
    } else {
        Seq::empty()
    };
    seq!['\x1b', '['] + fg + sep + bold + seq!['m']
}

/// `text` in style `st`: unchanged for the plain style, else wrapped in the
/// escape sequences that set and reset the style.
#[verifier::opaque]
pub open spec fn painted(text: Seq<char>, st: TextStyle) -> Seq<char> {
    if st.fg is None && !st.bold {
        text
    } else {
        style_prefix(st) + text + seq!['\x1b', '[', '0', 'm']
    }
}

impl TextStyle {
    /// No color, not bold.
    pub fn plain() -> (r: TextStyle)
        ensures
            r == (TextStyle { fg: None, bold: false }),
    {
        TextStyle { fg: None, bold: false }
    }

    /// The given color, not bold.
    pub fn color(c: Color) -> (r: TextStyle)
        ensures
            r == (TextStyle { fg: Some(c), bold: false }),
    {
        TextStyle { fg: Some(c), bold: false }
    }

    /// The given color, bold.
    pub fn bold_color(c: Color) -> (r: TextStyle)
        ensures
            r == (TextStyle { fg: Some(c), bold: true }),
    {
        TextStyle { fg: Some(c), bold: true }
    }

    /// Bold, without color.
    pub fn bold() -> (r: TextStyle)
        ensures
            r == (TextStyle { fg: None, bold: true }),
    {
        TextStyle { fg: None, bold: true }
    }
}

/// Relies on owo_colors::Style (its color and `bold` builders, and the
/// `Display` of `Style::style`): a plain style writes the text unchanged,
/// any other writes `ESC [`, the color code, `;` between color and bold,
/// `1` for bold, `m`, the text, and `ESC [0m`.
#[verifier::external_body]
pub(crate) fn paint(text: &str, st: TextStyle) -> (r: String)
    ensures
        r@ == painted(text@, st),
{
    let mut s = owo_colors::Style::new();
    s = match st.fg {
        Some(Color::Red) => s.red(),
        Some(Color::Green) => s.green(),
        Some(Color::Yellow) => s.yellow(),
        Some(Color::Blue) => s.blue(),
        Some(Color::Magenta) => s.magenta(),
        Some(Color::Cyan) => s.cyan(),
        None => s,
    };
    if st.bold {
        s = s.bold();
    }
    format!("{}", s.style(text))
}

/// The styles of the parts of a test name.
#[derive(Copy, Clone, Debug, PartialEq, Eq, Structural)]
pub struct ListStyles {
    pub binary_id: TextStyle,
    pub test_name: TextStyle,
    pub module_prefix: TextStyle,
    pub field: TextStyle,
}

/// The styles of the console output.
#[derive(Copy, Clone, Debug, PartialEq, Eq, Structural)]
pub struct Styles {
    pub is_colorized: bool,
    pub count: TextStyle,
    pub pass: TextStyle,
    pub retry: TextStyle,
    pub fail: TextStyle,
    pub pass_output: TextStyle,
    pub retry_output: TextStyle,
    pub fail_output: TextStyle,
    pub skip: TextStyle,
    pub list_styles: ListStyles,
}

impl ListStyles {
    /// Every part plain.
    pub open spec fn spec_plain() -> ListStyles {
        ListStyles {
            binary_id: TextStyle { fg: None, bold: false },
            test_name: TextStyle { fg: None, bold: false },
            module_prefix: TextStyle { fg: None, bold: false },
            field: TextStyle { fg: None, bold: false },
        }
    }

    /// Every part plain.
    pub fn plain() -> (r: ListStyles)
        ensures
            r == ListStyles::spec_plain(),
    {
        ListStyles {
            binary_id: TextStyle::plain(),
            test_name: TextStyle::plain(),
            module_prefix: TextStyle::plain(),
            field: TextStyle::plain(),
        }
    }

    /// Colors the parts of a test name.
    pub fn colorize(&mut self)
        ensures
            final(self).binary_id == (TextStyle { fg: Some(Color::Magenta), bold: true }),
            final(self).test_name == (TextStyle { fg: Some(Color::Blue), bold: true }),
            final(self).field == (TextStyle { fg: Some(Color::Yellow), bold: true }),
            final(self).module_prefix == (TextStyle { fg: Some(Color::Cyan), bold: false }),
    {
        self.binary_id = TextStyle::bold_color(Color::Magenta);
        self.test_name = TextStyle::bold_color(Color::Blue);
        self.field = TextStyle::bold_color(Color::Yellow);
        self.module_prefix = TextStyle::color(Color::Cyan);
    }
}

impl Styles {
    /// No colors at all.
    pub open spec fn spec_plain() -> Styles {
        Styles {
            is_colorized: false,
            count: TextStyle { fg: None, bold: false },
            pass: TextStyle { fg: None, bold: false },
            retry: TextStyle { fg: None, bold: false },
            fail: TextStyle { fg: None, bold: false },
            pass_output: TextStyle { fg: None, bold: false },
            retry_output: TextStyle { fg: None, bold: false },
            fail_output: TextStyle { fg: None, bold: false },
            skip: TextStyle { fg: None, bold: false },
            list_styles: ListStyles::spec_plain(),
        }
    }

    /// No colors at all.
    pub fn plain() -> (r: Styles)
        ensures
            r == Styles::spec_plain(),
    {
        Styles {
            is_colorized: false,
            count: TextStyle::plain(),
            pass: TextStyle::plain(),
            retry: TextStyle::plain(),
            fail: TextStyle::plain(),
            pass_output: TextStyle::plain(),
            retry_output: TextStyle::plain(),
            fail_output: TextStyle::plain(),
            skip: TextStyle::plain(),
            list_styles: ListStyles::plain(),
        }
    }

    /// Switches to the colored styles: counts bold, passes green, failures
    /// red, skips and slow tests yellow.
    pub fn colorize(&mut self)
        ensures
            final(self).is_colorized,
            final(self).count == (TextStyle { fg: None, bold: true }),
            final(self).pass == (TextStyle { fg: Some(Color::Green), bold: true }),
            final(self).retry == (TextStyle { fg: Some(Color::Magenta), bold: true }),
            final(self).fail == (TextStyle { fg: Some(Color::Red), bold: true }),
            final(self).pass_output == (TextStyle { fg: Some(Color::Green), bold: false }),
            final(self).retry_output == (TextStyle { fg: Some(Color::Magenta), bold: false }),
            final(self).fail_output == (TextStyle { fg: Some(Color::Magenta), bold: false }),
            final(self).skip == (TextStyle { fg: Some(Color::Yellow), bold: true }),
            final(self).list_styles.test_name == (TextStyle { fg: Some(Color::Blue), bold: true }),
            final(self).list_styles.module_prefix == (TextStyle { fg: Some(Color::Cyan), bold: false }),
    {
        self.is_colorized = true;
        self.count = TextStyle::bold();
        self.pass = TextStyle::bold_color(Color::Green);
        self.retry = TextStyle::bold_color(Color::Magenta);
        self.fail = TextStyle::bold_color(Color::Red);
        self.pass_output = TextStyle::color(Color::Green);
        self.retry_output = TextStyle::color(Color::Magenta);
        self.fail_output = TextStyle::color(Color::Magenta);
        self.skip = TextStyle::bold_color(Color::Yellow);
        self.list_styles.colorize();
    }
}

} // verus!
