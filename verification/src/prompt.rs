//! The renderer: it draws chip after chip into one line of text and
//! remembers the background of the chip it drew last.
//!
//! Every colour change is a select-graphic-rendition sequence between the
//! two marks that tell a shell that what lies between them takes no room on
//! the line. A chip on a new background is joined to the one before it by an
//! arrow in the colours of both; a chip on the same background by a thin
//! arrow.

use crate::config::{Config, Style};
use crate::text::lemma_concat;
use vstd::prelude::*;
use vstd::string::*;

verus! {

/// The character of the digit `d`.
pub open spec fn digit(d: nat) -> char {
    seq!['0', '1', '2', '3', '4', '5', '6', '7', '8', '9'][d as int]
}

/// `n` in decimal digits.
pub open spec fn decimal(n: nat) -> Seq<char>
    decreases n,
{
    if n < 10 {
        seq![digit(n)]
    } else {
        decimal(n / 10).push(digit(n % 10))
    }
}

/// What opens a colour change: the mark that starts what takes no room, the
/// escape character, a bracket, and the code that resets all attributes.
pub open spec fn color_begin_text() -> Seq<char> {
    seq!['\u{1}', '\u{1b}', '[', '0']
}

/// What closes a colour change: the letter that ends the sequence, and the
/// mark that ends what takes no room.
pub open spec fn color_end_text() -> Seq<char> {
    seq!['m', '\u{2}']
}

/// The code that selects `fg` as the foreground: 30 to 37 for the first
/// eight colours, 90 to 97 for the next eight, and the code of the
/// 256-colour palette for the others.
pub open spec fn fg_text(fg: u8) -> Seq<char> {
    if fg <= 7 {
        seq![';'] + decimal((30 + fg) as nat)
    } else if fg <= 15 {
        seq![';'] + decimal((90 - 8 + fg) as nat)
    } else {
        seq![';', '3', '8', ';', '5', ';'] + decimal(fg as nat)
    }
}

/// The code that selects `bg` as the background: 40 to 47 for the first
/// eight colours, 100 to 107 for the next eight, and the code of the
/// 256-colour palette for the others.
pub open spec fn bg_text(bg: u8) -> Seq<char> {
    if bg <= 7 {
        seq![';'] + decimal((40 + bg) as nat)
    } else if bg <= 15 {
        seq![';'] + decimal((100 - 8 + bg) as nat)
    } else {
        seq![';', '4', '8', ';', '5', ';'] + decimal(bg as nat)
    }
}

/// The code of an attribute, where it is set.
pub open spec fn attribute_text(set: bool, code: char) -> Seq<char> {
    if set {
        seq![';', code]
    } else {
        Seq::empty()
    }
}

/// The codes of the attributes of `style` that are set: bold, italic,
/// underline, blink, strike, in this order.
pub open spec fn attributes_text(style: Style) -> Seq<char> {
    attribute_text(style.bold, '1') + attribute_text(style.italic, '3') + attribute_text(
        style.underline,
        '4',
    ) + attribute_text(style.blink, '5') + attribute_text(style.strike, '9')
}

/// The background code of the chip that is being drawn, if one is.
pub open spec fn kept_bg_text(last_bg: Option<u8>) -> Seq<char> {
    match last_bg {
        Some(bg) => bg_text(bg),
        None => Seq::empty(),
    }
}

/// What selects `style` on the background of the chip that is being drawn.
pub open spec fn style_text(last_bg: Option<u8>, style: Style) -> Seq<char> {
    color_begin_text() + kept_bg_text(last_bg) + fg_text(style.color) + attributes_text(style)
        + color_end_text()
}

/// What paints the background `bg`.
pub open spec fn paint_text(bg: u8) -> Seq<char> {
    color_begin_text() + bg_text(bg) + color_end_text()
}

/// The arrow between two chips of different backgrounds.
pub const ARROW: char = '\u{e0b0}';

/// The thin arrow between two chips of one background.
pub const THIN_ARROW: char = '\u{e0b1}';

/// What starts a chip on `bg` behind a chip on `last_bg`, or as the first
/// chip.
pub open spec fn new_part_text(last_bg: Option<u8>, bg: u8) -> Seq<char> {
    match last_bg {
        None => paint_text(bg) + seq![' '],
        Some(last) => if last == bg {
            style_text(Some(last), Style::plain(0)) + seq![' ', THIN_ARROW, ' ']
        } else {
            seq![' '] + color_begin_text() + fg_text(last) + bg_text(bg) + color_end_text()
                + seq![ARROW] + paint_text(bg) + seq![' ']
        },
    }
}

/// What ends the line: a space and a reset of all colours, or nothing where
/// no chip was drawn.
pub open spec fn finish_text(last_bg: Option<u8>) -> Seq<char> {
    match last_bg {
        Some(_) => seq![' '] + color_begin_text() + color_end_text(),
        None => Seq::empty(),
    }
}

/// The first chip starts with the paint of its background and a space. A
/// chip on the background of the one before it starts with the thin arrow
/// between two spaces, in colour 0 on that background. A chip on another
/// background starts with a space, the arrow in the old background on the
/// new one, the paint of the new background and a space. The line ends with
/// a space and a reset where a chip was drawn, and with nothing where none
/// was.
pub proof fn lemma_transitions(last: u8, bg: u8)
    ensures
        new_part_text(None, bg) == paint_text(bg).push(' '),
        new_part_text(Some(bg), bg) == style_text(Some(bg), Style::plain(0)) + seq![
            ' ',
            '\u{e0b1}',
            ' ',
        ],
        last != bg ==> new_part_text(Some(last), bg) == seq![' ', '\u{1}', '\u{1b}', '[', '0']
            + fg_text(last) + bg_text(bg) + seq!['m', '\u{2}', '\u{e0b0}'] + paint_text(bg).push(
            ' ',
        ),
        finish_text(Some(last)) == seq![' ', '\u{1}', '\u{1b}', '[', '0', 'm', '\u{2}'],
        finish_text(None) == Seq::<char>::empty(),
{
}

/// The text of one digit.
fn digit_str(d: u8) -> (text: &'static str)
    requires
        d < 10,
    ensures
        text@ == seq![digit(d as nat)],
{
    proof {
        reveal_strlit("0");
        reveal_strlit("1");
        reveal_strlit("2");
        reveal_strlit("3");
        reveal_strlit("4");
        reveal_strlit("5");
        reveal_strlit("6");
        reveal_strlit("7");
        reveal_strlit("8");
        reveal_strlit("9");
    }
    match d {
        0 => "0",
        1 => "1",
        2 => "2",
        3 => "3",
        4 => "4",
        5 => "5",
        6 => "6",
        7 => "7",
        8 => "8",
        _ => "9",
    }
}

/// Appends `n` in decimal digits.
pub fn push_decimal(out: &mut String, n: u8)
    ensures
        final(out)@ == old(out)@ + decimal(n as nat),
    decreases n,
{
    let ghost before = out@;
    if n >= 10 {
        push_decimal(out, n / 10);
        out.append(digit_str(n % 10));
        proof {
            let last = seq![digit((n % 10) as nat)];
            lemma_concat(before, decimal((n / 10) as nat), last);
        }
    } else {
        out.append(digit_str(n));
    }
}

/// A prompt that is being drawn.
pub struct Prompt {
    conf: Config,
    last_bg: Option<u8>,
    out: String,
}

impl Prompt {
    /// The configuration that the prompt is drawn with.
    pub closed spec fn spec_conf(&self) -> &Config {
        &self.conf
    }

    /// The configuration that the prompt is drawn with.
    #[verifier::when_used_as_spec(spec_conf)]
    pub fn conf(&self) -> (conf: &Config)
        ensures
            conf == self.spec_conf(),
    {
        &self.conf
    }

    /// The background of the chip drawn last, if any chip was drawn.
    pub closed spec fn last_background(&self) -> Option<u8> {
        self.last_bg
    }

    /// What was drawn so far.
    pub closed spec fn rendered(&self) -> Seq<char> {
        self.out@
    }

    /// A prompt of which nothing is drawn yet.
    pub fn new(conf: Config) -> (p: Prompt)
        ensures
            p.conf() == conf,
            p.last_background() is None,
            p.rendered() == Seq::<char>::empty(),
    {
        Prompt { conf, last_bg: None, out: String::new() }
    }

    /// What was drawn so far.
    pub fn output(&self) -> (text: &str)
        ensures
            text@ == self.rendered(),
    {
        self.out.as_str()
    }

    /// Gives up the prompt for what was drawn.
    pub fn into_output(self) -> (text: String)
        ensures
            text@ == self.rendered(),
    {
        self.out
    }

    /// Draws `text` as it is.
    pub fn emit_text(&mut self, text: &str)
        ensures
            final(self).conf() == old(self).conf(),
            final(self).last_background() == old(self).last_background(),
            final(self).rendered() == old(self).rendered() + text@,
    {
        self.out.append(text);
    }

    /// Opens a colour change.
    fn color_begin(&mut self)
        ensures
            final(self).conf() == old(self).conf(),
            final(self).last_background() == old(self).last_background(),
            final(self).rendered() == old(self).rendered() + color_begin_text(),
    {
        proof {
            reveal_strlit("\x01\x1b[0");
        }
        self.out.append("\x01\x1b[0");
    }

    /// Closes a colour change.
    fn color_end(&mut self)
        ensures
            final(self).conf() == old(self).conf(),
            final(self).last_background() == old(self).last_background(),
            final(self).rendered() == old(self).rendered() + color_end_text(),
    {
        proof {
            reveal_strlit("m\x02");
        }
        self.out.append("m\x02");
    }

    /// Draws the code of the foreground `fg`.
    fn color_fg(&mut self, fg: u8)
        ensures
            final(self).conf() == old(self).conf(),
            final(self).last_background() == old(self).last_background(),
            final(self).rendered() == old(self).rendered() + fg_text(fg),
    {
        let ghost before = self.out@;
        proof {
            reveal_strlit(";");
            reveal_strlit(";38;5;");
        }
        if fg <= 7 {
            self.out.append(";");
            push_decimal(&mut self.out, 30 + fg);
            proof {
                lemma_concat(before, seq![';'], decimal((30 + fg) as nat));
            }
        } else if fg <= 15 {
            self.out.append(";");
            push_decimal(&mut self.out, 90 - 8 + fg);
            proof {
                lemma_concat(before, seq![';'], decimal((90 - 8 + fg) as nat));
            }
        } else {
            self.out.append(";38;5;");
            push_decimal(&mut self.out, fg);
            proof {
                lemma_concat(before, seq![';', '3', '8', ';', '5', ';'], decimal(fg as nat));
            }
        }
    }

    /// Draws the code of the background `bg`.
    fn color_bg(&mut self, bg: u8)
        ensures
            final(self).conf() == old(self).conf(),
            final(self).last_background() == old(self).last_background(),
            final(self).rendered() == old(self).rendered() + bg_text(bg),
    {
        let ghost before = self.out@;
        proof {
            reveal_strlit(";");
            reveal_strlit(";48;5;");
        }
        if bg <= 7 {
            self.out.append(";");
            push_decimal(&mut self.out, 40 + bg);
            proof {
                lemma_concat(before, seq![';'], decimal((40 + bg) as nat));
            }
        } else if bg <= 15 {
            self.out.append(";");
            push_decimal(&mut self.out, 100 - 8 + bg);
            proof {
                lemma_concat(before, seq![';'], decimal((100 - 8 + bg) as nat));
            }
        } else {
            self.out.append(";48;5;");
            push_decimal(&mut self.out, bg);
            proof {
                lemma_concat(before, seq![';', '4', '8', ';', '5', ';'], decimal(bg as nat));
            }
        }
    }

    /// Draws the code of one attribute, where it is set.
    fn attribute(&mut self, set: bool, code: &str, Ghost(c): Ghost<char>)
        requires
            code@ == seq![';', c],
        ensures
            final(self).conf() == old(self).conf(),
            final(self).last_background() == old(self).last_background(),
            final(self).rendered() == old(self).rendered() + attribute_text(set, c),
    {
        if set {
            self.out.append(code);
        }
    }

    /// Draws the codes of the attributes of `style` that are set.
    fn attributes(&mut self, style: Style)
        ensures
            final(self).conf() == old(self).conf(),
            final(self).last_background() == old(self).last_background(),
            final(self).rendered() == old(self).rendered() + attributes_text(style),
    {
        let ghost before = self.out@;
        proof {
            reveal_strlit(";1");
            reveal_strlit(";3");
            reveal_strlit(";4");
            reveal_strlit(";5");
            reveal_strlit(";9");
        }
        assert(";1"@ =~= seq![';', '1']);
        assert(";3"@ =~= seq![';', '3']);
        assert(";4"@ =~= seq![';', '4']);
        assert(";5"@ =~= seq![';', '5']);
        assert(";9"@ =~= seq![';', '9']);
        self.attribute(style.bold, ";1", Ghost('1'));
        let ghost drawn = attribute_text(style.bold, '1');
        self.attribute(style.italic, ";3", Ghost('3'));
        proof {
            lemma_concat(before, drawn, attribute_text(style.italic, '3'));
            drawn = drawn + attribute_text(style.italic, '3');
        }
        self.attribute(style.underline, ";4", Ghost('4'));
        proof {
            lemma_concat(before, drawn, attribute_text(style.underline, '4'));
            drawn = drawn + attribute_text(style.underline, '4');
        }
        self.attribute(style.blink, ";5", Ghost('5'));
        proof {
            lemma_concat(before, drawn, attribute_text(style.blink, '5'));
            drawn = drawn + attribute_text(style.blink, '5');
        }
        self.attribute(style.strike, ";9", Ghost('9'));
        proof {
            lemma_concat(before, drawn, attribute_text(style.strike, '9'));
        }
    }

    /// Selects `style` for what is drawn next, on the background of the chip
    /// that is being drawn.
    pub fn style(&mut self, style: Style)
        ensures
            final(self).conf() == old(self).conf(),
            final(self).last_background() == old(self).last_background(),
            final(self).rendered() == old(self).rendered() + style_text(
                old(self).last_background(),
                style,
            ),
    {
        let ghost before = self.out@;
        self.color_begin();
        let ghost drawn = color_begin_text();
        match self.last_bg {
            Some(bg) => {
                self.color_bg(bg);
            },
            None => {
            },
        }
        proof {
            lemma_concat(before, drawn, kept_bg_text(self.last_bg));
            drawn = drawn + kept_bg_text(self.last_bg);
        }
        self.color_fg(style.color);
        proof {
            lemma_concat(before, drawn, fg_text(style.color));
            drawn = drawn + fg_text(style.color);
        }
        self.attributes(style);
        proof {
            lemma_concat(before, drawn, attributes_text(style));
            drawn = drawn + attributes_text(style);
        }
        self.color_end();
        proof {
            lemma_concat(before, drawn, color_end_text());
        }
    }

    /// Paints the background `bg`.
    fn bg(&mut self, bg: u8)
        ensures
            final(self).conf() == old(self).conf(),
            final(self).last_background() == old(self).last_background(),
            final(self).rendered() == old(self).rendered() + paint_text(bg),
    {
        let ghost before = self.out@;
        self.color_begin();
        self.color_bg(bg);
        proof {
            lemma_concat(before, color_begin_text(), bg_text(bg));
        }
        self.color_end();
        proof {
            lemma_concat(before, color_begin_text() + bg_text(bg), color_end_text());
        }
    }

    /// Draws the arrow from a chip on `last_bg` to a chip on `bg`: in the
    /// colour of the old background on the new one.
    fn arrow(&mut self, last_bg: u8, bg: u8)
        ensures
            final(self).conf() == old(self).conf(),
            final(self).last_background() == old(self).last_background(),
            final(self).rendered() == old(self).rendered() + (seq![' '] + color_begin_text()
                + fg_text(last_bg) + bg_text(bg) + color_end_text() + seq![ARROW]),
    {
        let ghost before = self.out@;
        proof {
            reveal_strlit(" ");
            reveal_strlit("\u{e0b0}");
        }
        self.out.append(" ");
        let ghost drawn = seq![' '];
        self.color_begin();
        proof {
            lemma_concat(before, drawn, color_begin_text());
            drawn = drawn + color_begin_text();
        }
        self.color_fg(last_bg);
        proof {
            lemma_concat(before, drawn, fg_text(last_bg));
            drawn = drawn + fg_text(last_bg);
        }
        self.color_bg(bg);
        proof {
            lemma_concat(before, drawn, bg_text(bg));
            drawn = drawn + bg_text(bg);
        }
        self.color_end();
        proof {
            lemma_concat(before, drawn, color_end_text());
            drawn = drawn + color_end_text();
        }
        self.out.append("\u{e0b0}");
        proof {
            lemma_concat(before, drawn, seq![ARROW]);
        }
    }

    /// Starts a chip on the background `bg`.
    pub fn new_part(&mut self, bg: u8)
        ensures
            final(self).conf() == old(self).conf(),
            final(self).last_background() == Some(bg),
            final(self).rendered() == old(self).rendered() + new_part_text(
                old(self).last_background(),
                bg,
            ),
    {
        let ghost before = self.out@;
        proof {
            reveal_strlit(" ");
            reveal_strlit(" \u{e0b1} ");
        }
        match self.last_bg {
            None => {
                // First part
                self.bg(bg);
                self.out.append(" ");
                proof {
                    lemma_concat(before, paint_text(bg), seq![' ']);
                }
            },
            Some(last_bg) => {
                if last_bg == bg {
                    // Same color part
                    self.style(Style::color(0));
                    self.out.append(" \u{e0b1} ");
                    proof {
                        lemma_concat(
                            before,
                            style_text(Some(last_bg), Style::plain(0)),
                            seq![' ', THIN_ARROW, ' '],
                        );
                    }
                } else {
                    // Different color part
                    self.arrow(last_bg, bg);
                    let ghost drawn = seq![' '] + color_begin_text() + fg_text(last_bg) + bg_text(
                        bg,
                    ) + color_end_text() + seq![ARROW];
                    self.bg(bg);
                    proof {
                        lemma_concat(before, drawn, paint_text(bg));
                    }
                    self.out.append(" ");
                    proof {
                        lemma_concat(before, drawn + paint_text(bg), seq![' ']);
                    }
                }
            },
        }
        self.last_bg = Some(bg);
    }

    /// Ends the line. To be called once, behind the last chip.
    pub fn finish(&mut self)
        ensures
            final(self).conf() == old(self).conf(),
            final(self).last_background() == old(self).last_background(),
            final(self).rendered() == old(self).rendered() + finish_text(
                old(self).last_background(),
            ),
    {
        let ghost before = self.out@;
        proof {
            reveal_strlit(" ");
        }
        if self.last_bg.is_some() {
            self.out.append(" ");
            // Reset color
            self.color_begin();
            proof {
                lemma_concat(before, seq![' '], color_begin_text());
            }
            self.color_end();
            proof {
                lemma_concat(before, seq![' '] + color_begin_text(), color_end_text());
            }
        }
    }
}

} // verus!
