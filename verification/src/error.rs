//! Diagnostics that point at the offending place in the source.
use vstd::prelude::*;
use colored::Colorize;
use crate::token::Span;
use crate::text::{decimal, push_decimal, usize_to_string};

verus! {

/// A source file, held line by line.
pub struct Source {
    pub lines: Vec<String>,
}

/// The lines of a source file as character sequences.
pub open spec fn lines_view(lines: Seq<String>) -> Seq<Seq<char>> {
    Seq::new(lines.len(), |i: int| lines[i]@)
}

/// Line `n` (counted from one) of a source, empty when there is no such line.
pub open spec fn source_line(lines: Seq<Seq<char>>, n: nat) -> Seq<char> {
    if 1 <= n <= lines.len() {
        lines[n - 1]
    } else {
        Seq::empty()
    }
}

impl Source {
    pub fn new(lines: Vec<String>) -> (r: Source)
        ensures
            r.lines == lines,
    {
        Source { lines }
    }

    /// Line `n` (counted from one), empty when there is no such line.
    pub fn line(&self, n: usize) -> (r: String)
        ensures
            r@ == source_line(lines_view(self.lines@), n as nat),
    {
        if 1 <= n && n <= self.lines.len() {
            self.lines[n - 1].clone()
        } else {
            String::new()
        }
    }
}

/// An error that points at a place in the source.
#[derive(Debug)]
pub struct PreciseError {
    filename: String,
    heading: String,
    line: String,
    span: Span,
    text: String,
}

/// The view of a diagnostic.
pub struct ErrorV {
    pub filename: Seq<char>,
    pub heading: Seq<char>,
    pub line: Seq<char>,
    pub span: Span,
    pub text: Seq<char>,
}

impl View for PreciseError {
    type V = ErrorV;

    closed spec fn view(&self) -> ErrorV {
        ErrorV {
            filename: self.filename@,
            heading: self.heading@,
            line: self.line@,
            span: self.span,
            text: self.text@,
        }
    }
}

/// The file name that diagnostics report.
pub open spec fn default_filename() -> Seq<char> {
    "main.kya"@
}

/// The escape sequence that ends a colored piece of text.
pub open spec fn reset_code() -> Seq<char> {
    "\x1B[0m"@
}

/// The escape sequence that starts bold blue text.
pub open spec fn blue_bold_code() -> Seq<char> {
    "\x1B[1;34m"@
}

/// The escape sequence that starts bold red text.
pub open spec fn red_bold_code() -> Seq<char> {
    "\x1B[1;31m"@
}

/// `text` with the style that `code` starts put again after each reset sequence in it, so
/// that the style goes on after the reset (occurrences found from the left).
pub open spec fn escaped(text: Seq<char>, code: Seq<char>) -> Seq<char>
    decreases text.len(),
{
    if text.len() >= 4 && text.take(4) == reset_code() {
        reset_code() + code + escaped(text.skip(4), code)
    } else if text.len() == 0 {
        Seq::empty()
    } else {
        seq![text[0]] + escaped(text.drop_first(), code)
    }
}

/// `out` is `text` rendered in the style that `code` starts: either plain (coloring is off),
/// or the style's sequence, the text with the style put again after each reset sequence in
/// it, and the reset sequence.
pub open spec fn painted(out: Seq<char>, text: Seq<char>, code: Seq<char>) -> bool {
    out == text || out == code + escaped(text, code) + reset_code()
}

/// Renders `s` in bold blue.
///
/// Calls `Colorize::blue` and `Colorize::bold` of the `colored` crate and renders the result.
/// Whether escape sequences are emitted depends on the environment (`NO_COLOR`,
/// `CLICOLOR`, `CLICOLOR_FORCE`, whether standard output is a terminal, an override), so the
/// contract says that the output is either the text unchanged or the text in the style's
/// sequences, with the style repeated after each reset sequence inside the text.
#[verifier::external_body]
fn blue_bold(s: &str) -> (r: String)
    ensures
        painted(r@, s@, blue_bold_code()),
{
    s.blue().bold().to_string()
}

/// Renders `s` in bold red.
///
/// Calls `Colorize::red` and `Colorize::bold` of the `colored` crate and renders the result;
/// the contract says what `blue_bold`'s says, for the red style.
#[verifier::external_body]
fn red_bold(s: &str) -> (r: String)
    ensures
        painted(r@, s@, red_bold_code()),
{
    s.red().bold().to_string()
}

/// `n` spaces.
pub open spec fn spaces(n: nat) -> Seq<char> {
    Seq::new(n, |i: int| ' ')
}

fn push_spaces(out: &mut String, n: usize)
    ensures
        final(out)@ == old(out)@ + spaces(n as nat),
{
    proof { reveal_strlit(" "); }
    let mut i: usize = 0;
    while i < n
        invariant
            i <= n,
            out@ == old(out)@ + spaces(i as nat),
        decreases n - i,
    {
        proof { reveal_strlit(" "); }
        out.append(" ");
        i = i + 1;
        assert(out@ =~= old(out)@ + spaces(i as nat));
    }
}

/// One line of the sidebar: `len + 1` spaces, the bar, and a newline when asked.
pub open spec fn sidebar_text(len: nat, bar: Seq<char>, newline: bool) -> Seq<char> {
    spaces(len + 1) + bar + if newline { "\n"@ } else { Seq::empty() }
}

/// Appends a line of the sidebar; `bar` is the painted `|`.
pub fn sidebar(comment: &mut String, len: usize, newline: bool, bar: &str)
    requires
        len < usize::MAX,
    ensures
        final(comment)@ == old(comment)@ + sidebar_text(len as nat, bar@, newline),
{
    push_spaces(comment, len + 1);
    comment.append(bar);
    if newline {
        comment.append("\n");
        assert(comment@ == old(comment)@ + sidebar_text(len as nat, bar@, newline));
    } else {
        assert(comment@ == old(comment)@ + sidebar_text(len as nat, bar@, newline));
    }
}

/// The body of a diagnostic, given the painted pieces: the arrow, the line number,
/// the ` | ` separator, the sidebar bar and the caret with the message.
pub open spec fn layout(
    e: ErrorV,
    arrow: Seq<char>,
    num: Seq<char>,
    sep: Seq<char>,
    bar: Seq<char>,
    caret: Seq<char>,
) -> Seq<char> {
    let len = decimal(e.span.line as nat).len();
    spaces((len - 1) as nat) + arrow + " "@ + e.filename + ":"@ + decimal(e.span.line as nat) + ":"@
        + decimal(e.span.column as nat) + "\n"@
    + sidebar_text(len, bar, true)
    + num + sep + e.line + "\n"@
    + sidebar_text(len, bar, false) + spaces(e.span.column as nat) + caret + "\n"@
    + sidebar_text(len, bar, true)
}

/// The message of a diagnostic, given the painted word `error` and the painted body pieces.
pub open spec fn message(
    e: ErrorV,
    word: Seq<char>,
    arrow: Seq<char>,
    num: Seq<char>,
    sep: Seq<char>,
    bar: Seq<char>,
    caret: Seq<char>,
) -> Seq<char> {
    word + ": "@ + e.heading + "\n"@ + layout(e, arrow, num, sep, bar, caret)
}

/// Powers of ten.
pub open spec fn pow10(k: nat) -> nat
    decreases k,
{
    if k == 0 { 1 } else { 10 * pow10((k - 1) as nat) }
}

proof fn lemma_decimal_len(n: nat, k: nat)
    requires
        n < pow10(k),
        k >= 1,
    ensures
        1 <= decimal(n).len() <= k,
    decreases n,
{
    if n >= 10 {
        assert(k >= 2) by {
            if k == 1 {
                assert(pow10(1) == 10 * pow10(0));
            }
        }
        assert(n / 10 < pow10((k - 1) as nat)) by {
            assert(pow10(k) == 10 * pow10((k - 1) as nat));
        }
        lemma_decimal_len(n / 10, (k - 1) as nat);
    }
}

/// The number of digits of a `usize` lies between one and twenty.
pub proof fn lemma_usize_digits(n: usize)
    ensures
        1 <= decimal(n as nat).len() <= 20,
{
    assert(pow10(20) == 100000000000000000000nat) by {
        reveal_with_fuel(pow10, 21);
    }
    lemma_decimal_len(n as nat, 20);
}

impl PreciseError {
    pub fn new(line: String, span: Span, heading: String, text: String) -> (r: Self)
        ensures
            r@ == (ErrorV {
                filename: default_filename(),
                heading: heading@,
                line: line@,
                span,
                text: text@,
            }),
    {
        proof { reveal_strlit("main.kya"); }
        PreciseError { line, span, heading, text, filename: String::from_str("main.kya") }
    }

    /// Assembles the body of the diagnostic from its painted pieces.
    fn layout(&self, arrow: &str, num: &str, sep: &str, bar: &str, caret: &str) -> (r: String)
        requires
            self@.span.column + decimal(self@.span.line as nat).len() <= usize::MAX,
        ensures
            r@ == layout(self@, arrow@, num@, sep@, bar@, caret@),
    {
        let digits = usize_to_string(self.span.line);
        let len = digits.as_str().unicode_len();
        proof {
            lemma_usize_digits(self.span.line);
            reveal_strlit(" ");
            reveal_strlit(":");
            reveal_strlit("\n");
        }
        let mut comment = String::new();
        push_spaces(&mut comment, len - 1);
        comment.append(arrow);
        comment.append(" ");
        comment.append(self.filename.as_str());
        comment.append(":");
        push_decimal(&mut comment, self.span.line as u64);
        comment.append(":");
        push_decimal(&mut comment, self.span.column as u64);
        comment.append("\n");
        let ghost head = comment@;

        // empty line
        sidebar(&mut comment, len, true, bar);
        let ghost first = comment@;

        // line information
        comment.append(num);
        comment.append(sep);
        comment.append(self.line.as_str());
        comment.append("\n");
        let ghost second = comment@;

        // error text
        sidebar(&mut comment, len, false, bar);
        let mut end = self.span.column + len - 1;
        if len > 1 {
            end -= len - 1;
        }
        push_spaces(&mut comment, end);
        comment.append(caret);
        comment.append("\n");
        let ghost third = comment@;

        // empty line
        sidebar(&mut comment, len, true, bar);
        proof {
            let e = self@;
            assert(head == spaces((len - 1) as nat) + arrow@ + " "@ + e.filename + ":"@
                + decimal(e.span.line as nat) + ":"@ + decimal(e.span.column as nat) + "\n"@);
            assert(second == first + num@ + sep@ + e.line + "\n"@);
            assert(end == e.span.column);
            assert(third == second + sidebar_text(len as nat, bar@, false) + spaces(e.span.column as nat)
                + caret@ + "\n"@);
            assert(comment@ =~= layout(self@, arrow@, num@, sep@, bar@, caret@));
        }
        comment
    }

    /// The body of the diagnostic: where the error is, the source line, and a caret under
    /// the column with the explanation.
    pub fn build(&self) -> (r: String)
        requires
            self@.span.column + decimal(self@.span.line as nat).len() <= usize::MAX,
        ensures
            exists|arrow: Seq<char>, num: Seq<char>, sep: Seq<char>, bar: Seq<char>, caret: Seq<char>|
                {
                    &&& painted(arrow, "-->"@, blue_bold_code())
                    &&& painted(num, decimal(self@.span.line as nat), blue_bold_code())
                    &&& painted(sep, " | "@, blue_bold_code())
                    &&& painted(bar, "|"@, blue_bold_code())
                    &&& painted(caret, "^ "@ + self@.text, red_bold_code())
                    &&& r@ == layout(self@, arrow, num, sep, bar, caret)
                },
    {
        let arrow = blue_bold("-->");
        let digits = usize_to_string(self.span.line);
        let num = blue_bold(digits.as_str());
        let sep = blue_bold(" | ");
        let bar = blue_bold("|");
        let mut marked = String::from_str("^ ");
        marked.append(self.text.as_str());
        let caret = red_bold(marked.as_str());
        let r = self.layout(arrow.as_str(), num.as_str(), sep.as_str(), bar.as_str(), caret.as_str());
        assert({
            &&& painted(arrow@, "-->"@, blue_bold_code())
            &&& painted(num@, decimal(self.span.line as nat), blue_bold_code())
            &&& painted(sep@, " | "@, blue_bold_code())
            &&& painted(bar@, "|"@, blue_bold_code())
            &&& painted(caret@, "^ "@ + self.text@, red_bold_code())
            &&& r@ == layout(self@, arrow@, num@, sep@, bar@, caret@)
        });
        r
    }

    /// The whole diagnostic: the word `error`, the heading, and the body.
    pub fn display(&self) -> (r: String)
        requires
            self@.span.column + decimal(self@.span.line as nat).len() <= usize::MAX,
        ensures
            exists|word: Seq<char>, arrow: Seq<char>, num: Seq<char>, sep: Seq<char>, bar: Seq<char>, caret: Seq<char>|
                {
                    &&& painted(word, "error"@, red_bold_code())
                    &&& painted(arrow, "-->"@, blue_bold_code())
                    &&& painted(num, decimal(self@.span.line as nat), blue_bold_code())
                    &&& painted(sep, " | "@, blue_bold_code())
                    &&& painted(bar, "|"@, blue_bold_code())
                    &&& painted(caret, "^ "@ + self@.text, red_bold_code())
                    &&& r@ == message(self@, word, arrow, num, sep, bar, caret)
                },
    {
        let mut r = red_bold("error");
        let ghost word = r@;
        proof {
            reveal_strlit(": ");
            reveal_strlit("\n");
        }
        r.append(": ");
        r.append(self.heading.as_str());
        r.append("\n");
        let body = self.build();
        r.append(body.as_str());
        assert(r@ == word + ": "@ + self.heading@ + "\n"@ + body@);
        proof {
            let (a, n, sp, b, c) = choose|a: Seq<char>, n: Seq<char>, sp: Seq<char>, b: Seq<char>, c: Seq<char>|
                {
                    &&& painted(a, "-->"@, blue_bold_code())
                    &&& painted(n, decimal(self@.span.line as nat), blue_bold_code())
                    &&& painted(sp, " | "@, blue_bold_code())
                    &&& painted(b, "|"@, blue_bold_code())
                    &&& painted(c, "^ "@ + self@.text, red_bold_code())
                    &&& body@ == layout(self@, a, n, sp, b, c)
                };
            assert(r@ == message(self@, word, a, n, sp, b, c));
        }
        r
    }

    pub fn heading(&self) -> (r: &String)
        ensures
            r@ == self@.heading,
    {
        &self.heading
    }

    pub fn text(&self) -> (r: &String)
        ensures
            r@ == self@.text,
    {
        &self.text
    }

    pub fn line(&self) -> (r: &String)
        ensures
            r@ == self@.line,
    {
        &self.line
    }

    pub fn span(&self) -> (r: Span)
        ensures
            r == self@.span,
    {
        self.span
    }
}

} // verus!
