use vstd::prelude::*;
use vstd::string::StringExecFns;

use unicode_segmentation::UnicodeSegmentation;

verus! {

/// How many display columns a piece of text occupies: its extended grapheme
/// cluster count, a pure function of its characters.
pub uninterp spec fn grapheme_count_of(s: Seq<char>) -> nat;

/// Relies on unicode_segmentation's `UnicodeSegmentation::graphemes`, with
/// extended grapheme clusters, to measure text in display columns: the
/// cluster count of a string depends on its characters alone.
#[verifier::external_body]
fn grapheme_count(input: &str) -> (r: usize)
    ensures
        r == grapheme_count_of(input@),
{
    UnicodeSegmentation::graphemes(input, true).count()
}

/// The larger of two widths.
pub open spec fn max_width(a: nat, b: nat) -> nat {
    if b > a {
        b
    } else {
        a
    }
}

/// `n` copies of one character; none for a negative count.
pub open spec fn char_repeat(c: char, n: int) -> Seq<char> {
    Seq::new(
        if n >= 0 {
            n as nat
        } else {
            0
        },
        |i: int| c,
    )
}

/// The display width and characters of each collected line.
pub open spec fn line_views(lines: Seq<(usize, String)>) -> Seq<(nat, Seq<char>)> {
    lines.map(|i: int, p: (usize, String)| (p.0 as nat, p.1@))
}

/// The top border: a corner, one dash, the heading, dashes out to the full
/// width, one dash and the closing corner.
pub open spec fn render_top(heading: Seq<char>, fw: int) -> Seq<char> {
    "\u{250c}\u{2500}"@ + heading + char_repeat('\u{2500}', fw - grapheme_count_of(heading))
        + "\u{2500}\u{2510}\r\n"@
}

/// One boxed line: the border, the text, blanks out to the full width, the
/// border again.
pub open spec fn render_line(line: (nat, Seq<char>), fw: int) -> Seq<char> {
    "\u{2502} "@ + line.1 + char_repeat(' ', fw - line.0) + " \u{2502}\r\n"@
}

/// The first `n` collected lines, each boxed, in order.
pub open spec fn render_lines(lines: Seq<(nat, Seq<char>)>, n: int, fw: int) -> Seq<char>
    decreases n,
{
    if n <= 0 {
        Seq::empty()
    } else {
        render_lines(lines, n - 1, fw) + render_line(lines[n - 1], fw)
    }
}

/// The bottom border: a corner, dashes across the full width, the closing
/// corner.
pub open spec fn render_bottom(fw: int) -> Seq<char> {
    "\u{2514}\u{2500}"@ + char_repeat('\u{2500}', fw) + "\u{2500}\u{2518}\r\n"@
}

/// The whole panel: the box is sized to the widest collected line or to the
/// heading, whichever needs more columns.
pub open spec fn render_box(lines: Seq<(nat, Seq<char>)>, width: nat, heading: Seq<char>) -> Seq<
    char,
> {
    let fw = max_width(width, grapheme_count_of(heading)) as int;
    render_top(heading, fw) + render_lines(lines, lines.len() as int, fw) + render_bottom(fw)
}

/// A bordered text panel: lines are collected together with their display
/// widths, and the border is sized to the widest line or heading.
#[derive(Debug)]
pub struct AsciiBox {
    pub lines: Vec<(usize, String)>,
    pub width: usize,
}

impl AsciiBox {
    /// Every collected width fits under the running maximum.
    pub open spec fn wf(self) -> bool {
        forall|i: int| 0 <= i < self.lines@.len() ==> (#[trigger] self.lines@[i]).0 <= self.width
    }

    /// Collect one line; the box grows to fit it.
    pub fn add_line(&mut self, line: &str)
        requires
            old(self).wf(),
        ensures
            final(self).wf(),
            final(self).lines@.len() == old(self).lines@.len() + 1,
            forall|i: int|
                0 <= i < old(self).lines@.len() ==> #[trigger] final(self).lines@[i] == old(
                    self,
                ).lines@[i],
            final(self).lines@.last().0 == grapheme_count_of(line@),
            final(self).lines@.last().1@ == line@,
            final(self).width == max_width(old(self).width as nat, grapheme_count_of(line@)),
    {
        let line_width = grapheme_count(line);
        if line_width > self.width {
            self.width = line_width;
        }
        self.lines.push((line_width, line.to_owned()));
    }

    /// Render the whole panel, exactly as `render_box` lays it out.
    pub fn print(&self, heading: &str) -> (out: String)
        requires
            self.wf(),
        ensures
            out@ == render_box(line_views(self.lines@), self.width as nat, heading@),
    {
        let heading_width = grapheme_count(heading);
        let final_width = if heading_width > self.width {
            heading_width
        } else {
            self.width
        };
        let ghost fw: int = max_width(self.width as nat, grapheme_count_of(heading@)) as int;
        assert(final_width == fw);

        proof {
            reveal_strlit("\u{2500}");
            reveal_strlit(" ");
        }

        let mut out = String::new();
        out.append("\u{250c}\u{2500}");
        out.append(heading);
        append_repeat(&mut out, "\u{2500}", final_width - heading_width);
        out.append("\u{2500}\u{2510}\r\n");
        assert(out@ =~= render_top(heading@, fw));

        let n = self.lines.len();
        let mut idx: usize = 0;
        while idx < n
            invariant
                idx <= n,
                n == self.lines@.len(),
                self.wf(),
                self.width <= final_width,
                final_width == fw,
                " "@.len() == 1,
                " "@[0] == ' ',
                out@ == render_top(heading@, fw) + render_lines(
                    line_views(self.lines@),
                    idx as int,
                    fw,
                ),
            decreases n - idx,
        {
            let line_width = self.lines[idx].0;
            out.append("\u{2502} ");
            out.append(self.lines[idx].1.as_str());
            append_repeat(&mut out, " ", final_width - line_width);
            out.append(" \u{2502}\r\n");
            proof {
                assert(line_views(self.lines@)[idx as int] == (
                (self.lines@[idx as int].0 as nat, self.lines@[idx as int].1@)));
                assert(out@ =~= render_top(heading@, fw) + render_lines(
                    line_views(self.lines@),
                    idx + 1,
                    fw,
                ));
            }
            idx += 1;
        }

        out.append("\u{2514}\u{2500}");
        append_repeat(&mut out, "\u{2500}", final_width);
        out.append("\u{2500}\u{2518}\r\n");
        proof {
            assert(line_views(self.lines@).len() == self.lines@.len());
            assert(out@ =~= render_box(line_views(self.lines@), self.width as nat, heading@));
        }
        out
    }
}

impl Default for AsciiBox {
    /// An empty panel: no lines, no width yet.
    fn default() -> (b: Self)
        ensures
            b.lines@.len() == 0,
            b.width == 0,
            b.wf(),
    {
        AsciiBox { lines: Vec::new(), width: 0 }
    }
}

/// Append `n` copies of a one-character piece.
fn append_repeat(out: &mut String, piece: &str, n: usize)
    requires
        piece@.len() == 1,
    ensures
        final(out)@ == old(out)@ + char_repeat(piece@[0], n as int),
{
    let mut i: usize = 0;
    while i < n
        invariant
            i <= n,
            piece@.len() == 1,
            out@ == old(out)@ + char_repeat(piece@[0], i as int),
        decreases n - i,
    {
        out.append(piece);
        proof {
            assert(out@ =~= old(out)@ + char_repeat(piece@[0], (i + 1) as int));
        }
        i += 1;
    }
    assert(out@ =~= old(out)@ + char_repeat(piece@[0], n as int));
}

} // verus!
