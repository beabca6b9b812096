//! Panels and the rendering engine.
//!
//! A [`Block`] is a bordered rectangle of character cells with a title and
//! a list of content lines.  Drawing one produces a [`DrawOp`] per row: the
//! exact text of that row and the screen position it belongs at.  A frame
//! is the concatenation of clearing operations for every screen row with
//! the operations of every panel; the thin program around the library
//! positions the cursor and writes each operation's text.

use vstd::prelude::*;

use crate::text::{chars_of, clip_pad, clip_pad_chars, repeat_char, string_from_chars, trim_chars, trim_spec};

verus! {

/// A bordered rectangular terminal region: its top-left corner, its size
/// in character cells, its title, and its content lines.
#[derive(Debug)]
pub struct Block {
    pub x: usize,
    pub y: usize,
    pub width: usize,
    pub height: usize,
    pub title: String,
    pub content: Vec<String>,
}

/// The mathematical shape of a [`Block`].
#[verifier::ext_equal]
pub ghost struct BlockV {
    pub x: int,
    pub y: int,
    pub width: int,
    pub height: int,
    pub title: Seq<char>,
    pub content: Seq<Seq<char>>,
}

impl View for Block {
    type V = BlockV;

    open spec fn view(&self) -> BlockV {
        BlockV {
            x: self.x as int,
            y: self.y as int,
            width: self.width as int,
            height: self.height as int,
            title: self.title@,
            content: self.content.deep_view(),
        }
    }
}

impl DeepView for Block {
    type V = BlockV;

    open spec fn deep_view(&self) -> BlockV {
        self.view()
    }
}

/// The border invariant: room for the title beside a border cell, a top
/// and a bottom row, and coordinates that stay within the address space.
pub open spec fn block_wf(b: BlockV) -> bool {
    &&& b.title.len() + 2 <= b.width
    &&& 2 <= b.height
    &&& 0 <= b.x
    &&& 0 <= b.y
    &&& b.x + b.width <= usize::MAX
    &&& b.y + b.height <= usize::MAX
}

/// One positioned write: `text` belongs at screen row `row`, column
/// `col`.
#[derive(Debug)]
pub struct DrawOp {
    pub row: usize,
    pub col: usize,
    pub text: String,
}

/// The mathematical shape of a [`DrawOp`].
#[verifier::ext_equal]
pub ghost struct OpV {
    pub row: int,
    pub col: int,
    pub text: Seq<char>,
}

impl View for DrawOp {
    type V = OpV;

    open spec fn view(&self) -> OpV {
        OpV { row: self.row as int, col: self.col as int, text: self.text@ }
    }
}

impl DeepView for DrawOp {
    type V = OpV;

    open spec fn deep_view(&self) -> OpV {
        self.view()
    }
}

/// A panel's top border: one fill cell, the title, then fill cells out to
/// the panel's width.
pub open spec fn top_border_spec(b: BlockV) -> Seq<char> {
    seq!['-'] + b.title + Seq::new((b.width - b.title.len() - 1) as nat, |i: int| '-')
}

/// A panel's bottom border: fill cells across the whole width.
pub open spec fn bottom_border_spec(b: BlockV) -> Seq<char> {
    Seq::new(b.width as nat, |i: int| '-')
}

/// Interior row `i` of a panel: a border cell, the matching content line
/// trimmed of surrounding whitespace and clipped or padded to the interior
/// width, and a border cell.  Rows beyond the content show blanks.
pub open spec fn interior_row_spec(b: BlockV, i: int) -> Seq<char> {
    let line = if 0 <= i - 1 < b.content.len() {
        trim_spec(b.content[i - 1])
    } else {
        Seq::<char>::empty()
    };
    seq!['|'] + clip_pad(line, (b.width - 2) as nat) + seq!['|']
}

/// Row `i` of a panel, `0 <= i < height`: top border, interior rows,
/// bottom border.
pub open spec fn block_row_spec(b: BlockV, i: int) -> Seq<char> {
    if i == 0 {
        top_border_spec(b)
    } else if i == b.height - 1 {
        bottom_border_spec(b)
    } else {
        interior_row_spec(b, i)
    }
}

/// Every draw operation of one panel: row `i`'s text at screen position
/// `(y + i, x)`.
pub open spec fn block_ops_spec(b: BlockV) -> Seq<OpV> {
    Seq::new(b.height as nat, |i: int| OpV { row: b.y + i, col: b.x, text: block_row_spec(b, i) })
}

/// The operations that blank the whole screen: a run of spaces across
/// every row.
pub open spec fn clear_ops_spec(width: int, height: int) -> Seq<OpV> {
    Seq::new(
        height as nat,
        |i: int| OpV { row: i, col: 0, text: crate::text::spaces(width as nat) },
    )
}

/// The operations of a whole list of panels, in order.
pub open spec fn blocks_ops_spec(bs: Seq<BlockV>) -> Seq<OpV>
    decreases bs.len(),
{
    if bs.len() == 0 {
        Seq::empty()
    } else {
        blocks_ops_spec(bs.drop_last()) + block_ops_spec(bs.last())
    }
}

/// A full frame: blank every screen row, then draw every panel.
pub open spec fn frame_ops_spec(width: int, height: int, bs: Seq<BlockV>) -> Seq<OpV> {
    clear_ops_spec(width, height) + blocks_ops_spec(bs)
}

/// Append the characters of `src` to `dst`.
fn push_all(dst: &mut Vec<char>, src: &Vec<char>)
    ensures
        final(dst)@ == old(dst)@ + src@,
{
    let mut i: usize = 0;
    while i < src.len()
        invariant
            i <= src@.len(),
            dst@ == old(dst)@ + src@.take(i as int),
        decreases src@.len() - i,
    {
        let c = src[i];
        dst.push(c);
        proof {
            assert(old(dst)@ + src@.take(i + 1) =~= (old(dst)@ + src@.take(i as int)).push(c));
        }
        i += 1;
    }
    proof {
        assert(old(dst)@ + src@.take(src@.len() as int) =~= old(dst)@ + src@);
    }
}

impl Block {
    /// A titled panel at the given position and size, with no content
    /// yet.
    pub fn new(x: usize, y: usize, width: usize, height: usize, title: &str) -> (b: Block)
        ensures
            b@ == (BlockV {
                x: x as int,
                y: y as int,
                width: width as int,
                height: height as int,
                title: title@,
                content: Seq::<Seq<char>>::empty(),
            }),
    {
        let b = Block { x, y, width, height, title: title.to_owned(), content: Vec::new() };
        proof {
            assert(b.content.deep_view() =~= Seq::<Seq<char>>::empty());
        }
        b
    }

    /// The text of interior row `i`.
    fn interior_row(&self, i: usize) -> (r: Vec<char>)
        requires
            block_wf(self@),
            1 <= i < self@.height - 1,
        ensures
            r@ == interior_row_spec(self@, i as int),
    {
        let line: Vec<char> = if i - 1 < self.content.len() {
            let cs = chars_of(self.content[i - 1].as_str());
            trim_chars(&cs)
        } else {
            Vec::new()
        };
        let clipped = clip_pad_chars(line, self.width - 2);
        let mut row: Vec<char> = Vec::new();
        row.push('|');
        push_all(&mut row, &clipped);
        row.push('|');
        proof {
            assert(row@ =~= interior_row_spec(self@, i as int));
        }
        row
    }

    /// Draw the panel: one positioned text per row, top border first,
    /// bottom border last.
    #[verifier::loop_isolation(false)]
    pub fn draw(&self) -> (ops: Vec<DrawOp>)
        requires
            block_wf(self@),
        ensures
            ops.deep_view() == block_ops_spec(self@),
    {
        let mut ops: Vec<DrawOp> = Vec::new();

        // Top border: a fill cell, the title, fill out to the width.
        let mut top: Vec<char> = Vec::new();
        top.push('-');
        let title_chars = chars_of(self.title.as_str());
        push_all(&mut top, &title_chars);
        let fill = repeat_char('-', self.width - title_chars.len() - 1);
        push_all(&mut top, &fill);
        proof {
            assert(top@ =~= top_border_spec(self@));
        }
        ops.push(DrawOp { row: self.y, col: self.x, text: string_from_chars(&top) });
        proof {
            assert(ops.deep_view() =~= block_ops_spec(self@).take(1));
        }

        // Interior rows.
        let mut i: usize = 1;
        while i < self.height - 1
            invariant
                1 <= i <= self@.height - 1,
                ops.deep_view() == block_ops_spec(self@).take(i as int),
            decreases self@.height - 1 - i,
        {
            let row = self.interior_row(i);
            ops.push(DrawOp { row: self.y + i, col: self.x, text: string_from_chars(&row) });
            proof {
                assert(ops.deep_view() =~= block_ops_spec(self@).take(i + 1));
            }
            i += 1;
        }

        // Bottom border.
        let bottom = repeat_char('-', self.width);
        let ghost pre_deep = ops.deep_view();
        let ghost pre_seq = ops@;
        let bop = DrawOp {
            row: self.y + self.height - 1,
            col: self.x,
            text: string_from_chars(&bottom),
        };
        ops.push(bop);
        proof {
            let b = self@;
            let sp = block_ops_spec(b);
            assert(bottom@ =~= bottom_border_spec(b));
            assert forall|j: int| 0 <= j < b.height implies ops.deep_view()[j] == sp[j] by {
                if j < b.height - 1 {
                    assert(ops@[j] == pre_seq[j]);
                    assert(ops.deep_view()[j] == pre_seq[j].deep_view());
                    assert(pre_deep[j] == pre_seq[j].deep_view());
                    assert(pre_deep[j] == sp.take(b.height - 1)[j]);
                } else {
                    assert(ops@[j] == bop);
                    assert(ops.deep_view()[j] == bop.deep_view());
                }
            }
            assert(ops.deep_view() =~~= sp);
        }
        ops
    }
}

/// The frame for a whole list of panels: blank every screen row, then
/// every panel's rows, in order.
#[verifier::loop_isolation(false)]
pub fn draw_frame(width: usize, height: usize, blocks: &Vec<Block>) -> (ops: Vec<DrawOp>)
    requires
        forall|i: int| 0 <= i < blocks@.len() ==> block_wf(#[trigger] blocks@[i]@),
    ensures
        ops.deep_view() == frame_ops_spec(width as int, height as int, blocks.deep_view()),
{
    let mut ops: Vec<DrawOp> = Vec::new();
    let mut y: usize = 0;
    while y < height
        invariant
            y <= height,
            ops.deep_view() == clear_ops_spec(width as int, height as int).take(y as int),
        decreases height - y,
    {
        let blank = repeat_char(' ', width);
        ops.push(DrawOp { row: y, col: 0, text: string_from_chars(&blank) });
        proof {
            assert(blank@ =~= crate::text::spaces(width as nat));
            assert(ops.deep_view() =~= clear_ops_spec(width as int, height as int).take(y + 1));
        }
        y += 1;
    }
    proof {
        assert(clear_ops_spec(width as int, height as int).take(height as int) =~= clear_ops_spec(
            width as int,
            height as int,
        ));
        assert(blocks.deep_view().take(0) =~= Seq::<BlockV>::empty());
        assert(ops.deep_view() =~= clear_ops_spec(width as int, height as int) + blocks_ops_spec(
            blocks.deep_view().take(0),
        ));
    }
    let mut b: usize = 0;
    while b < blocks.len()
        invariant
            b <= blocks@.len(),
            ops.deep_view() == clear_ops_spec(width as int, height as int) + blocks_ops_spec(
                blocks.deep_view().take(b as int),
            ),
        decreases blocks@.len() - b,
    {
        let mut block_ops = blocks[b].draw();
        let ghost pre = ops.deep_view();
        ops.append(&mut block_ops);
        proof {
            let bs = blocks.deep_view();
            assert(ops.deep_view() =~= pre + block_ops_spec(bs[b as int]));
            assert(bs.take(b + 1).drop_last() =~= bs.take(b as int));
            assert(bs.take(b + 1).last() == bs[b as int]);
            assert(ops.deep_view() =~= clear_ops_spec(width as int, height as int)
                + blocks_ops_spec(bs.take(b + 1)));
        }
        b += 1;
    }
    proof {
        assert(blocks.deep_view().take(blocks@.len() as int) =~= blocks.deep_view());
    }
    ops
}

} // verus!
