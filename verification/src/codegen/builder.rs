//! An assembly text builder: three named segments of lines, a movable
//! insertion cursor, and a counter for interned string constants.

use vstd::prelude::*;
use vstd::string::StringSliceAdditionalSpecFns;
use crate::error::{dec_of, dec_str};

verus! {

/// The views of a sequence of text lines.
pub open spec fn lines_view(ls: Seq<String>) -> Seq<Seq<char>> {
    ls.map_values(|s: String| s@)
}

/// One output segment: its lines, and whether its header line was emitted.
#[derive(Debug)]
pub struct Segment {
    pub lines: Vec<String>,
    pub has_header: bool,
}

impl Segment {
    pub fn new() -> (r: Self)
        ensures
            r.lines@.len() == 0,
            !r.has_header,
    {
        Segment { lines: Vec::new(), has_header: false }
    }

    /// Insert a line at the given index, shifting the rest down.
    pub fn insert(&mut self, idx: usize, line: String)
        requires
            idx <= old(self).lines@.len(),
        ensures
            final(self).lines@ == old(self).lines@.insert(idx as int, line),
            final(self).has_header == old(self).has_header,
    {
        self.lines.insert(idx, line);
    }

    /// Append a line.
    pub fn push(&mut self, line: String)
        ensures
            final(self).lines@ == old(self).lines@.push(line),
            final(self).has_header == old(self).has_header,
    {
        self.lines.push(line);
    }

    /// Concatenate the lines with the given separator between them.
    pub fn join(&self, sep: &str) -> (r: String)
        ensures
            r@ == join_text(lines_view(self.lines@), sep@),
    {
        let mut r = String::new();
        let mut i: usize = 0;
        while i < self.lines.len()
            invariant
                i <= self.lines@.len(),
                r@ == join_text(lines_view(self.lines@).take(i as int), sep@),
            decreases self.lines@.len() - i,
        {
            if i > 0 {
                r.append(sep);
            }
            r.append(self.lines[i].as_str());
            i = i + 1;
            proof {
                lemma_join_text_step(lines_view(self.lines@), sep@, i as int);
            }
        }
        proof {
            assert(lines_view(self.lines@).take(self.lines@.len() as int)
                =~= lines_view(self.lines@));
        }
        r
    }
}

/// The text obtained by joining lines with a separator.
pub open spec fn join_text(ls: Seq<Seq<char>>, sep: Seq<char>) -> Seq<char>
    decreases ls.len(),
{
    if ls.len() == 0 {
        Seq::empty()
    } else if ls.len() == 1 {
        ls[0]
    } else {
        join_text(ls.drop_last(), sep) + sep + ls.last()
    }
}

proof fn lemma_join_text_step(ls: Seq<Seq<char>>, sep: Seq<char>, i: int)
    requires
        0 < i <= ls.len(),
    ensures
        join_text(ls.take(i), sep) == if i == 1 {
            ls[0]
        } else {
            join_text(ls.take(i - 1), sep) + sep + ls[i - 1]
        },
{
    let t = ls.take(i);
    if i == 1 {
        assert(join_text(t, sep) == t[0]);
    } else {
        assert(t.drop_last() =~= ls.take(i - 1));
        assert(t.last() == ls[i - 1]);
    }
}

/// Which segment the cursor writes into.
#[derive(Debug, Clone, Copy, PartialEq, Eq, Structural)]
pub enum SegmentKind {
    Bss,
    Text,
    Data,
}

/// Where within the active segment new lines land.
#[derive(Debug, Clone, Copy, PartialEq, Eq, Structural)]
pub enum InsertPoint {
    Start,
    End,
    Line(usize),
}

/// The effect of one insertion at the cursor.
pub open spec fn insert_one(o: Seq<Seq<char>>, pt: InsertPoint, x: Seq<char>) -> Seq<Seq<char>> {
    match pt {
        InsertPoint::Start => o.insert(0, x),
        InsertPoint::End => o.push(x),
        InsertPoint::Line(n) => o.insert(n as int, x),
    }
}

/// The effect of inserting a block of lines one by one at the cursor.
pub open spec fn inserted_block(o: Seq<Seq<char>>, pt: InsertPoint, ls: Seq<Seq<char>>) -> Seq<
    Seq<char>,
>
    decreases ls.len(),
{
    if ls.len() == 0 {
        o
    } else {
        insert_one(inserted_block(o, pt, ls.drop_last()), pt, ls.last())
    }
}

/// The assembly builder: a `bss`, a `text` and a `data` segment, plus the
/// insertion cursor and the counter used to name interned strings.
#[derive(Debug)]
pub struct Builder {
    pub bss: Segment,
    pub text: Segment,
    pub data: Segment,
    pub insert_segment: SegmentKind,
    pub insert_point: InsertPoint,
    pub const_str_counter: usize,
}

impl Builder {
    /// The lines of the given segment, as character sequences.
    pub open spec fn seg_v(self, k: SegmentKind) -> Seq<Seq<char>> {
        match k {
            SegmentKind::Bss => lines_view(self.bss.lines@),
            SegmentKind::Text => lines_view(self.text.lines@),
            SegmentKind::Data => lines_view(self.data.lines@),
        }
    }

    /// The lines of the segment the cursor writes into.
    pub open spec fn active_v(self) -> Seq<Seq<char>> {
        self.seg_v(self.insert_segment)
    }

    /// Insertion at the cursor stays in bounds.
    pub open spec fn cursor_ok(self) -> bool {
        self.insert_point matches InsertPoint::Line(n) ==> n <= self.active_v().len()
    }

    /// Everything but the active segment's lines is unchanged.
    pub open spec fn same_but_active(self, o: Builder) -> bool {
        &&& self.insert_segment == o.insert_segment
        &&& self.insert_point == o.insert_point
        &&& self.const_str_counter == o.const_str_counter
        &&& self.bss.has_header == o.bss.has_header
        &&& self.text.has_header == o.text.has_header
        &&& self.data.has_header == o.data.has_header
        &&& forall|k: SegmentKind| k != o.insert_segment ==> self.seg_v(k) == o.seg_v(k)
    }

    pub fn new() -> (r: Self)
        ensures
            r.seg_v(SegmentKind::Bss).len() == 0,
            r.seg_v(SegmentKind::Text).len() == 0,
            r.seg_v(SegmentKind::Data).len() == 0,
            r.insert_segment == SegmentKind::Bss,
            r.insert_point == InsertPoint::End,
            r.const_str_counter == 0,
            !r.bss.has_header && !r.text.has_header && !r.data.has_header,
    {
        let tmp = Self {
            bss: Segment::new(),
            text: Segment::new(),
            data: Segment::new(),
            insert_segment: SegmentKind::Bss,
            insert_point: InsertPoint::End,
            const_str_counter: 0,
        };
        proof {
            assert(lines_view(tmp.bss.lines@) =~= Seq::<Seq<char>>::empty());
            assert(lines_view(tmp.text.lines@) =~= Seq::<Seq<char>>::empty());
            assert(lines_view(tmp.data.lines@) =~= Seq::<Seq<char>>::empty());
        }
        tmp
    }

    /// Point the cursor at the end of the given segment.
    pub fn set_insert_segment(&mut self, segment: SegmentKind)
        ensures
            final(self).insert_segment == segment,
            final(self).insert_point == InsertPoint::End,
            final(self).bss == old(self).bss,
            final(self).text == old(self).text,
            final(self).data == old(self).data,
            final(self).const_str_counter == old(self).const_str_counter,
    {
        self.insert_segment = segment;
        self.insert_point = InsertPoint::End;
    }

    /// The segment the cursor writes into.
    pub fn get_insert_segment(&self) -> (r: &Segment)
        ensures
            *r == match self.insert_segment {
                SegmentKind::Bss => self.bss,
                SegmentKind::Text => self.text,
                SegmentKind::Data => self.data,
            },
    {
        match self.insert_segment {
            SegmentKind::Bss => &self.bss,
            SegmentKind::Text => &self.text,
            SegmentKind::Data => &self.data,
        }
    }

    /// Move the cursor within the active segment.
    pub fn set_insert_point(&mut self, ins_pt: InsertPoint)
        ensures
            final(self).insert_point == ins_pt,
            final(self).insert_segment == old(self).insert_segment,
            final(self).bss == old(self).bss,
            final(self).text == old(self).text,
            final(self).data == old(self).data,
            final(self).const_str_counter == old(self).const_str_counter,
    {
        self.insert_point = ins_pt;
    }

    /// Write one line at the cursor.
    pub fn insert(&mut self, line: String)
        requires
            old(self).cursor_ok(),
        ensures
            final(self).same_but_active(*old(self)),
            final(self).active_v() == insert_one(
                old(self).active_v(),
                old(self).insert_point,
                line@,
            ),
    {
        let ghost o = *self;
        match self.insert_point {
            InsertPoint::Start => match self.insert_segment {
                SegmentKind::Bss => self.bss.insert(0, line),
                SegmentKind::Text => self.text.insert(0, line),
                SegmentKind::Data => self.data.insert(0, line),
            },
            InsertPoint::End => match self.insert_segment {
                SegmentKind::Bss => self.bss.push(line),
                SegmentKind::Text => self.text.push(line),
                SegmentKind::Data => self.data.push(line),
            },
            InsertPoint::Line(line_no) => match self.insert_segment {
                SegmentKind::Bss => self.bss.insert(line_no, line),
                SegmentKind::Text => self.text.insert(line_no, line),
                SegmentKind::Data => self.data.insert(line_no, line),
            },
        }
        proof {
            assert(self.active_v() =~= insert_one(o.active_v(), o.insert_point, line@));
            assert forall|k: SegmentKind| k != o.insert_segment implies self.seg_v(k) == o.seg_v(
                k,
            ) by {}
        }
    }

    /// Intern a string constant in the data segment: a label line and a
    /// `db` line holding the string's bytes in decimal. Returns the
    /// constant's index and restores the cursor.
    pub fn new_const_str(&mut self, value: &str) -> (r: usize)
        requires
            old(self).const_str_counter < usize::MAX,
        ensures
            r == old(self).const_str_counter,
            final(self).const_str_counter == old(self).const_str_counter + 1,
            final(self).insert_segment == old(self).insert_segment,
            final(self).insert_point == old(self).insert_point,
            final(self).seg_v(SegmentKind::Data) == old(self).seg_v(SegmentKind::Data).push(
                const_str_label(old(self).const_str_counter as nat) + ":"@,
            ).push("    db      "@ + bytes_text(value.spec_bytes())),
            old(self).insert_segment != SegmentKind::Data ==> final(self).active_v() == old(
                self,
            ).active_v(),
            final(self).bss.has_header == old(self).bss.has_header,
            final(self).text.has_header == old(self).text.has_header,
            final(self).data.has_header == old(self).data.has_header,
            final(self).seg_v(SegmentKind::Bss) == old(self).seg_v(SegmentKind::Bss),
            final(self).seg_v(SegmentKind::Text) == old(self).seg_v(SegmentKind::Text),
    {
        let prev_ins_pt = self.insert_point;
        let prev_ins_seg = self.insert_segment;
        self.set_insert_segment(SegmentKind::Data);
        self.set_insert_point(InsertPoint::End);
        let ghost b2 = *self;
        let mut label = String::from_str("const_str_");
        label.append(dec_str(self.const_str_counter).as_str());
        let mut label_line = label;
        label_line.append(":");
        self.insert(label_line);
        let ghost b3 = *self;
        proof {
            assert(b3.seg_v(SegmentKind::Bss) == b2.seg_v(SegmentKind::Bss));
            assert(b3.seg_v(SegmentKind::Text) == b2.seg_v(SegmentKind::Text));
        }
        let mut db_line = String::from_str("    db      ");
        db_line.append(bytes_str(value.as_bytes()).as_str());
        self.insert(db_line);
        let ghost b4 = *self;
        proof {
            assert(b4.seg_v(SegmentKind::Bss) == b3.seg_v(SegmentKind::Bss));
            assert(b4.seg_v(SegmentKind::Text) == b3.seg_v(SegmentKind::Text));
        }
        self.const_str_counter = self.const_str_counter + 1;
        self.set_insert_segment(prev_ins_seg);
        self.set_insert_point(prev_ins_pt);
        proof {
            assert(self.seg_v(SegmentKind::Data) =~= old(self).seg_v(SegmentKind::Data).push(
                const_str_label(old(self).const_str_counter as nat) + ":"@,
            ).push("    db      "@ + bytes_text(value.spec_bytes())));
            assert(self.seg_v(SegmentKind::Bss) == old(self).seg_v(SegmentKind::Bss));
            assert(self.seg_v(SegmentKind::Text) == old(self).seg_v(SegmentKind::Text));
        }
        self.const_str_counter - 1
    }

    /// Total number of lines, counting the three segment headers.
    pub fn count_lines(&self) -> (r: usize)
        requires
            self.seg_v(SegmentKind::Bss).len() + self.seg_v(SegmentKind::Text).len() + self.seg_v(
                SegmentKind::Data,
            ).len() + 3 <= usize::MAX,
        ensures
            r == self.seg_v(SegmentKind::Bss).len() + self.seg_v(SegmentKind::Text).len()
                + self.seg_v(SegmentKind::Data).len() + 3,
    {
        self.bss.lines.len() + self.text.lines.len() + self.data.lines.len() + 3
    }

    /// Render the three segments, each under its header line.
    pub fn finalize(self) -> (r: String)
        ensures
            r@ == "segment .bss\n"@ + join_text(self.seg_v(SegmentKind::Bss), "\n"@) + "\n\n"@
                + "segment .text\n"@ + join_text(self.seg_v(SegmentKind::Text), "\n"@) + "\n\n"@
                + "segment .data\n"@ + join_text(self.seg_v(SegmentKind::Data), "\n"@) + "\n\n"@,
    {
        let mut output = String::from_str("segment .bss\n");
        output.append(self.bss.join("\n").as_str());
        output.append("\n\n");
        output.append("segment .text\n");
        output.append(self.text.join("\n").as_str());
        output.append("\n\n");
        output.append("segment .data\n");
        output.append(self.data.join("\n").as_str());
        output.append("\n\n");
        output
    }
}

pub(crate) proof fn lemma_same_but_active_trans(a: Builder, b: Builder, c: Builder)
    requires
        b.same_but_active(a),
        c.same_but_active(b),
    ensures
        c.same_but_active(a),
{
    assert forall|k: SegmentKind| k != a.insert_segment implies c.seg_v(k) == a.seg_v(k) by {
        assert(b.seg_v(k) == a.seg_v(k));
        assert(c.seg_v(k) == b.seg_v(k));
    }
}

/// Write a block of lines, one after another, at the cursor.
pub(crate) fn insert_block(b: &mut Builder, lines: Vec<String>)
    requires
        old(b).cursor_ok(),
    ensures
        final(b).same_but_active(*old(b)),
        final(b).active_v() == inserted_block(
            old(b).active_v(),
            old(b).insert_point,
            lines_view(lines@),
        ),
{
    let ghost b0 = *b;
    let mut i: usize = 0;
    while i < lines.len()
        invariant
            i <= lines@.len(),
            b.cursor_ok(),
            b.same_but_active(b0),
            b.active_v() == inserted_block(
                b0.active_v(),
                b0.insert_point,
                lines_view(lines@).take(i as int),
            ),
        decreases lines@.len() - i,
    {
        let ghost prev = *b;
        let line = lines[i].clone();
        b.insert(line);
        i = i + 1;
        proof {
            lemma_same_but_active_trans(b0, prev, *b);
            let lv = lines_view(lines@);
            assert(lv.take(i as int).drop_last() =~= lv.take(i - 1));
            assert(lv.take(i as int).last() == lv[i - 1]);
            assert(b.active_v() == inserted_block(
                b0.active_v(),
                b0.insert_point,
                lv.take(i as int),
            ));
        }
    }
    proof {
        assert(lines_view(lines@).take(lines@.len() as int) =~= lines_view(lines@));
    }
}

/// The label under which an interned string constant is emitted.
pub open spec fn const_str_label(n: nat) -> Seq<char> {
    "const_str_"@ + dec_of(n)
}

/// Bytes rendered in decimal, comma-separated.
pub open spec fn bytes_text(bs: Seq<u8>) -> Seq<char>
    decreases bs.len(),
{
    if bs.len() == 0 {
        Seq::empty()
    } else if bs.len() == 1 {
        dec_of(bs[0] as nat)
    } else {
        bytes_text(bs.drop_last()) + ", "@ + dec_of(bs.last() as nat)
    }
}

fn bytes_str(bs: &[u8]) -> (r: String)
    ensures
        r@ == bytes_text(bs@),
{
    let mut r = String::new();
    let mut i: usize = 0;
    while i < bs.len()
        invariant
            i <= bs@.len(),
            r@ == bytes_text(bs@.take(i as int)),
        decreases bs@.len() - i,
    {
        if i > 0 {
            r.append(", ");
        }
        r.append(crate::error::dec_str64(bs[i] as u64).as_str());
        i = i + 1;
        proof {
            let t = bs@.take(i as int);
            assert(t.drop_last() =~= bs@.take(i - 1));
            assert(t.last() == bs@[i - 1]);
        }
    }
    proof {
        assert(bs@.take(bs@.len() as int) =~= bs@);
    }
    r
}

} // verus!
