use crate::error::Error;
use crate::raw::parse::code_value;
use crate::raw::parse::is_first_line;
use crate::raw::parse::CR;
use crate::raw::parse::LF;
use crate::response_code::response_code_of;
use crate::response_code::ResponseCode;
use crate::text::text_of;
use crate::text::lossy_string;
use vstd::prelude::*;
use vstd::slice::slice_subrange;
use vstd::slice::slice_to_vec;
use vstd::std_specs::convert::IntoSpec;
use vstd::utf8::decode_utf8;
use vstd::utf8::valid_utf8;

verus! {

/// `l` is one line as it is read from the peer: it ends with the line
/// terminator and holds no line feed before that.
pub open spec fn is_block_line(l: Seq<u8>) -> bool {
    &&& l.len() >= 2
    &&& l[l.len() - 2] == CR
    &&& l[l.len() - 1] == LF
    &&& forall|i: int| 0 <= i < l.len() - 1 ==> l[i] != LF
}

/// The line that ends a data-block section: a lone `.` and the line terminator.
pub open spec fn terminator_line() -> Seq<u8> {
    seq![0x2eu8, CR, LF]
}

/// The bytes of `payload` between a pair of offsets.
pub open spec fn line_of(payload: Seq<u8>, bound: (usize, usize)) -> Seq<u8> {
    payload.subrange(bound.0 as int, bound.1 as int)
}

/// The pairs of offsets cut `payload` from `from` on into pieces that are not
/// empty, follow one another without a gap or an overlap, and end where
/// `payload` ends.
pub open spec fn boundaries_tile(payload: Seq<u8>, bounds: Seq<(usize, usize)>, from: int) -> bool {
    &&& 0 <= from <= payload.len()
    &&& forall|i: int| 0 <= i < bounds.len() ==> (#[trigger] bounds[i]).0 < bounds[i].1
    &&& forall|i: int| 0 <= i < bounds.len() - 1 ==> (#[trigger] bounds[i]).1 == bounds[i + 1].0
    &&& bounds.len() > 0 ==> bounds[0].0 == from && bounds.last().1 == payload.len()
    &&& bounds.len() == 0 ==> from == payload.len()
}

/// Every piece that the pairs of offsets cut from `payload` is one line as read.
pub open spec fn all_block_lines(payload: Seq<u8>, bounds: Seq<(usize, usize)>) -> bool {
    forall|i: int| 0 <= i < bounds.len() ==> is_block_line(#[trigger] line_of(payload, bounds[i]))
}

/// A payload and its line boundaries form a data-block section: the lines tile
/// the payload, each is one line as read, and the terminator line is the last
/// of them and no other.
pub open spec fn is_data_block_section(payload: Seq<u8>, bounds: Seq<(usize, usize)>) -> bool {
    &&& bounds.len() >= 1
    &&& boundaries_tile(payload, bounds, 0)
    &&& all_block_lines(payload, bounds)
    &&& forall|i: int|
        0 <= i < bounds.len() ==> ((#[trigger] line_of(payload, bounds[i]) == terminator_line())
            <==> i == bounds.len() - 1)
}

/// The lines of a section, each with its line terminator.
pub open spec fn section_lines(payload: Seq<u8>, bounds: Seq<(usize, usize)>) -> Seq<Seq<u8>> {
    Seq::new(bounds.len(), |i: int| line_of(payload, bounds[i]))
}

/// A line without the two bytes of its line terminator.
pub open spec fn strip_terminator(line: Seq<u8>) -> Seq<u8> {
    line.subrange(0, line.len() - 2)
}

/// The content of a section: its lines but the last, which is the terminator
/// line, each without its line terminator.
pub open spec fn section_content(payload: Seq<u8>, bounds: Seq<(usize, usize)>) -> Seq<Seq<u8>> {
    Seq::new(
        (bounds.len() - 1) as nat,
        |i: int| strip_terminator(line_of(payload, bounds[i])),
    )
}

/// The lines joined, one behind the other.
pub open spec fn joined(lines: Seq<Seq<u8>>) -> Seq<u8>
    decreases lines.len(),
{
    if lines.len() == 0 {
        Seq::empty()
    } else {
        joined(lines.drop_last()) + lines.last()
    }
}

/// The line boundaries of a section do not decrease and do not overlap, and
/// the lines between them, joined, are the payload.
pub proof fn lemma_lines_rebuild_payload(payload: Seq<u8>, bounds: Seq<(usize, usize)>)
    requires
        boundaries_tile(payload, bounds, 0),
    ensures
        forall|i: int| 0 <= i < bounds.len() ==> (#[trigger] bounds[i]).0 <= bounds[i].1,
        forall|i: int, j: int|
            0 <= i < j < bounds.len() ==> (#[trigger] bounds[i]).1 <= (#[trigger] bounds[j]).0,
        joined(section_lines(payload, bounds)) == payload,
{
    assert forall|i: int, j: int| 0 <= i < j < bounds.len() implies (#[trigger] bounds[i]).1 <= (
    #[trigger] bounds[j]).0 by {
        lemma_tile_in_range(payload, bounds, 0, j);
    }
    lemma_joined_prefix(payload, bounds, bounds.len() as int);
    assert(section_lines(payload, bounds).subrange(0, bounds.len() as int) =~= section_lines(
        payload,
        bounds,
    ));
    if bounds.len() > 0 {
        assert(payload.subrange(0, bounds.last().1 as int) =~= payload);
    } else {
        assert(payload =~= Seq::<u8>::empty());
    }
}

/// The first `k` lines of a section, joined, are the payload up to the end of
/// the last of them.
pub proof fn lemma_joined_prefix(payload: Seq<u8>, bounds: Seq<(usize, usize)>, k: int)
    requires
        boundaries_tile(payload, bounds, 0),
        0 <= k <= bounds.len(),
    ensures
        joined(section_lines(payload, bounds).subrange(0, k)) == payload.subrange(
            0,
            if k == 0 {
                0
            } else {
                bounds[k - 1].1 as int
            },
        ),
    decreases k,
{
    let lines = section_lines(payload, bounds).subrange(0, k);
    if k > 0 {
        lemma_joined_prefix(payload, bounds, k - 1);
        lemma_tile_in_range(payload, bounds, 0, k - 1);
        assert(lines.drop_last() =~= section_lines(payload, bounds).subrange(0, k - 1));
        if k > 1 {
            assert(bounds[k - 2].1 == bounds[k - 1].0);
        }
    } else {
        assert(joined(lines) =~= payload.subrange(0, 0));
    }
}

/// In a section, the terminator line is the last of the lines, and is not
/// among the content: the content is every line but the last, each without its
/// line terminator, and none of them is a lone `.`.
pub proof fn lemma_terminator_is_no_content(payload: Seq<u8>, bounds: Seq<(usize, usize)>)
    requires
        is_data_block_section(payload, bounds),
    ensures
        section_lines(payload, bounds).last() == terminator_line(),
        section_content(payload, bounds).len() == section_lines(payload, bounds).len() - 1,
        forall|i: int|
            0 <= i < section_content(payload, bounds).len() ==> {
                &&& #[trigger] section_content(payload, bounds)[i] + seq![CR, LF] == section_lines(
                    payload,
                    bounds,
                )[i]
                &&& section_content(payload, bounds)[i] != seq![0x2eu8]
            },
{
    let lines = section_lines(payload, bounds);
    let content = section_content(payload, bounds);
    assert forall|i: int| 0 <= i < content.len() implies {
        &&& #[trigger] content[i] + seq![CR, LF] == lines[i]
        &&& content[i] != seq![0x2eu8]
    } by {
        let line = line_of(payload, bounds[i]);
        assert(content[i] + seq![CR, LF] =~= line);
        if content[i] == seq![0x2eu8] {
            assert(line =~= terminator_line());
        }
    }
}

/// Two ways to cut one payload into lines as read agree on every line that
/// both have.
pub proof fn lemma_bounds_agree(
    payload: Seq<u8>,
    a: Seq<(usize, usize)>,
    b: Seq<(usize, usize)>,
    k: int,
)
    requires
        boundaries_tile(payload, a, 0),
        boundaries_tile(payload, b, 0),
        all_block_lines(payload, a),
        all_block_lines(payload, b),
        0 <= k < a.len(),
        k < b.len(),
    ensures
        a[k] == b[k],
    decreases k,
{
    if k > 0 {
        lemma_bounds_agree(payload, a, b, k - 1);
        assert(a[k - 1].1 == a[k].0);
        assert(b[k - 1].1 == b[k].0);
    }
    lemma_tile_in_range(payload, a, 0, k);
    lemma_tile_in_range(payload, b, 0, k);
    let start = a[k].0 as int;
    let la = line_of(payload, a[k]);
    let lb = line_of(payload, b[k]);
    assert(is_block_line(la));
    assert(is_block_line(lb));
    if a[k].1 < b[k].1 {
        assert(lb[a[k].1 - 1 - start] == payload[a[k].1 - 1]);
        assert(la[la.len() - 1] == payload[a[k].1 - 1]);
    } else if b[k].1 < a[k].1 {
        assert(la[b[k].1 - 1 - start] == payload[b[k].1 - 1]);
        assert(lb[lb.len() - 1] == payload[b[k].1 - 1]);
    }
}

/// The line boundaries of a section are fixed by its payload: a payload is cut
/// into lines as read in one way only.
pub proof fn lemma_boundaries_fixed_by_payload(
    payload: Seq<u8>,
    a: Seq<(usize, usize)>,
    b: Seq<(usize, usize)>,
)
    requires
        is_data_block_section(payload, a),
        is_data_block_section(payload, b),
    ensures
        a == b,
{
    let n = if a.len() <= b.len() {
        a.len() as int
    } else {
        b.len() as int
    };
    lemma_bounds_agree(payload, a, b, n - 1);
    if a.len() < b.len() {
        assert(b[n - 1].1 == b[n].0);
        lemma_tile_in_range(payload, b, 0, n);
    } else if b.len() < a.len() {
        assert(a[n - 1].1 == a[n].0);
        lemma_tile_in_range(payload, a, 0, n);
    }
    assert forall|k: int| 0 <= k < a.len() implies a[k] == b[k] by {
        lemma_bounds_agree(payload, a, b, k);
    }
    assert(a =~= b);
}

/// Whether `line` is the line that ends a data-block section.
pub fn is_terminator_line(line: &[u8]) -> (end: bool)
    ensures
        end == (line@ == terminator_line()),
{
    let end = line.len() == 3 && line[0] == 0x2e && line[1] == CR && line[2] == LF;
    proof {
        if end {
            assert(line@ =~= terminator_line());
        }
    }
    end
}

/// The multi-line data-block section of a response: the bytes as they were
/// read, and for each line the offsets at which it starts and ends.
#[derive(Debug, PartialEq, Eq)]
pub struct DataBlocks {
    pub(crate) payload: Vec<u8>,
    pub(crate) line_boundaries: Vec<(usize, usize)>,
}

impl DataBlocks {
    /// The bytes of the section.
    pub open(crate) spec fn spec_payload(&self) -> Seq<u8> {
        self.payload@
    }

    /// The line boundaries of the section.
    pub open(crate) spec fn spec_boundaries(&self) -> Seq<(usize, usize)> {
        self.line_boundaries@
    }

    /// The section is well formed.
    pub open spec fn wf(&self) -> bool {
        is_data_block_section(self.spec_payload(), self.spec_boundaries())
    }

    /// The lines of the section, each with its line terminator.
    pub open spec fn spec_lines(&self) -> Seq<Seq<u8>> {
        section_lines(self.spec_payload(), self.spec_boundaries())
    }

    /// The content lines of the section, without line terminators and without
    /// the terminator line.
    pub open spec fn spec_unterminated(&self) -> Seq<Seq<u8>> {
        section_content(self.spec_payload(), self.spec_boundaries())
    }

    #[verifier::type_invariant]
    spec fn inv(&self) -> bool {
        self.wf()
    }

    /// Builds a section from its parts.
    pub(crate) fn from_parts(payload: Vec<u8>, line_boundaries: Vec<(usize, usize)>) -> (db: Self)
        requires
            is_data_block_section(payload@, line_boundaries@),
        ensures
            db.spec_payload() == payload@,
            db.spec_boundaries() == line_boundaries@,
            db.wf(),
    {
        DataBlocks { payload, line_boundaries }
    }

    /// The raw bytes of the section.
    pub fn payload(&self) -> (bytes: &[u8])
        ensures
            bytes@ == self.spec_payload(),
            self.wf(),
    {
        proof {
            use_type_invariant(self);
        }
        self.payload.as_slice()
    }

    /// The payload as text, where it is UTF-8.
    pub fn payload_as_utf8(&self) -> (text: Result<&str, std::str::Utf8Error>)
        ensures
            text is Ok <==> valid_utf8(self.spec_payload()),
            text matches Ok(s) ==> s@ == decode_utf8(self.spec_payload()),
    {
        core::str::from_utf8(self.payload.as_slice())
    }

    /// A cursor over the lines of the section, each with its line terminator;
    /// the terminator line is the last of them.
    pub fn lines(&self) -> (lines: Lines<'_>)
        ensures
            lines.remaining() == self.spec_lines(),
    {
        proof {
            use_type_invariant(self);
        }
        Lines { data_blocks: self, next: 0 }
    }

    /// A cursor over the content of the section: its lines without their line
    /// terminators, and without the terminator line.
    pub fn unterminated(&self) -> (lines: Unterminated<'_>)
        ensures
            lines.remaining() == self.spec_unterminated(),
    {
        proof {
            use_type_invariant(self);
        }
        let inner = self.lines();
        let lines = Unterminated { inner };
        proof {
            lemma_content_of_suffix(self.spec_payload(), self.spec_boundaries(), 0);
            assert(self.spec_lines().subrange(0, self.spec_lines().len() as int)
                =~= self.spec_lines());
        }
        lines
    }

    /// The number of lines, the terminator line among them.
    pub fn lines_len(&self) -> (n: usize)
        ensures
            n == self.spec_lines().len(),
            n >= 1,
    {
        proof {
            use_type_invariant(self);
        }
        self.line_boundaries.len()
    }

    /// The number of bytes in the section.
    pub fn payload_len(&self) -> (n: usize)
        ensures
            n == self.spec_payload().len(),
    {
        self.payload.len()
    }

    /// Returns true if there are no lines. A section that was read always holds
    /// its terminator line.
    pub fn is_empty(&self) -> (empty: bool)
        ensures
            empty == (self.spec_lines().len() == 0),
            !empty,
    {
        proof {
            use_type_invariant(self);
        }
        self.line_boundaries.len() == 0
    }

    /// The line at index `i`, with its line terminator.
    pub fn line(&self, i: usize) -> (line: Option<&[u8]>)
        ensures
            match line {
                Some(l) => i < self.spec_lines().len() && l@ == self.spec_lines()[i as int],
                None => i >= self.spec_lines().len(),
            },
    {
        proof {
            use_type_invariant(self);
        }
        if i < self.line_boundaries.len() {
            let (start, end) = self.line_boundaries[i];
            proof {
                lemma_tile_in_range(self.payload@, self.line_boundaries@, 0, i as int);
            }
            Some(slice_subrange(self.payload.as_slice(), start, end))
        } else {
            None
        }
    }
}

/// A line of the section starts at offset `at`.
pub open spec fn is_line_start(bounds: Seq<(usize, usize)>, at: int) -> bool {
    exists|k: int| 0 <= k < bounds.len() && (#[trigger] bounds[k]).0 == at
}

/// The index of the line that starts at offset `at`.
pub open spec fn line_index(bounds: Seq<(usize, usize)>, at: int) -> int {
    choose|k: int| 0 <= k < bounds.len() && (#[trigger] bounds[k]).0 == at
}

/// The line boundaries from index `k` on, each moved down by `at`.
pub open spec fn shifted_bounds(bounds: Seq<(usize, usize)>, k: int, at: int) -> Seq<
    (usize, usize),
> {
    Seq::new(
        (bounds.len() - k) as nat,
        |j: int| ((bounds[k + j].0 - at) as usize, (bounds[k + j].1 - at) as usize),
    )
}

/// In a section, every offset before the end lies in one of the lines.
pub proof fn lemma_covering_line(payload: Seq<u8>, bounds: Seq<(usize, usize)>, q: int, i: int)
    requires
        boundaries_tile(payload, bounds, 0),
        0 <= i < bounds.len(),
        bounds[i].0 <= q < payload.len(),
    ensures
        exists|k: int| i <= k < bounds.len() && (#[trigger] bounds[k]).0 <= q < bounds[k].1,
    decreases bounds.len() - i,
{
    if q >= bounds[i].1 {
        lemma_covering_line(payload, bounds, q, i + 1);
    }
}

/// In a section, a line starts behind every line feed but the last.
pub proof fn lemma_line_starts_after_line_feed(
    payload: Seq<u8>,
    bounds: Seq<(usize, usize)>,
    p: int,
)
    requires
        is_data_block_section(payload, bounds),
        0 < p < payload.len(),
        payload[p - 1] == LF,
    ensures
        is_line_start(bounds, p),
{
    lemma_covering_line(payload, bounds, p - 1, 0);
    let k = choose|k: int| 0 <= k < bounds.len() && (#[trigger] bounds[k]).0 <= p - 1 < bounds[k].1;
    lemma_tile_in_range(payload, bounds, 0, k);
    let line = line_of(payload, bounds[k]);
    assert(line[p - 1 - bounds[k].0] == payload[p - 1]);
}

impl DataBlocks {
    /// The section made of the lines from offset `at` on, where a line starts
    /// at that offset; `None` where none does.
    pub fn tail_from(&self, at: usize) -> (r: Option<DataBlocks>)
        ensures
            match r {
                Some(tail) => {
                    &&& is_line_start(self.spec_boundaries(), at as int)
                    &&& tail.wf()
                    &&& tail.spec_payload() == self.spec_payload().subrange(
                        at as int,
                        self.spec_payload().len() as int,
                    )
                    &&& tail.spec_boundaries() == shifted_bounds(
                        self.spec_boundaries(),
                        line_index(self.spec_boundaries(), at as int),
                        at as int,
                    )
                },
                None => !is_line_start(self.spec_boundaries(), at as int),
            },
    {
        proof {
            use_type_invariant(self);
        }
        let ghost payload = self.payload@;
        let ghost bounds = self.line_boundaries@;
        let n: usize = self.line_boundaries.len();
        let mut k: usize = 0;
        while k < n && self.line_boundaries[k].0 != at
            invariant
                n == bounds.len(),
                bounds == self.line_boundaries@,
                k <= n,
                forall|j: int| 0 <= j < k ==> (#[trigger] bounds[j]).0 != at,
            decreases n - k,
        {
            k = k + 1;
        }
        if k >= n {
            return None;
        }
        proof {
            lemma_tile_in_range(payload, bounds, 0, k as int);
            let c = line_index(bounds, at as int);
            if c != k {
                lemma_tile_in_range(payload, bounds, 0, c);
                if c > k {
                    assert(bounds[k as int].1 <= bounds[c].0);
                }
            }
        }
        let body = slice_to_vec(slice_subrange(self.payload.as_slice(), at, self.payload.len()));
        let mut marks: Vec<(usize, usize)> = Vec::with_capacity(n - k);
        let mut i: usize = k;
        while i < n
            invariant
                n == bounds.len(),
                bounds == self.line_boundaries@,
                payload == self.payload@,
                is_data_block_section(payload, bounds),
                k <= i <= n,
                k < n,
                bounds[k as int].0 == at,
                marks@.len() == i - k,
                forall|j: int|
                    0 <= j < i - k ==> #[trigger] marks@[j] == (
                        (bounds[k + j].0 - at) as usize,
                        (bounds[k + j].1 - at) as usize,
                    ),
            decreases n - i,
        {
            let (start, end) = self.line_boundaries[i];
            proof {
                lemma_tile_in_range(payload, bounds, 0, i as int);
                lemma_tile_in_range(payload, bounds, 0, k as int);
                if i > k {
                    assert(bounds[k as int].1 <= bounds[i as int].0);
                }
            }
            marks.push((start - at, end - at));
            i = i + 1;
        }
        proof {
            assert(marks@ =~= shifted_bounds(bounds, k as int, at as int));
            lemma_tail_is_section(payload, bounds, k as int);
        }
        Some(DataBlocks { payload: body, line_boundaries: marks })
    }
}

/// The lines of a section from index `k` on form a section of their own.
pub proof fn lemma_tail_is_section(payload: Seq<u8>, bounds: Seq<(usize, usize)>, k: int)
    requires
        is_data_block_section(payload, bounds),
        0 <= k < bounds.len(),
    ensures
        is_data_block_section(
            payload.subrange(bounds[k].0 as int, payload.len() as int),
            shifted_bounds(bounds, k, bounds[k].0 as int),
        ),
{
    let at = bounds[k].0 as int;
    let body = payload.subrange(at, payload.len() as int);
    let marks = shifted_bounds(bounds, k, at);
    lemma_tile_in_range(payload, bounds, 0, k);
    assert forall|j: int| 0 <= j < marks.len() implies {
        &&& (#[trigger] marks[j]).0 == bounds[k + j].0 - at
        &&& marks[j].1 == bounds[k + j].1 - at
        &&& line_of(body, marks[j]) == line_of(payload, bounds[k + j])
    } by {
        lemma_tile_in_range(payload, bounds, 0, k + j);
        if j > 0 {
            assert(bounds[k].1 <= bounds[k + j].0);
        }
    }
    assert forall|j: int| 0 <= j < marks.len() implies (#[trigger] marks[j]).0 < marks[j].1 by {
        assert(bounds[k + j].0 < bounds[k + j].1);
    }
    assert forall|j: int| 0 <= j < marks.len() - 1 implies (#[trigger] marks[j]).1 == marks[j
        + 1].0 by {
        assert(marks[j + 1].0 == bounds[k + j + 1].0 - at);
    }
    assert(marks.last().1 == body.len()) by {
        assert(marks[marks.len() - 1].1 == bounds[bounds.len() - 1].1 - at);
    }
    assert forall|j: int| 0 <= j < marks.len() implies is_block_line(
        #[trigger] line_of(body, marks[j]),
    ) by {
        assert(is_block_line(line_of(payload, bounds[k + j])));
    }
    assert forall|j: int| 0 <= j < marks.len() implies ((#[trigger] line_of(body, marks[j])
        == terminator_line()) <==> j == marks.len() - 1) by {
        assert((line_of(payload, bounds[k + j]) == terminator_line()) <==> k + j == bounds.len()
            - 1);
    }
}

impl Clone for DataBlocks {
    fn clone(&self) -> (copy: Self)
        ensures
            copy.spec_payload() == self.spec_payload(),
            copy.spec_boundaries() == self.spec_boundaries(),
    {
        proof {
            use_type_invariant(self);
        }
        DataBlocks {
            payload: slice_to_vec(self.payload.as_slice()),
            line_boundaries: slice_to_vec(self.line_boundaries.as_slice()),
        }
    }
}

/// Every piece of a tiling lies inside the payload, after the pieces before it.
pub proof fn lemma_tile_in_range(
    payload: Seq<u8>,
    bounds: Seq<(usize, usize)>,
    from: int,
    i: int,
)
    requires
        boundaries_tile(payload, bounds, from),
        0 <= i < bounds.len(),
    ensures
        from <= bounds[i].0 < bounds[i].1 <= payload.len(),
        forall|j: int| 0 <= j < i ==> (#[trigger] bounds[j]).1 <= bounds[i].0,
    decreases bounds.len() - i,
{
    lemma_tile_ordered(bounds, i);
    lemma_tile_ordered_up(bounds, i, bounds.len() - 1);
}

/// In a tiling, no piece starts before the pieces before it end.
proof fn lemma_tile_ordered(bounds: Seq<(usize, usize)>, i: int)
    requires
        forall|k: int| 0 <= k < bounds.len() ==> (#[trigger] bounds[k]).0 < bounds[k].1,
        forall|k: int| 0 <= k < bounds.len() - 1 ==> (#[trigger] bounds[k]).1 == bounds[k + 1].0,
        0 <= i < bounds.len(),
    ensures
        bounds[0].0 <= bounds[i].0,
        forall|j: int| 0 <= j < i ==> (#[trigger] bounds[j]).1 <= bounds[i].0,
    decreases i,
{
    if i > 0 {
        lemma_tile_ordered(bounds, i - 1);
        assert(bounds[i - 1].1 == bounds[i].0);
    }
}

/// In a tiling, no piece ends behind the end of a piece after it.
proof fn lemma_tile_ordered_up(bounds: Seq<(usize, usize)>, i: int, k: int)
    requires
        forall|k: int| 0 <= k < bounds.len() ==> (#[trigger] bounds[k]).0 < bounds[k].1,
        forall|k: int| 0 <= k < bounds.len() - 1 ==> (#[trigger] bounds[k]).1 == bounds[k + 1].0,
        0 <= i <= k < bounds.len(),
    ensures
        bounds[i].1 <= bounds[k].1,
    decreases k - i,
{
    if i < k {
        lemma_tile_ordered_up(bounds, i + 1, k);
    }
}

/// A cursor over the lines of a data-block section.
#[derive(Debug)]
pub struct Lines<'a> {
    data_blocks: &'a DataBlocks,
    next: usize,
}

impl<'a> Lines<'a> {
    #[verifier::type_invariant]
    spec fn inv(&self) -> bool {
        self.data_blocks.wf() && self.next <= self.data_blocks.spec_lines().len()
    }

    /// The lines that the cursor has yet to hand out.
    pub closed spec fn remaining(&self) -> Seq<Seq<u8>> {
        let all = self.data_blocks.spec_lines();
        all.subrange(self.next as int, all.len() as int)
    }

    /// Hands out the next line, with its line terminator, or `None` when all
    /// lines have been handed out.
    pub fn next(&mut self) -> (line: Option<&'a [u8]>)
        ensures
            match line {
                Some(l) => {
                    &&& old(self).remaining().len() > 0
                    &&& l@ == old(self).remaining()[0]
                    &&& final(self).remaining() == old(self).remaining().drop_first()
                },
                None => {
                    &&& old(self).remaining().len() == 0
                    &&& final(self).remaining() == old(self).remaining()
                },
            },
    {
        proof {
            use_type_invariant(&*self);
        }
        let blocks: &'a DataBlocks = self.data_blocks;
        if self.next < blocks.lines_len() {
            let line = blocks.line(self.next);
            self.next = self.next + 1;
            line
        } else {
            None
        }
    }
}

impl<'a> Clone for Lines<'a> {
    fn clone(&self) -> (copy: Self)
        ensures
            copy.remaining() == self.remaining(),
    {
        proof {
            use_type_invariant(self);
        }
        Lines { data_blocks: self.data_blocks, next: self.next }
    }
}

/// The content lines among `lines`: those before the first terminator line,
/// each without its line terminator.
pub open spec fn content_of(lines: Seq<Seq<u8>>) -> Seq<Seq<u8>>
    decreases lines.len(),
{
    if lines.len() == 0 || lines[0] == terminator_line() {
        Seq::empty()
    } else {
        seq![strip_terminator(lines[0])] + content_of(lines.drop_first())
    }
}

/// In a well-formed section, the content lines among the lines from index `k`
/// on are the content of the section from index `k` on.
pub proof fn lemma_content_of_suffix(payload: Seq<u8>, bounds: Seq<(usize, usize)>, k: int)
    requires
        is_data_block_section(payload, bounds),
        0 <= k <= bounds.len(),
    ensures
        k < bounds.len() ==> content_of(
            section_lines(payload, bounds).subrange(k, bounds.len() as int),
        ) == section_content(payload, bounds).subrange(k, bounds.len() - 1),
        k == bounds.len() ==> content_of(
            section_lines(payload, bounds).subrange(k, bounds.len() as int),
        ) == Seq::<Seq<u8>>::empty(),
    decreases bounds.len() - k,
{
    let all = section_lines(payload, bounds);
    let n = bounds.len() as int;
    let rest = all.subrange(k, n);
    if k < n {
        if k == n - 1 {
            assert(section_content(payload, bounds).subrange(k, n - 1) =~= Seq::<
                Seq<u8>,
            >::empty());
        } else {
            lemma_content_of_suffix(payload, bounds, k + 1);
            assert(rest.drop_first() =~= all.subrange(k + 1, n));
        }
    }
}

/// A cursor over the content lines of a data-block section.
#[derive(Clone, Debug)]
pub struct Unterminated<'a> {
    inner: Lines<'a>,
}

impl<'a> Unterminated<'a> {
    /// The content lines that the cursor has yet to hand out.
    pub closed spec fn remaining(&self) -> Seq<Seq<u8>> {
        content_of(self.inner.remaining())
    }

    /// Hands out the next content line, without its line terminator, or `None`
    /// when the terminator line is reached.
    pub fn next(&mut self) -> (line: Option<&'a [u8]>)
        ensures
            match line {
                Some(l) => {
                    &&& old(self).remaining().len() > 0
                    &&& l@ == old(self).remaining()[0]
                    &&& final(self).remaining() == old(self).remaining().drop_first()
                },
                None => {
                    &&& old(self).remaining().len() == 0
                    &&& final(self).remaining().len() == 0
                },
            },
    {
        proof {
            use_type_invariant(&self.inner);
        }
        let ghost payload = self.inner.data_blocks.spec_payload();
        let ghost bounds = self.inner.data_blocks.spec_boundaries();
        let ghost k = self.inner.next as int;
        proof {
            lemma_content_of_suffix(payload, bounds, k);
        }
        match self.inner.next() {
            Some(line) => {
                proof {
                    use_type_invariant(&self.inner);
                    lemma_content_of_suffix(payload, bounds, k + 1);
                }
                if is_terminator_line(line) {
                    None
                } else {
                    Some(slice_subrange(line, 0, line.len() - 2))
                }
            },
            None => None,
        }
    }
}

/// A response as the connection framed it: the response code, the whole first
/// line, and the data-block section where the response has one. The bytes are
/// not required to be UTF-8.
#[derive(Debug, PartialEq, Eq)]
pub struct RawResponse {
    pub(crate) code: ResponseCode,
    pub(crate) first_line: Vec<u8>,
    pub(crate) data_blocks: Option<DataBlocks>,
}

/// The response code that a status line carries.
pub open spec fn first_line_code(line: Seq<u8>) -> ResponseCode {
    response_code_of(code_value(line.subrange(0, 3)) as u16)
}

impl RawResponse {
    /// The response code.
    pub open(crate) spec fn spec_code(&self) -> ResponseCode {
        self.code
    }

    /// The bytes of the first line.
    pub open(crate) spec fn spec_first_line(&self) -> Seq<u8> {
        self.first_line@
    }

    /// The data-block section, where the response has one.
    pub open(crate) spec fn spec_data_blocks(&self) -> Option<DataBlocks> {
        self.data_blocks
    }

    /// The response is well formed: its first line is one whole status line,
    /// its code is the one the line carries, and its data-block section, if it
    /// has one, is well formed.
    pub open spec fn wf(&self) -> bool {
        &&& is_first_line(self.spec_first_line())
        &&& self.spec_code() == first_line_code(self.spec_first_line())
        &&& self.spec_data_blocks() matches Some(db) ==> db.wf()
    }

    #[verifier::type_invariant]
    spec fn inv(&self) -> bool {
        self.wf()
    }

    /// Builds a response from its parts.
    pub(crate) fn from_parts(
        code: ResponseCode,
        first_line: Vec<u8>,
        data_blocks: Option<DataBlocks>,
    ) -> (resp: Self)
        requires
            is_first_line(first_line@),
            code == first_line_code(first_line@),
            data_blocks matches Some(db) ==> db.wf(),
        ensures
            resp.spec_code() == code,
            resp.spec_first_line() == first_line@,
            resp.spec_data_blocks() == data_blocks,
            resp.wf(),
    {
        RawResponse { code, first_line, data_blocks }
    }

    /// The response code.
    pub fn code(&self) -> (code: ResponseCode)
        ensures
            code == self.spec_code(),
            code == first_line_code(self.spec_first_line()),
    {
        proof {
            use_type_invariant(self);
        }
        self.code
    }

    /// Returns true if this response holds a data-block section.
    pub fn has_data_blocks(&self) -> (has: bool)
        ensures
            has == self.spec_data_blocks().is_some(),
    {
        match self.data_blocks {
            Some(_) => true,
            _ => false,
        }
    }

    /// The data-block section, where the response has one.
    pub fn data_blocks(&self) -> (blocks: Option<&DataBlocks>)
        ensures
            match blocks {
                Some(db) => self.spec_data_blocks() == Some(*db) && db.wf(),
                None => self.spec_data_blocks() is None,
            },
    {
        proof {
            use_type_invariant(self);
        }
        self.data_blocks.as_ref()
    }

    /// The first line of the response, line terminator included.
    pub fn first_line(&self) -> (line: &[u8])
        ensures
            line@ == self.spec_first_line(),
            is_first_line(line@),
    {
        proof {
            use_type_invariant(self);
        }
        self.first_line.as_slice()
    }

    /// The first line of the response without the response code and the blank
    /// after it.
    pub fn first_line_without_code(&self) -> (text: &[u8])
        ensures
            text@ == self.spec_first_line().subrange(4, self.spec_first_line().len() as int),
    {
        proof {
            use_type_invariant(self);
        }
        slice_subrange(self.first_line.as_slice(), 4, self.first_line.len())
    }

    /// Turns the response into an error unless its code is `desired`, which
    /// is given as a response code, as a kind or as a number.
    pub fn fail_unless<C: Into<ResponseCode>>(self, desired: C) -> (r: Result<RawResponse, Error>)
        ensures
            C::obeys_into_spec() ==> match r {
                Ok(resp) => self.spec_code() == desired.into_spec() && resp == self,
                Err(e) => self.spec_code() != desired.into_spec() && e.is_failure(self, None),
            },
    {
        let wanted: ResponseCode = desired.into();
        if self.code() != wanted {
            Err(Error::failure(self))
        } else {
            Ok(self)
        }
    }

    /// The first line as text, each invalid UTF-8 sequence replaced by U+FFFD.
    pub fn first_line_to_utf8_lossy(&self) -> (text: String)
        ensures
            text@ == text_of(self.spec_first_line()),
            valid_utf8(self.spec_first_line()) ==> text@ == decode_utf8(self.spec_first_line()),
    {
        lossy_string(self.first_line.as_slice())
    }
}

impl Clone for RawResponse {
    fn clone(&self) -> (copy: Self)
        ensures
            copy.spec_code() == self.spec_code(),
            copy.spec_first_line() == self.spec_first_line(),
            copy.spec_data_blocks() is Some == self.spec_data_blocks() is Some,
            copy.spec_data_blocks() matches Some(db) ==> {
                &&& db.spec_payload() == self.spec_data_blocks()->0.spec_payload()
                &&& db.spec_boundaries() == self.spec_data_blocks()->0.spec_boundaries()
            },
    {
        proof {
            use_type_invariant(self);
        }
        let data_blocks = match &self.data_blocks {
            Some(db) => Some(db.clone()),
            None => None,
        };
        RawResponse {
            code: self.code,
            first_line: slice_to_vec(self.first_line.as_slice()),
            data_blocks,
        }
    }
}

} // verus!
