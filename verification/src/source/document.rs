//! Source documents, positions and ranges in them, and the character cursor the lexer reads.

use crate::utils::text::{decimal_digits, push_decimal};
use std::path::PathBuf;
use vstd::prelude::*;
use vstd::string::*;
use vstd::utf8::*;

verus! {

/// The file-system path type of std, carried through as an opaque value.
#[verifier::external_type_specification]
#[verifier::external_body]
pub struct ExPathBuf(PathBuf);

/// The number of bytes in the UTF-8 encoding of `c`.
pub open spec fn len_utf8(c: char) -> nat {
    if (c as u32) < 0x80 {
        1
    } else if (c as u32) < 0x800 {
        2
    } else if (c as u32) < 0x10000 {
        3
    } else {
        4
    }
}

/// The number of UTF-16 code units that encode `c`.
pub open spec fn len_utf16(c: char) -> nat {
    if (c as u32) < 0x10000 {
        1
    } else {
        2
    }
}

/// The number of bytes in the UTF-8 encoding of `chars`.
pub open spec fn utf8_len(chars: Seq<char>) -> nat
    decreases chars.len(),
{
    if chars.len() == 0 {
        0
    } else {
        len_utf8(chars[0]) + utf8_len(chars.drop_first())
    }
}

/// The number of UTF-16 code units that encode `chars`.
pub open spec fn utf16_len(chars: Seq<char>) -> nat
    decreases chars.len(),
{
    if chars.len() == 0 {
        0
    } else {
        len_utf16(chars[0]) + utf16_len(chars.drop_first())
    }
}

/// The UTF-8 encoding of a character is as long as `len_utf8` says.
pub proof fn lemma_encode_scalar_len(c: char)
    ensures
        encode_scalar(c as u32).len() == len_utf8(c),
{
    char_is_scalar(c);
}

/// The UTF-8 encoding of a text is as long as `utf8_len` says.
pub proof fn lemma_utf8_len_is_encoded_len(chars: Seq<char>)
    ensures
        encode_utf8(chars).len() == utf8_len(chars),
    decreases chars.len(),
{
    if chars.len() > 0 {
        lemma_encode_scalar_len(chars[0]);
        lemma_utf8_len_is_encoded_len(chars.drop_first());
    }
}

/// Is offset `p` the first byte after a line terminator of `bytes`? A terminator is a line
/// feed, a carriage return that no line feed follows, or a carriage return and a line feed
/// together, which end one line.
pub open spec fn is_line_start(bytes: Seq<u8>, p: int) -> bool {
    &&& 0 < p <= bytes.len()
    &&& (bytes[p - 1] == 0x0Au8 || (bytes[p - 1] == 0x0Du8 && !(p < bytes.len() && bytes[p]
        == 0x0Au8)))
}

/// The line starts of `bytes` that are at most `n`, in increasing order.
pub open spec fn line_starts_upto(bytes: Seq<u8>, n: nat) -> Seq<nat>
    decreases n,
{
    if n == 0 {
        Seq::empty()
    } else if is_line_start(bytes, n as int) {
        line_starts_upto(bytes, (n - 1) as nat).push(n)
    } else {
        line_starts_upto(bytes, (n - 1) as nat)
    }
}

/// Every line start of `bytes` after its first line, in increasing order.
pub open spec fn line_starts_of(bytes: Seq<u8>) -> Seq<nat> {
    line_starts_upto(bytes, bytes.len())
}

/// `line_starts_upto` lists exactly the line starts up to `n`, each once, in strictly
/// increasing order.
pub proof fn lemma_line_starts_upto(bytes: Seq<u8>, n: nat)
    ensures
        forall|i: int|
            0 <= i < line_starts_upto(bytes, n).len() ==> 0 < #[trigger] line_starts_upto(
                bytes,
                n,
            )[i] <= n && is_line_start(bytes, line_starts_upto(bytes, n)[i] as int),
        forall|i: int, j: int|
            0 <= i < j < line_starts_upto(bytes, n).len() ==> #[trigger] line_starts_upto(
                bytes,
                n,
            )[i] < #[trigger] line_starts_upto(bytes, n)[j],
        forall|p: nat|
            p <= n && is_line_start(bytes, p as int) ==> #[trigger] line_starts_upto(
                bytes,
                n,
            ).contains(p),
        line_starts_upto(bytes, n).len() <= n,
    decreases n,
{
    if n > 0 {
        let prev = line_starts_upto(bytes, (n - 1) as nat);
        let now = line_starts_upto(bytes, n);
        lemma_line_starts_upto(bytes, (n - 1) as nat);
        if is_line_start(bytes, n as int) {
            assert(now[prev.len() as int] == n);
        }
        assert forall|p: nat| p <= n && is_line_start(bytes, p as int) implies now.contains(
            p,
        ) by {
            if p < n {
                assert(prev.contains(p));
                let i = choose|i: int| 0 <= i < prev.len() && prev[i] == p;
                assert(now[i] == p);
            }
        }
    }
}

/// The number of entries of `starts` that are at most `p`: the zero-based line of offset `p`
/// when `starts` holds a document's line starts.
pub open spec fn line_of(starts: Seq<nat>, p: nat) -> nat
    decreases starts.len(),
{
    if starts.len() == 0 {
        0
    } else if starts.last() <= p {
        line_of(starts.drop_last(), p) + 1
    } else {
        line_of(starts.drop_last(), p)
    }
}

/// In an increasing sequence the entries at most `p` are exactly the first `line_of` ones.
pub proof fn lemma_line_of(starts: Seq<nat>, p: nat)
    requires
        forall|i: int, j: int| 0 <= i < j < starts.len() ==> starts[i] < starts[j],
    ensures
        line_of(starts, p) <= starts.len(),
        forall|i: int| 0 <= i < line_of(starts, p) ==> #[trigger] starts[i] <= p,
        forall|i: int| line_of(starts, p) <= i < starts.len() ==> #[trigger] starts[i] > p,
    decreases starts.len(),
{
    if starts.len() > 0 {
        let front = starts.drop_last();
        lemma_line_of(front, p);
        assert forall|i: int| 0 <= i < line_of(starts, p) implies #[trigger] starts[i] <= p by {
            if i < front.len() {
                assert(front[i] == starts[i]);
                if i >= line_of(front, p) {
                    assert(starts[i] < starts[starts.len() - 1]);
                }
            }
        }
        assert forall|i: int| line_of(starts, p) <= i < starts.len() implies #[trigger] starts[i]
            > p by {
            if i < front.len() {
                assert(front[i] == starts[i]);
            }
        }
    }
}

/// A split of an increasing sequence into entries at most `p` and entries above `p` is the
/// split that `line_of` makes.
pub proof fn lemma_line_of_unique(starts: Seq<nat>, p: nat, line: nat)
    requires
        forall|i: int, j: int| 0 <= i < j < starts.len() ==> starts[i] < starts[j],
        line <= starts.len(),
        forall|i: int| 0 <= i < line ==> #[trigger] starts[i] <= p,
        forall|i: int| line <= i < starts.len() ==> #[trigger] starts[i] > p,
    ensures
        line_of(starts, p) == line,
{
    lemma_line_of(starts, p);
    let found = line_of(starts, p);
    if found < line {
        assert(starts[found as int] <= p);
    } else if found > line {
        assert(starts[line as int] > p);
    }
}

/// The width in bytes that the leading byte `b` announces for its UTF-8 sequence.
pub open spec fn scalar_width(b: u8) -> nat {
    if b < 0x80 {
        1
    } else if b < 0xE0 {
        2
    } else if b < 0xF0 {
        3
    } else {
        4
    }
}

/// The number of UTF-16 code units in the lossy decoding of `bytes`, a piece of UTF-8 text
/// that starts at a character boundary: one or two units for each complete character, and
/// one unit, that of the replacement character, for a character cut short at the end.
pub open spec fn lossy_utf16_len(bytes: Seq<u8>) -> nat
    decreases bytes.len(),
{
    if bytes.len() == 0 {
        0
    } else if scalar_width(bytes[0]) > bytes.len() {
        1
    } else if scalar_width(bytes[0]) == 4 {
        2 + lossy_utf16_len(bytes.skip(4))
    } else {
        1 + lossy_utf16_len(bytes.skip(scalar_width(bytes[0]) as int))
    }
}

/// On well-formed UTF-8, `lossy_utf16_len` is the UTF-16 length of the decoded text.
pub proof fn lemma_lossy_utf16_len_valid(bytes: Seq<u8>)
    requires
        valid_utf8(bytes),
    ensures
        lossy_utf16_len(bytes) == utf16_len(decode_utf8(bytes)),
    decreases bytes.len(),
{
    if bytes.len() > 0 {
        let first = decode_first_scalar(bytes) as char;
        let rest = pop_first_scalar(bytes);
        let width = length_of_first_scalar(bytes);
        assert(width == scalar_width(bytes[0]));
        assert(rest == bytes.skip(width));
        decode_utf8_first_scalar(bytes);
        lemma_encode_scalar_len(first);
        assert(take_first_scalar(bytes).len() == width);
        assert(len_utf8(first) == width);
        assert(decode_utf8(bytes).drop_first() =~= decode_utf8(rest));
        lemma_lossy_utf16_len_valid(rest);
    }
}

/// A position between two bytes of a document's text, as a byte offset from its start.
#[derive(Copy, Clone, Debug, PartialEq, Eq, PartialOrd, Ord, Hash, Structural)]
pub struct Position(u32);

impl View for Position {
    type V = nat;

    closed spec fn view(&self) -> nat {
        self.0 as nat
    }
}

/// A range of a document's text: the bytes from a start position up to, and without, an end
/// position.
#[derive(Clone, Copy, Debug, PartialEq, Eq, Hash, Structural)]
pub struct Range {
    start: Position,
    length: u32,
}

/// A source document: its path, its text, and the positions at which its lines start.
pub struct Document {
    path: PathBuf,
    text: String,
    lines: Vec<Position>,
}

impl Position {
    /// The position at byte offset `index`.
    pub fn new(index: u32) -> (position: Position)
        ensures
            position@ == index,
    {
        Position(index)
    }

    /// The index of the position in a UTF-8 string.
    pub fn utf8_index(&self) -> (index: u32)
        ensures
            index == self@,
    {
        self.0
    }

    /// Positions with the same offset are the same position.
    pub proof fn lemma_view_injective(self, other: Position)
        requires
            self@ == other@,
        ensures
            self == other,
    {
    }

    /// The offset of a position fits in 32 bits.
    pub proof fn lemma_view_bound(self)
        ensures
            self@ <= u32::MAX,
    {
    }
}


impl Range {
    #[verifier::type_invariant]
    spec fn inv(self) -> bool {
        self.start.0 + self.length <= u32::MAX
    }

    /// The offset at which the range starts.
    pub closed spec fn start_index(self) -> nat {
        self.start.0 as nat
    }

    /// The number of bytes that the range covers.
    pub closed spec fn len(self) -> nat {
        self.length as nat
    }

    /// The offset at which the range ends: its start plus its length.
    pub open spec fn end_index(self) -> nat {
        self.start_index() + self.len()
    }

    /// Do the two ranges share a point? The end of a range counts as one of its points, so
    /// ranges that only touch intersect, and an empty range intersects what it lies in or
    /// next to.
    pub open spec fn spec_intersects(self, other: Range) -> bool {
        self.start_index() <= other.end_index() && other.start_index() <= self.end_index()
    }

    /// Ranges with the same start and the same length are the same range.
    pub proof fn lemma_view_injective(self, other: Range)
        requires
            self.start_index() == other.start_index(),
            self.len() == other.len(),
        ensures
            self == other,
    {
    }

    /// Creates a new range. `length` is the number of UTF-8 code units spanned by the range.
    pub fn new(start: Position, length: u32) -> (range: Range)
        requires
            start@ + length <= u32::MAX,
        ensures
            range.start_index() == start@,
            range.len() == length,
    {
        Range { start, length }
    }

    /// The empty range at a position.
    pub fn position(position: Position) -> (range: Range)
        ensures
            range.start_index() == position@,
            range.len() == 0,
    {
        Range { start: position, length: 0 }
    }

    /// Creates a range between two positions, whichever of them comes first.
    pub fn between(start: Position, end: Position) -> (range: Range)
        ensures
            range.start_index() == if start@ <= end@ {
                start@
            } else {
                end@
            },
            range.end_index() == if start@ <= end@ {
                end@
            } else {
                start@
            },
    {
        if start.0 <= end.0 {
            let length = end.0 - start.0;
            Range { start, length }
        } else {
            let length = start.0 - end.0;
            Range { start: end, length }
        }
    }

    /// Returns the start position of our range.
    pub fn start(&self) -> (start: Position)
        ensures
            start@ == self.start_index(),
    {
        self.start
    }

    /// Returns the end position of our range. Will always be greater than or equal to the start
    /// position. Remember that range is not inclusive.
    pub fn end(&self) -> (end: Position)
        ensures
            end@ == self.end_index(),
    {
        proof {
            use_type_invariant(self);
        }
        Position(self.start.0 + self.length)
    }

    /// The number of bytes that the range covers.
    pub fn length(&self) -> (length: u32)
        ensures
            length == self.len(),
            self.end_index() <= u32::MAX,
    {
        proof {
            use_type_invariant(self);
        }
        self.length
    }

    /// Do the two ranges share a point, their ends included?
    pub fn intersects(&self, other: Range) -> (intersects: bool)
        ensures
            intersects == self.spec_intersects(other),
    {
        proof {
            use_type_invariant(self);
            use_type_invariant(&other);
        }
        self.start.0 <= other.start.0 + other.length && other.start.0 <= self.start.0
            + self.length
    }
}

impl View for Document {
    type V = Seq<char>;

    /// The document's text.
    closed spec fn view(&self) -> Seq<char> {
        self.text@
    }
}

impl Document {
    #[verifier::type_invariant]
    spec fn inv(&self) -> bool {
        &&& encode_utf8(self.text@).len() <= u32::MAX
        &&& self.lines@.len() == line_starts_of(encode_utf8(self.text@)).len()
        &&& forall|i: int|
            0 <= i < self.lines@.len() ==> (#[trigger] self.lines@[i]).0 == line_starts_of(
                encode_utf8(self.text@),
            )[i]
    }

    /// The path to the document in the file system.
    pub closed spec fn spec_path(&self) -> PathBuf {
        self.path
    }

    /// The document's text as UTF-8 bytes.
    pub open spec fn bytes(&self) -> Seq<u8> {
        encode_utf8(self@)
    }

    /// The offsets at which the document's lines start, but for its first line.
    pub open spec fn line_starts(&self) -> Seq<nat> {
        line_starts_of(self.bytes())
    }

    /// The zero-based line of offset `p`.
    pub open spec fn spec_line(&self, p: nat) -> nat {
        line_of(self.line_starts(), p)
    }

    /// The offset at which the line of offset `p` starts.
    pub open spec fn spec_line_start(&self, p: nat) -> nat {
        if self.spec_line(p) == 0 {
            0
        } else {
            self.line_starts()[self.spec_line(p) - 1]
        }
    }

    /// The zero-based character of offset `p` in its line, in UTF-16 code units. Offsets
    /// past the end of the text count one unit for each byte past it.
    pub open spec fn spec_character(&self, p: nat) -> nat {
        let start = self.spec_line_start(p) as int;
        let len = self.bytes().len() as int;
        if start >= len {
            (p - len) as nat
        } else if p > len {
            ((p - len) + lossy_utf16_len(self.bytes().subrange(start, len))) as nat
        } else {
            lossy_utf16_len(self.bytes().subrange(start, p as int))
        }
    }

    /// Can `text` be the text of a document? It can if it is short enough for every position
    /// in it, its end among them, to be a 32 bit offset.
    pub fn fits(text: &str) -> (fits: bool)
        ensures
            fits == (encode_utf8(text@).len() <= u32::MAX),
    {
        text.as_bytes().len() <= 0xFFFF_FFFF
    }

    /// Creates a new source code document.
    pub fn new(path: PathBuf, text: String) -> (document: Document)
        requires
            encode_utf8(text@).len() <= u32::MAX,
        ensures
            document@ == text@,
            document.spec_path() == path,
    {
        let mut lines: Vec<Position> = Vec::new();
        let bytes = text.as_str().as_bytes();
        let ghost all = bytes@;
        let mut i: usize = 0;
        while i < bytes.len()
            invariant
                bytes@ == all,
                all.len() <= u32::MAX,
                i <= all.len(),
                lines@.len() == line_starts_upto(all, i as nat).len(),
                forall|k: int|
                    0 <= k < lines@.len() ==> (#[trigger] lines@[k]).0 == line_starts_upto(
                        all,
                        i as nat,
                    )[k],
            decreases all.len() - i,
        {
            let byte = bytes[i];
            i += 1;
            if byte == 0x0Au8 {
                assert(is_line_start(all, i as int));
                lines.push(Position(i as u32));
            } else if byte == 0x0Du8 {
                // A line feed right after the carriage return belongs to the same terminator.
                if i < bytes.len() && bytes[i] == 0x0Au8 {
                    assert(!is_line_start(all, i as int));
                    assert(line_starts_upto(all, i as nat) == line_starts_upto(
                        all,
                        (i - 1) as nat,
                    ));
                    i += 1;
                }
                assert(is_line_start(all, i as int));
                lines.push(Position(i as u32));
            } else {
                assert(!is_line_start(all, i as int));
            }
        }
        Document { path, text, lines }
    }

    /// Returns the path to this document.
    pub fn path(&self) -> (path: &PathBuf)
        ensures
            *path == self.spec_path(),
    {
        &self.path
    }

    /// The position our document starts at.
    pub fn start(&self) -> (start: Position)
        ensures
            start@ == 0,
    {
        Position(0)
    }

    /// The position our document ends at.
    pub fn end(&self) -> (end: Position)
        ensures
            end@ == self.bytes().len(),
            end@ == utf8_len(self@),
    {
        proof {
            use_type_invariant(self);
            lemma_utf8_len_is_encoded_len(self@);
        }
        Position(self.text.as_str().len() as u32)
    }

    /// The document's text.
    pub fn text(&self) -> (text: &str)
        ensures
            text@ == self@,
    {
        self.text.as_str()
    }

    /// The positions at which the document's lines start, but for its first line.
    pub fn lines(&self) -> (lines: Vec<Position>)
        ensures
            lines@.len() == self.line_starts().len(),
            forall|i: int| 0 <= i < lines@.len() ==> (#[trigger] lines@[i])@ == self.line_starts()[i],
    {
        proof {
            use_type_invariant(self);
        }
        let lines = self.lines.clone();
        assert(lines@ =~= self.lines@);
        lines
    }
}


impl Position {
    /// Gets the zero-based line number of this position in the provided document. A new line is
    /// created by `\n`, `\r\n`, or `\r`.
    pub fn line(&self, document: &Document) -> (line: usize)
        ensures
            line == document.spec_line(self@),
            line <= document.line_starts().len(),
    {
        proof {
            use_type_invariant(document);
            lemma_line_starts_upto(document.bytes(), document.bytes().len());
        }
        let ghost starts = document.line_starts();
        let mut low: usize = 0;
        let mut high: usize = document.lines.len();
        while low < high
            invariant
                starts == document.line_starts(),
                document.lines@.len() == starts.len(),
                forall|i: int|
                    0 <= i < document.lines@.len() ==> (#[trigger] document.lines@[i]).0
                        == starts[i],
                forall|i: int, j: int| 0 <= i < j < starts.len() ==> starts[i] < starts[j],
                low <= high <= starts.len(),
                forall|i: int| 0 <= i < low ==> #[trigger] starts[i] <= self@,
                forall|i: int| high <= i < starts.len() ==> #[trigger] starts[i] > self@,
            decreases high - low,
        {
            let middle = low + (high - low) / 2;
            if document.lines[middle].0 <= self.0 {
                assert forall|i: int| 0 <= i < middle + 1 implies #[trigger] starts[i]
                    <= self@ by {
                    if i < middle {
                        assert(starts[i] < starts[middle as int]);
                    }
                }
                low = middle + 1;
            } else {
                assert forall|i: int| middle <= i < starts.len() implies #[trigger] starts[i]
                    > self@ by {
                    if i > middle {
                        assert(starts[middle as int] < starts[i]);
                    }
                }
                high = middle;
            }
        }
        proof {
            lemma_line_of_unique(starts, self@, low as nat);
        }
        low
    }

    /// Gets the zero-based character number of this position in the provided document. As per the
    /// [LSP][1] specification, character offsets are measured in UTF-16 code units.
    ///
    /// [1]: https://microsoft.github.io/language-server-protocol/specification
    pub fn character(&self, document: &Document) -> (character: usize)
        ensures
            character == document.spec_character(self@),
            character <= self@,
    {
        let line = self.line(document);
        proof {
            use_type_invariant(document);
            lemma_line_starts_upto(document.bytes(), document.bytes().len());
            lemma_line_of(document.line_starts(), self@);
        }
        let bytes = document.text.as_str().as_bytes();
        let start: usize = if line == 0 {
            0
        } else {
            document.lines[line - 1].0 as usize
        };
        let end: usize = self.0 as usize;
        assert(start == document.spec_line_start(self@));
        assert(start <= end);
        if start >= bytes.len() {
            end - bytes.len()
        } else if end > bytes.len() {
            (end - bytes.len()) + count_utf16(bytes, start, bytes.len())
        } else {
            count_utf16(bytes, start, end)
        }
    }
}

/// Counts the UTF-16 code units of the lossy decoding of `bytes[start..end]`.
fn count_utf16(bytes: &[u8], start: usize, end: usize) -> (units: usize)
    requires
        start <= end <= bytes@.len(),
    ensures
        units == lossy_utf16_len(bytes@.subrange(start as int, end as int)),
        units <= end - start,
{
    let mut i: usize = start;
    let mut units: usize = 0;
    let mut cut: bool = false;
    while i < end && !cut
        invariant
            start <= i <= end <= bytes@.len(),
            units <= i - start,
            cut ==> i == end,
            units + (if cut {
                0
            } else {
                lossy_utf16_len(bytes@.subrange(i as int, end as int))
            }) == lossy_utf16_len(bytes@.subrange(start as int, end as int)),
        decreases (end - i) + (if cut {
            0int
        } else {
            1int
        }),
    {
        let ghost piece = bytes@.subrange(i as int, end as int);
        let byte = bytes[i];
        assert(piece[0] == byte);
        let width: usize = if byte < 0x80 {
            1
        } else if byte < 0xE0 {
            2
        } else if byte < 0xF0 {
            3
        } else {
            4
        };
        if width > end - i {
            units += 1;
            i = end;
            cut = true;
        } else {
            assert(piece.skip(width as int) =~= bytes@.subrange(i + width, end as int));
            units += if width == 4 {
                2
            } else {
                1
            };
            i += width;
        }
    }
    assert(bytes@.subrange(end as int, end as int).len() == 0);
    units
}


/// `char::from_u32` of std gives the character with the scalar value `value`, and nothing
/// for a value that is no Unicode scalar.
#[verifier::external_body]
fn char_from_u32(value: u32) -> (c: Option<char>)
    ensures
        is_scalar(value) ==> c == Some(value as char),
        !is_scalar(value) ==> c is None,
{
    char::from_u32(value)
}

/// The UTF-8 length of two texts joined is the sum of their lengths.
pub proof fn lemma_utf8_len_concat(a: Seq<char>, b: Seq<char>)
    ensures
        utf8_len(a + b) == utf8_len(a) + utf8_len(b),
    decreases a.len(),
{
    if a.len() == 0 {
        assert(a + b =~= b);
    } else {
        assert((a + b).drop_first() =~= a.drop_first() + b);
        lemma_utf8_len_concat(a.drop_first(), b);
    }
}

/// The scalar value that a two-byte sequence holds has eleven bits.
proof fn lemma_width_2_bound(b0: u8, b1: u8)
    by (bit_vector)
    ensures
        (((b0 & 0x1F) as u32) << 6) | ((b1 & 0x3F) as u32) <= 0x7FF,
{
}

/// The scalar value that a three-byte sequence holds has sixteen bits.
proof fn lemma_width_3_bound(b0: u8, b1: u8, b2: u8)
    by (bit_vector)
    ensures
        (((b0 & 0x0F) as u32) << 12) | (((b1 & 0x3F) as u32) << 6) | ((b2 & 0x3F) as u32)
            <= 0xFFFF,
{
}

/// The scalar value that a one-byte sequence holds has seven bits.
proof fn lemma_width_1_bound(b0: u8)
    by (bit_vector)
    ensures
        ((b0 & 0x7F) as u32) <= 0x7F,
{
}

/// Decodes the character that starts at `offset`, and gives the offset after it; at the end
/// of the bytes there is no character.
fn decode_next(bytes: &[u8], offset: usize) -> (next: (Option<char>, usize))
    requires
        offset <= bytes@.len(),
        valid_utf8(bytes@.subrange(offset as int, bytes@.len() as int)),
    ensures
        offset == bytes@.len() ==> next.0 is None && next.1 == offset,
        offset < bytes@.len() ==> next.0 is Some && next.0->0 == decode_utf8(
            bytes@.subrange(offset as int, bytes@.len() as int),
        )[0] && next.1 == offset + len_utf8(next.0->0) && next.1 <= bytes@.len(),
        valid_utf8(bytes@.subrange(next.1 as int, bytes@.len() as int)),
        offset < bytes@.len() ==> decode_utf8(bytes@.subrange(next.1 as int, bytes@.len() as int))
            == decode_utf8(bytes@.subrange(offset as int, bytes@.len() as int)).drop_first(),
{
    if offset >= bytes.len() {
        return (None, offset);
    }
    let ghost tail = bytes@.subrange(offset as int, bytes@.len() as int);
    let b0 = bytes[offset];
    assert(tail[0] == b0);
    assert(valid_first_scalar(tail));
    let (value, width): (u32, usize) = if b0 < 0x80 {
        proof {
            lemma_width_1_bound(b0);
        }
        ((b0 & 0x7F) as u32, 1)
    } else if b0 < 0xE0 {
        let b1 = bytes[offset + 1];
        assert(tail[1] == b1);
        proof {
            lemma_width_2_bound(b0, b1);
        }
        ((((b0 & 0x1F) as u32) << 6) | ((b1 & 0x3F) as u32), 2)
    } else if b0 < 0xF0 {
        let b1 = bytes[offset + 1];
        let b2 = bytes[offset + 2];
        assert(tail[1] == b1);
        assert(tail[2] == b2);
        proof {
            lemma_width_3_bound(b0, b1, b2);
        }
        ((((b0 & 0x0F) as u32) << 12) | (((b1 & 0x3F) as u32) << 6) | ((b2 & 0x3F) as u32), 3)
    } else {
        let b1 = bytes[offset + 1];
        let b2 = bytes[offset + 2];
        let b3 = bytes[offset + 3];
        assert(tail[1] == b1);
        assert(tail[2] == b2);
        assert(tail[3] == b3);
        ((((b0 & 0x07) as u32) << 18) | (((b1 & 0x3F) as u32) << 12) | (((b2 & 0x3F) as u32)
            << 6) | ((b3 & 0x3F) as u32), 4)
    };
    assert(value == decode_first_scalar(tail));
    assert(width == length_of_first_scalar(tail));
    assert(is_scalar(value));
    proof {
        let first = value as char;
        decode_utf8_first_scalar(tail);
        lemma_encode_scalar_len(first);
        assert(take_first_scalar(tail).len() == width);
        assert(pop_first_scalar(tail) =~= bytes@.subrange(offset + width, bytes@.len() as int));
        assert(decode_utf8(tail).drop_first() =~= decode_utf8(pop_first_scalar(tail)));
    }
    (char_from_u32(value), offset + width)
}

/// The characters that a cursor has looked at and not yet consumed. Once the text's end has
/// been seen, the slot that saw it, and every later slot, is empty.
enum DocumentCharsLookahead {
    Lookahead0,
    Lookahead1(Option<char>),
    Lookahead2(Option<char>, Option<char>),
}

/// A cursor over the characters of a document, with two characters of lookahead. It stands at
/// a position between two characters: `advance` consumes the character after the position,
/// `lookahead` and `lookahead2` show the next two characters without consuming them. At the
/// end of the text there is no character, however often one asks.
pub struct DocumentChars<'a> {
    bytes: &'a [u8],
    offset: usize,
    position: u32,
    lookahead: DocumentCharsLookahead,
}

impl<'a> DocumentChars<'a> {
    spec fn tail(&self) -> Seq<u8> {
        self.bytes@.subrange(self.offset as int, self.bytes@.len() as int)
    }

    spec fn buffered(&self) -> Seq<char> {
        match self.lookahead {
            DocumentCharsLookahead::Lookahead0 => Seq::empty(),
            DocumentCharsLookahead::Lookahead1(Some(c)) => seq![c],
            DocumentCharsLookahead::Lookahead1(None) => Seq::empty(),
            DocumentCharsLookahead::Lookahead2(Some(c1), Some(c2)) => seq![c1, c2],
            DocumentCharsLookahead::Lookahead2(Some(c1), None) => seq![c1],
            DocumentCharsLookahead::Lookahead2(None, _) => Seq::empty(),
        }
    }

    /// The cursor's state is consistent: its position and its lookahead agree with the text.
    pub closed spec fn wf(&self) -> bool {
        &&& self.bytes@.len() <= u32::MAX
        &&& self.offset <= self.bytes@.len()
        &&& valid_utf8(self.tail())
        &&& self.position + utf8_len(self.buffered()) == self.offset
        &&& match self.lookahead {
            DocumentCharsLookahead::Lookahead1(None) => self.offset == self.bytes@.len(),
            DocumentCharsLookahead::Lookahead2(_, None) => self.offset == self.bytes@.len(),
            _ => true,
        }
        &&& !(self.lookahead matches DocumentCharsLookahead::Lookahead2(None, Some(_)))
    }

    /// The characters that are not consumed yet, in order.
    pub closed spec fn rest(&self) -> Seq<char> {
        self.buffered() + decode_utf8(self.tail())
    }

    /// The byte offset of the cursor's position.
    pub closed spec fn spec_position(&self) -> nat {
        self.position as nat
    }

    /// The length in bytes of the text that the cursor walks.
    pub closed spec fn total(&self) -> nat {
        self.bytes@.len()
    }

    /// The cursor's position is the end of the text less the bytes of what is not consumed.
    pub proof fn lemma_position(&self)
        requires
            self.wf(),
        ensures
            self.spec_position() + utf8_len(self.rest()) == self.total(),
            self.total() <= u32::MAX,
    {
        lemma_utf8_len_concat(self.buffered(), decode_utf8(self.tail()));
        lemma_utf8_len_is_encoded_len(decode_utf8(self.tail()));
        decode_utf8_encode_utf8(self.tail());
    }

    /// Consumes a character and advances our iterator to the next character. To look at the next
    /// character without consuming it, call `DocumentChars::lookahead()`.
    ///
    /// When `None` is returned we’ve reached the end of our document’s characters. Calling
    /// `DocumentChars::advance()` will only return `None` now.
    pub fn advance(&mut self) -> (next: Option<char>)
        requires
            old(self).wf(),
        ensures
            final(self).wf(),
            final(self).total() == old(self).total(),
            old(self).rest().len() > 0 ==> next == Some(old(self).rest()[0]) && final(self).rest()
                == old(self).rest().drop_first() && final(self).spec_position() == old(self).spec_position() + len_utf8(old(self).rest()[0]),
            old(self).rest().len() == 0 ==> next is None && final(self).rest() == old(self).rest()
                && final(self).spec_position() == old(self).spec_position(),
    {
        proof {
            self.lemma_position();
        }
        let next = match self.lookahead {
            DocumentCharsLookahead::Lookahead0 => {
                let (next, offset) = decode_next(self.bytes, self.offset);
                self.offset = offset;
                next
            },
            DocumentCharsLookahead::Lookahead1(lookahead1) => {
                self.lookahead = DocumentCharsLookahead::Lookahead0;
                lookahead1
            },
            DocumentCharsLookahead::Lookahead2(lookahead1, lookahead2) => {
                self.lookahead = DocumentCharsLookahead::Lookahead1(lookahead2);
                lookahead1
            },
        };
        if let Some(c) = next {
            let width: u32 = if (c as u32) < 0x80 {
                1
            } else if (c as u32) < 0x800 {
                2
            } else if (c as u32) < 0x10000 {
                3
            } else {
                4
            };
            assert(old(self).rest()[0] == c);
            assert(utf8_len(old(self).buffered()) == if old(self).buffered().len() == 0 {
                0
            } else {
                len_utf8(c) + utf8_len(old(self).buffered().drop_first())
            });
            assert(old(self).buffered().len() > 0 ==> self.buffered() =~= old(self).buffered().drop_first());
            assert(utf8_len(Seq::<char>::empty()) == 0);
            self.position += width;
        }
        assert(self.rest() =~= if old(self).rest().len() > 0 {
            old(self).rest().drop_first()
        } else {
            old(self).rest()
        });
        next
    }

    /// Looks at the next character without advancing the iterator.
    pub fn lookahead(&mut self) -> (next: Option<char>)
        requires
            old(self).wf(),
        ensures
            final(self).wf(),
            final(self).total() == old(self).total(),
            final(self).rest() == old(self).rest(),
            final(self).spec_position() == old(self).spec_position(),
            next == if old(self).rest().len() > 0 {
                Some(old(self).rest()[0])
            } else {
                None
            },
    {
        match self.lookahead {
            DocumentCharsLookahead::Lookahead0 => {
                let (lookahead1, offset) = decode_next(self.bytes, self.offset);
                self.offset = offset;
                self.lookahead = DocumentCharsLookahead::Lookahead1(lookahead1);
                proof {
                    reveal_with_fuel(utf8_len, 2);
                    assert(self.rest() =~= old(self).rest());
                }
                lookahead1
            },
            DocumentCharsLookahead::Lookahead1(lookahead1) => lookahead1,
            DocumentCharsLookahead::Lookahead2(lookahead1, _) => lookahead1,
        }
    }

    /// Looks two characters ahead without advancing the iterator.
    pub fn lookahead2(&mut self) -> (next: Option<char>)
        requires
            old(self).wf(),
        ensures
            final(self).wf(),
            final(self).total() == old(self).total(),
            final(self).rest() == old(self).rest(),
            final(self).spec_position() == old(self).spec_position(),
            next == if old(self).rest().len() > 1 {
                Some(old(self).rest()[1])
            } else {
                None
            },
    {
        match self.lookahead {
            DocumentCharsLookahead::Lookahead0 => {
                let (lookahead1, offset1) = decode_next(self.bytes, self.offset);
                let (lookahead2, offset2) = decode_next(self.bytes, offset1);
                self.offset = offset2;
                self.lookahead = DocumentCharsLookahead::Lookahead2(lookahead1, lookahead2);
                proof {
                    reveal_with_fuel(utf8_len, 3);
                    assert(self.rest() =~= old(self).rest());
                }
                lookahead2
            },
            DocumentCharsLookahead::Lookahead1(lookahead1) => {
                let (lookahead2, offset) = decode_next(self.bytes, self.offset);
                self.offset = offset;
                self.lookahead = DocumentCharsLookahead::Lookahead2(lookahead1, lookahead2);
                proof {
                    reveal_with_fuel(utf8_len, 3);
                    assert(self.rest() =~= old(self).rest());
                }
                lookahead2
            },
            DocumentCharsLookahead::Lookahead2(_, lookahead2) => lookahead2,
        }
    }

    /// Returns the position between the previous character and the next character. See the
    /// documentation on `DocumentChars` for more information.
    pub fn position(&self) -> (position: Position)
        ensures
            position@ == self.spec_position(),
    {
        Position(self.position)
    }

    /// Advance if the character we are advancing is equal to the provided character. Returns true
    /// if we were able to advance.
    pub fn advance_char(&mut self, c: char) -> (advanced: bool)
        requires
            old(self).wf(),
        ensures
            final(self).wf(),
            final(self).total() == old(self).total(),
            advanced == (old(self).rest().len() > 0 && old(self).rest()[0] == c),
            advanced ==> final(self).rest() == old(self).rest().drop_first() && final(self).spec_position() == old(self).spec_position() + len_utf8(c),
            !advanced ==> final(self).rest() == old(self).rest() && final(self).spec_position()
                == old(self).spec_position(),
    {
        if self.lookahead() == Some(c) {
            self.advance();
            true
        } else {
            false
        }
    }

    /// Runs a test function on the lookahead character. If the lookahead character is `None` we
    /// return false.
    pub fn lookahead_is<F>(&mut self, f: F) -> (holds: bool) where F: FnOnce(char) -> bool
        requires
            old(self).wf(),
            old(self).rest().len() > 0 ==> call_requires(f, (old(self).rest()[0],)),
        ensures
            final(self).wf(),
            final(self).total() == old(self).total(),
            final(self).rest() == old(self).rest(),
            final(self).spec_position() == old(self).spec_position(),
            old(self).rest().len() == 0 ==> !holds,
            old(self).rest().len() > 0 ==> call_ensures(f, (old(self).rest()[0],), holds),
    {
        match self.lookahead() {
            Some(c) => f(c),
            None => false,
        }
    }
}

impl Document {
    /// Gets an iterator of characters in the source document along with the position of
    /// that character.
    pub fn chars(&self) -> (chars: DocumentChars<'_>)
        ensures
            chars.wf(),
            chars.rest() == self@,
            chars.spec_position() == 0,
            chars.total() == self.bytes().len(),
    {
        proof {
            use_type_invariant(self);
            encode_utf8_valid_utf8(self@);
            encode_utf8_decode_utf8(self@);
        }
        let bytes = self.text.as_str().as_bytes();
        assert(bytes@.subrange(0, bytes@.len() as int) =~= bytes@);
        DocumentChars { bytes, offset: 0, position: 0, lookahead: DocumentCharsLookahead::Lookahead0 }
    }
}


impl Range {
    /// The range of the single character `c` that starts at `start`.
    pub fn single_char(start: Position, c: char) -> (range: Range)
        requires
            start@ + len_utf8(c) <= u32::MAX,
        ensures
            range.start_index() == start@,
            range.len() == len_utf8(c),
    {
        let length: u32 = if (c as u32) < 0x80 {
            1
        } else if (c as u32) < 0x800 {
            2
        } else if (c as u32) < 0x10000 {
            3
        } else {
            4
        };
        Range { start, length }
    }
}

/// A position as an editor shows it: its line and its character in the line, both counted
/// from one, with a colon between them.
pub open spec fn position_text(document: &Document, p: nat) -> Seq<char> {
    decimal_digits(document.spec_line(p) + 1) + seq![':'] + decimal_digits(
        document.spec_character(p) + 1,
    )
}

/// A range as an editor shows it: its start, and after a hyphen its end unless it is empty.
pub open spec fn range_text(document: &Document, range: Range) -> Seq<char> {
    if range.len() == 0 {
        position_text(document, range.start_index())
    } else {
        position_text(document, range.start_index()) + seq!['-'] + position_text(
            document,
            range.end_index(),
        )
    }
}

impl Position {
    /// Writes the position as an editor shows it.
    pub fn display(&self, document: &Document, out: &mut String)
        ensures
            final(out)@ == old(out)@ + position_text(document, self@),
    {
        proof {
            reveal_strlit(":");
        }
        let line = self.line(document);
        let character = self.character(document);
        proof {
            use_type_invariant(document);
            lemma_line_starts_upto(document.bytes(), document.bytes().len());
        }
        push_decimal(out, line as u64 + 1);
        out.append(":");
        push_decimal(out, character as u64 + 1);
        assert(out@ =~= old(out)@ + position_text(document, self@)) by {
            assert(":"@ =~= seq![':']);
        }
    }
}

impl Range {
    /// Writes the range as an editor shows it.
    pub fn display(&self, document: &Document) -> (text: String)
        ensures
            text@ == range_text(document, *self),
    {
        proof {
            reveal_strlit("-");
        }
        let mut text = String::new();
        self.start.display(document, &mut text);
        if self.length > 0 {
            text.append("-");
            self.end().display(document, &mut text);
            assert(text@ =~= range_text(document, *self)) by {
                assert("-"@ =~= seq!['-']);
            }
        }
        text
    }
}

} // verus!
