//! Compile-time allocations and their hex/ASCII dump.
use vstd::prelude::*;
use crate::text::{
    center, chars_of, dec, fill, hex, hex_width, push_center, push_dec, push_fill, push_hex, push_seq,
    zero_pad,
};

verus! {

/// An opaque handle of an allocation, displayed as `alloc<N>`.
#[derive(Clone, Copy, Debug, PartialEq, Eq, Structural, PartialOrd, Ord, Hash)]
pub struct AllocId(pub u64);

/// A pointer stored at byte `offset`, pointing into allocation `target`; the
/// pointer's bytes hold the offset within the target.
#[derive(Clone, Copy, Debug, PartialEq, Eq, Structural)]
pub struct Relocation {
    pub offset: usize,
    pub target: AllocId,
}

/// The target's pointer width in bytes and its byte order.
#[derive(Clone, Copy, Debug, PartialEq, Eq, Structural)]
pub struct DataLayout {
    pub pointer_size: usize,
    pub big_endian: bool,
}

impl DataLayout {
    /// Pointers of two to eight bytes.
    pub open spec fn wf(&self) -> bool {
        2 <= self.pointer_size <= 8
    }
}

/// A compile-time byte buffer: its bytes, which of them are defined, the
/// pointers stored in it (by increasing offset), and its alignment.
#[derive(Clone, Debug)]
pub struct Allocation {
    pub bytes: Vec<u8>,
    pub defined: Vec<bool>,
    pub relocations: Vec<Relocation>,
    pub align: u64,
}

impl DataLayout {
    pub fn is_valid(&self) -> (r: bool)
        ensures
            r == self.wf(),
    {
        2 <= self.pointer_size && self.pointer_size <= 8
    }
}

impl Allocation {
    /// Whether the allocation can be shown for layout `dl`.
    pub fn is_valid(&self, dl: &DataLayout) -> (r: bool)
        ensures
            r == self.wf(*dl),
    {
        if !dl.is_valid() || self.bytes.len() > isize::MAX as usize || self.defined.len()
            != self.bytes.len() {
            return false;
        }
        let rs = &self.relocations;
        let ps = dl.pointer_size;
        let mut k: usize = 0;
        while k < rs.len()
            invariant
                dl.wf(),
                ps == dl.pointer_size,
                rs@ == self.relocations@,
                k <= rs@.len(),
                forall|m: int| 0 <= m < k ==> #[trigger] rs@[m].offset + ps <= self.bytes@.len(),
                forall|j: int, m: int|
                    0 <= j < m < k ==> #[trigger] rs@[j].offset + ps <= #[trigger] rs@[m].offset,
            decreases rs.len() - k,
        {
            if rs[k].offset > self.bytes.len() || ps > self.bytes.len() - rs[k].offset {
                return false;
            }
            let mut j: usize = 0;
            while j < k
                invariant
                    k < rs@.len(),
                    j <= k,
                    rs@ == self.relocations@,
                    ps == dl.pointer_size,
                    forall|m: int| 0 <= m < j ==> #[trigger] rs@[m].offset + ps <= rs@[k as int].offset,
                decreases k - j,
            {
                if rs[j].offset > rs[k].offset || ps > rs[k].offset - rs[j].offset {
                    proof {
                        let jj = j as int;
                        let kk = k as int;
                        assert(!(self.relocations@[jj].offset + dl.pointer_size
                            <= self.relocations@[kk].offset));
                        assert(jj < kk);
                    }
                    return false;
                }
                j = j + 1;
            }
            k = k + 1;
        }
        true
    }

    /// One definedness flag per byte; each pointer lies within the bytes, and
    /// pointers do not overlap, in increasing order of offset.
    pub open spec fn wf(&self, dl: DataLayout) -> bool {
        &&& dl.wf()
        &&& self.bytes@.len() <= isize::MAX
        &&& self.defined@.len() == self.bytes@.len()
        &&& forall|k: int|
            0 <= k < self.relocations@.len() ==> #[trigger] self.relocations@[k].offset
                + dl.pointer_size <= self.bytes@.len()
        &&& forall|j: int, k: int|
            0 <= j < k < self.relocations@.len() ==> #[trigger] self.relocations@[j].offset
                + dl.pointer_size <= #[trigger] self.relocations@[k].offset
    }
}

/// The unsigned integer held by `s` with its least significant byte first.
pub open spec fn uint_le(s: Seq<u8>) -> nat
    decreases s.len(),
{
    if s.len() == 0 {
        0
    } else {
        s[0] as nat + 256 * uint_le(s.drop_first())
    }
}

/// The unsigned integer held by `s` with its most significant byte first.
pub open spec fn uint_be(s: Seq<u8>) -> nat
    decreases s.len(),
{
    if s.len() == 0 {
        0
    } else {
        uint_be(s.drop_last()) * 256 + s.last() as nat
    }
}

pub open spec fn read_uint(s: Seq<u8>, big_endian: bool) -> nat {
    if big_endian {
        uint_be(s)
    } else {
        uint_le(s)
    }
}

pub open spec fn pow256(n: nat) -> nat
    decreases n,
{
    if n == 0 {
        1
    } else {
        256 * pow256((n - 1) as nat)
    }
}

proof fn lemma_uint_le_bound(s: Seq<u8>)
    ensures
        uint_le(s) < pow256(s.len()),
    decreases s.len(),
{
    if s.len() > 0 {
        lemma_uint_le_bound(s.drop_first());
        let r = uint_le(s.drop_first());
        let p = pow256((s.len() - 1) as nat);
        assert(s[0] as nat + 256 * r < 256 * p) by (nonlinear_arith)
            requires
                r < p,
                s[0] < 256,
        ;
    }
}

proof fn lemma_uint_be_bound(s: Seq<u8>)
    ensures
        uint_be(s) < pow256(s.len()),
    decreases s.len(),
{
    if s.len() > 0 {
        lemma_uint_be_bound(s.drop_last());
        let r = uint_be(s.drop_last());
        let p = pow256((s.len() - 1) as nat);
        assert(r * 256 + s.last() < 256 * p) by (nonlinear_arith)
            requires
                r < p,
                s.last() < 256,
        ;
    }
}

proof fn lemma_pow256_mono(n: nat)
    requires
        n <= 8,
    ensures
        pow256(n) <= 0x1_0000_0000_0000_0000,
    decreases n,
{
    reveal_with_fuel(pow256, 9);
}

/// Reads the `n` bytes at `at` as an unsigned integer in the given byte order.
#[verifier::rlimit(100)]
pub fn read_target_uint(bytes: &Vec<u8>, at: usize, n: usize, big_endian: bool) -> (r: u64)
    requires
        n <= 8,
        at + n <= bytes@.len(),
    ensures
        r == read_uint(bytes@.subrange(at as int, at + n), big_endian),
{
    let ghost s = bytes@.subrange(at as int, at + n);
    let _len = bytes.len();
    proof {
        lemma_pow256_mono(n as nat);
        lemma_uint_le_bound(s);
        lemma_uint_be_bound(s);
    }
    if big_endian {
        let mut acc: u64 = 0;
        let mut j: usize = 0;
        while j < n
            invariant
                n <= 8,
                at + n <= bytes@.len(),
                bytes@.len() <= usize::MAX,
                s == bytes@.subrange(at as int, at + n),
                j <= n,
                acc == uint_be(s.subrange(0, j as int)),
            decreases n - j,
        {
            proof {
                let t = s.subrange(0, j + 1);
                assert(t.drop_last() == s.subrange(0, j as int));
                lemma_uint_be_bound(t);
                lemma_pow256_upto((j + 1) as nat, n as nat);
                lemma_pow256_mono(n as nat);
            }
            acc = acc * 256 + bytes[at + j] as u64;
            j = j + 1;
        }
        proof {
            assert(s.subrange(0, n as int) == s);
        }
        acc
    } else {
        let mut acc: u64 = 0;
        let mut j: usize = n;
        while j > 0
            invariant
                n <= 8,
                at + n <= bytes@.len(),
                bytes@.len() <= usize::MAX,
                s == bytes@.subrange(at as int, at + n),
                j <= n,
                acc == uint_le(s.subrange(j as int, n as int)),
            decreases j,
        {
            proof {
                let t = s.subrange(j - 1, n as int);
                assert(t.drop_first() == s.subrange(j as int, n as int));
                lemma_uint_le_bound(t);
                lemma_pow256_upto((n - j + 1) as nat, n as nat);
                lemma_pow256_mono(n as nat);
            }
            acc = bytes[at + j - 1] as u64 + 256 * acc;
            j = j - 1;
        }
        proof {
            assert(s.subrange(0, n as int) == s);
        }
        acc
    }
}

proof fn lemma_pow256_upto(a: nat, b: nat)
    requires
        a <= b,
    ensures
        pow256(a) <= pow256(b),
    decreases b,
{
    if a < b {
        lemma_pow256_upto(a, (b - 1) as nat);
    }
}


/// Bytes shown on one line of a dump.
pub const BYTES_PER_LINE: usize = 16;

/// Opens a pointer, in the hex and in the ASCII column.
pub const PTR_START: char = '\u{257e}';
/// Continues a pointer, and fills around a pointer's text.
pub const PTR_FILL: char = '\u{2500}';
/// Closes a pointer.
pub const PTR_END: char = '\u{257c}';
/// Stands for an undefined byte in the ASCII column.
pub const UNDEF_MARK: char = '\u{2591}';
/// Separates the address, the hex and the ASCII columns.
pub const COLUMN_MARK: char = '\u{2014}';

pub open spec fn column_sep() -> Seq<char> {
    seq![' ', COLUMN_MARK, ' ']
}

/// The ASCII column's character for a defined byte: itself where printable,
/// else a dot.
pub open spec fn ascii_of(b: u8) -> char {
    if b < 0x20 || b == 0x7f || b >= 0x80 {
        '.'
    } else {
        b as char
    }
}

/// The end of a line: blank hex cells for the bytes the line lacks, then the
/// ASCII column.
pub open spec fn endline_text(ascii: Seq<char>) -> Seq<char> {
    fill(' ', 3 * (BYTES_PER_LINE - ascii.len())) + column_sep() + ascii + seq!['\n']
}

/// The start of the line at byte `start`: its address, padded to `pos_width` digits.
pub open spec fn line_header(prefix: Seq<char>, start: int, pos_width: int) -> Seq<char> {
    prefix + seq!['0', 'x'] + zero_pad(hex(start as nat), pos_width) + column_sep()
}

/// Ends the line that starts at `line_start` and begins the next one.
pub open spec fn newline_text(
    prefix: Seq<char>,
    line_start: int,
    ascii: Seq<char>,
    pos_width: int,
) -> Seq<char> {
    endline_text(ascii) + line_header(prefix, line_start + BYTES_PER_LINE, pos_width)
}

/// A pointer's text: the target allocation and the offset within it.
pub open spec fn ptr_text(target: AllocId, offset: nat) -> Seq<char> {
    seq!['a', 'l', 'l', 'o', 'c'] + dec(target.0 as nat) + seq!['+'] + dec(offset)
}

/// A pointer's text that does not fit in `width` columns gets the pointer's
/// size appended, so that a reader knows how many bytes it covers.
pub open spec fn fitted_ptr_text(t: Seq<char>, width: int, ptr_size: nat) -> Seq<char> {
    if t.len() > width {
        t + seq![' ', '('] + dec(ptr_size) + seq![' ', 'p', 't', 'r', ' ', 'b', 'y', 't', 'e', 's', ')']
    } else {
        t
    }
}

/// The target of the pointer stored at byte `i`, if one is.
pub open spec fn reloc_at(rs: Seq<Relocation>, i: int) -> Option<AllocId> {
    if exists|k: int| 0 <= k < rs.len() && #[trigger] rs[k].offset == i {
        Some(rs[choose|k: int| 0 <= k < rs.len() && #[trigger] rs[k].offset == i].target)
    } else {
        None
    }
}

/// Where the dump stands: the next byte, the start of the current line, and
/// the ASCII column gathered so far for that line.
pub struct DumpState {
    pub i: int,
    pub line_start: int,
    pub ascii: Seq<char>,
}

/// After a cell: where the line is full and bytes remain, the next line begins.
pub open spec fn after_cell(
    size: int,
    prefix: Seq<char>,
    pos_width: int,
    out: Seq<char>,
    st: DumpState,
) -> (Seq<char>, DumpState) {
    if st.i == st.line_start + BYTES_PER_LINE && st.i != size {
        (
            out + newline_text(prefix, st.line_start, st.ascii, pos_width),
            DumpState { i: st.i, line_start: st.i, ascii: seq![] },
        )
    } else {
        (out, st)
    }
}

/// Separates a cell from the one before it on the same line.
pub open spec fn cell_sep(st: DumpState) -> Seq<char> {
    if st.i != st.line_start {
        seq![' ']
    } else {
        seq![]
    }
}

/// A pointer's text, as read from its bytes.
pub open spec fn ptr_token(a: Allocation, dl: DataLayout, i: int, t: AllocId) -> Seq<char> {
    ptr_text(t, read_uint(a.bytes@.subrange(i, i + dl.pointer_size), dl.big_endian))
}

/// A pointer to `t` that starts on this line and ends on the next: its text
/// goes on the side with room for it, the earlier side where both have, and
/// the line break comes between the two parts.
pub open spec fn split_ptr_step(
    a: Allocation,
    dl: DataLayout,
    prefix: Seq<char>,
    pos_width: int,
    st: DumpState,
    t: AllocId,
) -> (Seq<char>, DumpState) {
    let ps = dl.pointer_size as int;
    let tok = ptr_token(a, dl, st.i, t);
    let rem = BYTES_PER_LINE - (st.i - st.line_start);
    let ovf = ps - rem;
    let rw = rem * 3 - 2;
    let ow = (ovf - 1) * 3 + 1;
    let ascii1 = st.ascii + seq![PTR_START] + fill(PTR_FILL, rem - 1);
    let ascii2 = fill(PTR_FILL, ovf - 1) + seq![PTR_END];
    let out = if ow > rw && ow >= tok.len() {
        cell_sep(st) + seq![PTR_START] + center(seq![], rw, PTR_FILL) + newline_text(
            prefix,
            st.line_start,
            ascii1,
            pos_width,
        ) + center(tok, ow, PTR_FILL) + seq![PTR_END]
    } else {
        cell_sep(st) + seq![PTR_START] + center(fitted_ptr_text(tok, rw, ps as nat), rw, PTR_FILL)
            + newline_text(prefix, st.line_start, ascii1, pos_width) + center(seq![], ow, PTR_FILL)
            + seq![PTR_END]
    };
    (out, DumpState { i: st.i + ps, line_start: st.line_start + BYTES_PER_LINE, ascii: ascii2 })
}

/// A pointer to `t` that ends on the line where it starts: one bracketed token.
pub open spec fn ptr_cell(a: Allocation, dl: DataLayout, st: DumpState, t: AllocId) -> (
    Seq<char>,
    DumpState,
) {
    let ps = dl.pointer_size as int;
    let rw = (ps - 1) * 3;
    (
        cell_sep(st) + seq![PTR_START] + center(
            fitted_ptr_text(ptr_token(a, dl, st.i, t), rw, ps as nat),
            rw,
            PTR_FILL,
        ) + seq![PTR_END],
        DumpState {
            i: st.i + ps,
            line_start: st.line_start,
            ascii: st.ascii + seq![PTR_START] + fill(PTR_FILL, ps - 2) + seq![PTR_END],
        },
    )
}

/// A plain byte: two hex digits where defined, `__` where not.
pub open spec fn byte_cell(a: Allocation, st: DumpState) -> (Seq<char>, DumpState) {
    let b = a.bytes@[st.i];
    if a.defined@[st.i] {
        (
            cell_sep(st) + zero_pad(hex(b as nat), 2),
            DumpState { i: st.i + 1, line_start: st.line_start, ascii: st.ascii.push(ascii_of(b)) },
        )
    } else {
        (
            cell_sep(st) + seq!['_', '_'],
            DumpState { i: st.i + 1, line_start: st.line_start, ascii: st.ascii.push(UNDEF_MARK) },
        )
    }
}

/// The text for the cell at `st.i` (one byte, or one pointer), and the state after it.
pub open spec fn dump_step(
    a: Allocation,
    dl: DataLayout,
    prefix: Seq<char>,
    pos_width: int,
    st: DumpState,
) -> (Seq<char>, DumpState) {
    let size = a.bytes@.len() as int;
    match reloc_at(a.relocations@, st.i) {
        Some(t) => {
            if (st.i - st.line_start) + dl.pointer_size > BYTES_PER_LINE {
                split_ptr_step(a, dl, prefix, pos_width, st, t)
            } else {
                let (o, next) = ptr_cell(a, dl, st, t);
                after_cell(size, prefix, pos_width, o, next)
            }
        },
        None => {
            let (o, next) = byte_cell(a, st);
            after_cell(size, prefix, pos_width, o, next)
        },
    }
}

/// The rest of the dump from state `st`: the cells up to the end, then the end
/// of the last line.
pub open spec fn dump_from(
    a: Allocation,
    dl: DataLayout,
    prefix: Seq<char>,
    pos_width: int,
    st: DumpState,
) -> Seq<char>
    decreases a.bytes@.len() - st.i,
{
    if st.i >= a.bytes@.len() {
        endline_text(st.ascii)
    } else {
        let (o, next) = dump_step(a, dl, prefix, pos_width, st);
        if next.i <= st.i || next.i > a.bytes@.len() {
            endline_text(st.ascii)
        } else {
            o + dump_from(a, dl, prefix, pos_width, next)
        }
    }
}

/// The byte block of a non-empty allocation: lines of sixteen cells, each line
/// of a multi-line dump led by its address.
pub open spec fn bytes_text(a: Allocation, dl: DataLayout, prefix: Seq<char>) -> Seq<char> {
    let size = a.bytes@.len();
    let pw = hex(size).len() as int;
    (if size > BYTES_PER_LINE {
        line_header(prefix, 0, pw)
    } else {
        prefix
    }) + dump_from(a, dl, prefix, pw, DumpState { i: 0, line_start: 0, ascii: seq![] })
}

/// The description of an allocation that follows its `(`: size and alignment,
/// then its bytes in braces.
pub open spec fn allocation_text(a: Allocation, dl: DataLayout) -> Seq<char> {
    let size = a.bytes@.len();
    seq!['s', 'i', 'z', 'e', ':', ' '] + dec(size) + seq![',', ' ', 'a', 'l', 'i', 'g', 'n', ':', ' ']
        + dec(a.align as nat) + seq![')'] + if size == 0 {
        seq![' ', '{', '}']
    } else {
        seq![' ', '{', '\n'] + bytes_text(a, dl, seq![' ', ' ', ' ', ' ']) + seq!['}']
    }
}


/// The target of the pointer stored at byte `i`, if one is.
fn find_reloc(a: &Allocation, dl: &DataLayout, i: usize) -> (r: Option<AllocId>)
    requires
        a.wf(*dl),
    ensures
        r == reloc_at(a.relocations@, i as int),
{
    let rs = &a.relocations;
    let mut k: usize = 0;
    while k < rs.len()
        invariant
            a.wf(*dl),
            rs@ == a.relocations@,
            k <= rs@.len(),
            forall|m: int| 0 <= m < k ==> #[trigger] rs@[m].offset != i,
        decreases rs.len() - k,
    {
        if rs[k].offset == i {
            proof {
                let c = choose|m: int| 0 <= m < rs@.len() && #[trigger] rs@[m].offset == i;
                if c != k {
                    if c < k {
                        assert(rs@[c].offset + dl.pointer_size <= rs@[k as int].offset);
                    } else {
                        assert(rs@[k as int].offset + dl.pointer_size <= rs@[c].offset);
                    }
                }
            }
            return Some(rs[k].target);
        }
        k = k + 1;
    }
    None
}

/// Ends a line: blank cells for missing bytes, then the ASCII column.
fn write_allocation_endline(out: &mut Vec<char>, ascii: &Vec<char>)
    ensures
        final(out)@ == old(out)@ + endline_text(ascii@),
{
    let pad: usize = if ascii.len() < BYTES_PER_LINE {
        3 * (BYTES_PER_LINE - ascii.len())
    } else {
        0
    };
    push_fill(out, ' ', pad);
    out.push(' ');
    out.push(COLUMN_MARK);
    out.push(' ');
    push_seq(out, ascii);
    out.push('\n');
    proof {
        assert(fill(' ', pad as int) =~= fill(' ', 3 * (BYTES_PER_LINE - ascii@.len())));
        assert(out@ =~= old(out)@ + endline_text(ascii@));
    }
}

fn write_line_header(out: &mut Vec<char>, prefix: &Vec<char>, start: usize, pos_width: usize)
    ensures
        final(out)@ == old(out)@ + line_header(prefix@, start as int, pos_width as int),
{
    push_seq(out, prefix);
    out.push('0');
    out.push('x');
    push_hex(out, start as u64, pos_width);
    out.push(' ');
    out.push(COLUMN_MARK);
    out.push(' ');
    proof {
        assert(out@ =~= old(out)@ + line_header(prefix@, start as int, pos_width as int));
    }
}

/// Ends the line that starts at `line_start`, begins the next one with its
/// address, and returns where the next line starts.
fn write_allocation_newline(
    out: &mut Vec<char>,
    line_start: usize,
    ascii: &Vec<char>,
    pos_width: usize,
    prefix: &Vec<char>,
) -> (r: usize)
    requires
        line_start + BYTES_PER_LINE <= usize::MAX,
    ensures
        r == line_start + BYTES_PER_LINE,
        final(out)@ == old(out)@ + newline_text(
            prefix@,
            line_start as int,
            ascii@,
            pos_width as int,
        ),
{
    write_allocation_endline(out, ascii);
    let next = line_start + BYTES_PER_LINE;
    write_line_header(out, prefix, next, pos_width);
    proof {
        assert(out@ =~= old(out)@ + newline_text(prefix@, line_start as int, ascii@, pos_width as int));
    }
    next
}

fn ptr_text_of(target: AllocId, offset: u64) -> (r: Vec<char>)
    ensures
        r@ == ptr_text(target, offset as nat),
{
    let mut r: Vec<char> = vec!['a', 'l', 'l', 'o', 'c'];
    push_dec(&mut r, target.0);
    r.push('+');
    push_dec(&mut r, offset);
    proof {
        assert(r@ =~= ptr_text(target, offset as nat));
    }
    r
}

fn fit_ptr_text(t: Vec<char>, width: usize, ptr_size: usize) -> (r: Vec<char>)
    ensures
        r@ == fitted_ptr_text(t@, width as int, ptr_size as nat),
{
    if t.len() > width {
        let mut r = t;
        r.push(' ');
        r.push('(');
        push_dec(&mut r, ptr_size as u64);
        let tail: Vec<char> = vec![' ', 'p', 't', 'r', ' ', 'b', 'y', 't', 'e', 's', ')'];
        push_seq(&mut r, &tail);
        proof {
            assert(r@ =~= fitted_ptr_text(t@, width as int, ptr_size as nat));
        }
        r
    } else {
        t
    }
}

#[verifier::rlimit(100)]
fn write_split_ptr(
    a: &Allocation,
    dl: &DataLayout,
    prefix: &Vec<char>,
    pos_width: usize,
    i: usize,
    ls: usize,
    t: AllocId,
    o: &mut Vec<char>,
    ascii: &mut Vec<char>,
) -> (r: (usize, usize))
    requires
        a.wf(*dl),
        ls <= i < a.bytes@.len(),
        i - ls < BYTES_PER_LINE,
        i - ls + dl.pointer_size > BYTES_PER_LINE,
        i + dl.pointer_size <= a.bytes@.len(),
        old(o)@ == cell_sep(DumpState { i: i as int, line_start: ls as int, ascii: old(ascii)@ }),
    ensures
        ({
            let (so, next) = split_ptr_step(
                *a,
                *dl,
                prefix@,
                pos_width as int,
                DumpState { i: i as int, line_start: ls as int, ascii: old(ascii)@ },
                t,
            );
            final(o)@ == so && next.i == r.0 && next.line_start == r.1 && next.ascii
                == final(ascii)@
        }),
{
    let ps = dl.pointer_size;
    let off = read_target_uint(&a.bytes, i, ps, dl.big_endian);
    let tok = ptr_text_of(t, off);
    let rem = BYTES_PER_LINE - (i - ls);
    let ovf = ps - rem;
    let rw = rem * 3 - 2;
    let ow = (ovf - 1) * 3 + 1;
    ascii.push(PTR_START);
    push_fill(ascii, PTR_FILL, rem - 1);
    o.push(PTR_START);
    let empty: Vec<char> = Vec::new();
    let nls;
    if ow > rw && ow >= tok.len() {
        push_center(o, &empty, rw, PTR_FILL);
        nls = write_allocation_newline(o, ls, ascii, pos_width, prefix);
        push_center(o, &tok, ow, PTR_FILL);
    } else {
        let ft = fit_ptr_text(tok, rw, ps);
        push_center(o, &ft, rw, PTR_FILL);
        nls = write_allocation_newline(o, ls, ascii, pos_width, prefix);
        push_center(o, &empty, ow, PTR_FILL);
    }
    o.push(PTR_END);
    let mut a2: Vec<char> = Vec::new();
    push_fill(&mut a2, PTR_FILL, ovf - 1);
    a2.push(PTR_END);
    *ascii = a2;
    proof {
        let st = DumpState { i: i as int, line_start: ls as int, ascii: old(ascii)@ };
        let (so, next) = split_ptr_step(*a, *dl, prefix@, pos_width as int, st, t);
        assert(empty@ =~= Seq::<char>::empty());
        assert(o@ =~= so);
        assert(next.ascii =~= ascii@);
    }
    (i + ps, nls)
}

#[verifier::rlimit(100)]
fn write_ptr_cell(
    a: &Allocation,
    dl: &DataLayout,
    i: usize,
    ls: usize,
    t: AllocId,
    o: &mut Vec<char>,
    ascii: &mut Vec<char>,
) -> (r: usize)
    requires
        a.wf(*dl),
        i + dl.pointer_size <= a.bytes@.len(),
        old(o)@ == cell_sep(DumpState { i: i as int, line_start: ls as int, ascii: old(ascii)@ }),
    ensures
        ({
            let (so, next) = ptr_cell(
                *a,
                *dl,
                DumpState { i: i as int, line_start: ls as int, ascii: old(ascii)@ },
                t,
            );
            final(o)@ == so && next.i == r && next.line_start == ls && next.ascii == final(ascii)@
        }),
{
    let ps = dl.pointer_size;
    let off = read_target_uint(&a.bytes, i, ps, dl.big_endian);
    let tok = ptr_text_of(t, off);
    let rw = (ps - 1) * 3;
    let ft = fit_ptr_text(tok, rw, ps);
    o.push(PTR_START);
    push_center(o, &ft, rw, PTR_FILL);
    o.push(PTR_END);
    ascii.push(PTR_START);
    push_fill(ascii, PTR_FILL, ps - 2);
    ascii.push(PTR_END);
    proof {
        let st = DumpState { i: i as int, line_start: ls as int, ascii: old(ascii)@ };
        let (so, next) = ptr_cell(*a, *dl, st, t);
        assert(o@ =~= so);
        assert(next.ascii =~= ascii@);
    }
    i + ps
}

#[verifier::rlimit(100)]
fn write_byte_cell(a: &Allocation, dl: &DataLayout, i: usize, ls: usize, o: &mut Vec<char>, ascii: &mut Vec<char>)
    requires
        a.wf(*dl),
        i < a.bytes@.len(),
        old(o)@ == cell_sep(DumpState { i: i as int, line_start: ls as int, ascii: old(ascii)@ }),
    ensures
        ({
            let (so, next) = byte_cell(
                *a,
                DumpState { i: i as int, line_start: ls as int, ascii: old(ascii)@ },
            );
            final(o)@ == so && next.ascii == final(ascii)@
        }),
{
    if a.defined[i] {
        let b = a.bytes[i];
        push_hex(o, b as u64, 2);
        let c: char = if b < 0x20 || b == 0x7f || b >= 0x80 {
            '.'
        } else {
            b as char
        };
        ascii.push(c);
    } else {
        o.push('_');
        o.push('_');
        ascii.push(UNDEF_MARK);
    }
    proof {
        let st = DumpState { i: i as int, line_start: ls as int, ascii: old(ascii)@ };
        let (so, next) = byte_cell(*a, st);
        assert(o@ =~= so);
        assert(next.ascii =~= ascii@);
    }
}

/// Writes the cell at `i` and, where it fills its line, the next line's start;
/// returns the next byte and the start of its line.
#[verifier::rlimit(100)]
fn write_cell(
    a: &Allocation,
    dl: &DataLayout,
    prefix: &Vec<char>,
    pos_width: usize,
    i: usize,
    ls: usize,
    o: &mut Vec<char>,
    ascii: &mut Vec<char>,
) -> (r: (usize, usize))
    requires
        a.wf(*dl),
        ls <= i < a.bytes@.len(),
        i - ls < BYTES_PER_LINE,
        old(o)@ == Seq::<char>::empty(),
    ensures
        ({
            let (so, next) = dump_step(
                *a,
                *dl,
                prefix@,
                pos_width as int,
                DumpState { i: i as int, line_start: ls as int, ascii: old(ascii)@ },
            );
            final(o)@ == so && next.i == r.0 && next.line_start == r.1 && next.ascii
                == final(ascii)@
        }),
        i < r.0 <= a.bytes@.len(),
        r.1 <= r.0,
        r.0 < a.bytes@.len() ==> r.0 - r.1 < BYTES_PER_LINE,
{
    let ghost st = DumpState { i: i as int, line_start: ls as int, ascii: ascii@ };
    if i != ls {
        o.push(' ');
    }
    proof {
        assert(o@ =~= cell_sep(st));
    }
    let size = a.bytes.len();
    let ni: usize;
    match find_reloc(a, dl, i) {
        Some(t) => {
            proof {
                let k = choose|m: int|
                    0 <= m < a.relocations@.len() && #[trigger] a.relocations@[m].offset == i;
                assert(a.relocations@[k].offset + dl.pointer_size <= a.bytes@.len());
            }
            if (i - ls) + dl.pointer_size > BYTES_PER_LINE {
                return write_split_ptr(a, dl, prefix, pos_width, i, ls, t, o, ascii);
            }
            ni = write_ptr_cell(a, dl, i, ls, t, o, ascii);
        },
        None => {
            write_byte_cell(a, dl, i, ls, o, ascii);
            ni = i + 1;
        },
    }
    if ni == ls + BYTES_PER_LINE && ni != size {
        let nls = write_allocation_newline(o, ls, ascii, pos_width, prefix);
        *ascii = Vec::new();
        proof {
            assert(ascii@ =~= Seq::<char>::empty());
        }
        (ni, nls)
    } else {
        (ni, ls)
    }
}

/// Writes the byte block of a non-empty allocation, each line led by `prefix`.
#[verifier::rlimit(100)]
pub fn write_allocation_bytes(a: &Allocation, dl: &DataLayout, out: &mut Vec<char>, prefix: &str)
    requires
        a.wf(*dl),
    ensures
        final(out)@ == old(out)@ + bytes_text(*a, *dl, prefix@),
{
    let pre = chars_of(prefix);
    let size = a.bytes.len();
    let pw = hex_width(size as u64);
    let ps = dl.pointer_size;
    if size > BYTES_PER_LINE {
        write_line_header(out, &pre, 0, pw);
    } else {
        push_seq(out, &pre);
    }
    let ghost base = out@;
    let ghost start = DumpState { i: 0, line_start: 0, ascii: seq![] };
    let mut i: usize = 0;
    let mut ls: usize = 0;
    let mut ascii: Vec<char> = Vec::new();
    while i < size
        invariant
            a.wf(*dl),
            size == a.bytes@.len(),
            ps == dl.pointer_size,
            pw == hex(size as nat).len(),
            pre@ == prefix@,
            ls <= i <= size,
            i < size ==> i - ls < BYTES_PER_LINE,
            out@ + dump_from(
                *a,
                *dl,
                prefix@,
                pw as int,
                DumpState { i: i as int, line_start: ls as int, ascii: ascii@ },
            ) == base + dump_from(*a, *dl, prefix@, pw as int, start),
        decreases size - i,
    {
        let ghost st = DumpState { i: i as int, line_start: ls as int, ascii: ascii@ };
        let mut o: Vec<char> = Vec::new();
        let (ni, nls) = write_cell(a, dl, &pre, pw, i, ls, &mut o, &mut ascii);
        i = ni;
        ls = nls;
        proof {
            assert(dump_from(*a, *dl, prefix@, pw as int, st) == o@ + dump_from(
                *a,
                *dl,
                prefix@,
                pw as int,
                DumpState { i: i as int, line_start: ls as int, ascii: ascii@ },
            ));
        }
        push_seq(out, &o);
        proof {
            assert(out@ + dump_from(
                *a,
                *dl,
                prefix@,
                pw as int,
                DumpState { i: i as int, line_start: ls as int, ascii: ascii@ },
            ) =~= base + dump_from(*a, *dl, prefix@, pw as int, start));
        }
    }
    write_allocation_endline(out, &ascii);
    proof {
        assert(out@ =~= old(out)@ + bytes_text(*a, *dl, prefix@));
    }
}


/// Writes what follows an allocation's `(`: its size and alignment, then its
/// bytes in braces (`{}` when it has none).
#[verifier::rlimit(100)]
pub fn write_allocation(a: &Allocation, dl: &DataLayout, out: &mut Vec<char>)
    requires
        a.wf(*dl),
    ensures
        final(out)@ == old(out)@ + allocation_text(*a, *dl),
{
    let size = a.bytes.len();
    let head: Vec<char> = vec!['s', 'i', 'z', 'e', ':', ' '];
    push_seq(out, &head);
    push_dec(out, size as u64);
    let mid: Vec<char> = vec![',', ' ', 'a', 'l', 'i', 'g', 'n', ':', ' '];
    push_seq(out, &mid);
    push_dec(out, a.align);
    out.push(')');
    let ghost after_head = out@;
    if size == 0 {
        out.push(' ');
        out.push('{');
        out.push('}');
    } else {
        out.push(' ');
        out.push('{');
        out.push('\n');
        write_allocation_bytes(a, dl, out, "    ");
        out.push('}');
    }
    proof {
        reveal_strlit("    ");
        assert("    "@ =~= seq![' ', ' ', ' ', ' ']);
        assert(out@ =~= old(out)@ + allocation_text(*a, *dl));
    }
}

} // verus!
