//! Where a dump is written: a file name built from the item, the pass and the
//! invocation, under the configured directory.
use vstd::prelude::*;
use crate::text::{chars_of, dec, digit_char, push_dec, push_seq, push_str, string_of};

verus! {

/// The identity of what is dumped: the item's file-name-safe path, the type
/// that tells apart shims sharing one identity, and the index of a promoted
/// constant extracted from the item.
#[derive(Clone, Debug)]
pub struct DumpSource {
    pub item_name: String,
    pub shim_ty: Option<String>,
    pub promoted: Option<usize>,
}

/// Where dumps go, and whether their names leave out the pass number.
#[derive(Clone, Debug)]
pub struct DumpOptions {
    pub dir: String,
    pub exclude_pass_number: bool,
}

/// A type's display form made fit for a file name: spaces dropped, and `:`,
/// `<` and `>` turned into `_`.
pub open spec fn sanitize(t: Seq<char>) -> Seq<char>
    decreases t.len(),
{
    if t.len() == 0 {
        seq![]
    } else {
        let c = t.last();
        sanitize(t.drop_last()) + if c == ' ' {
            seq![]
        } else if c == ':' || c == '<' || c == '>' {
            seq!['_']
        } else {
            seq![c]
        }
    }
}

pub open spec fn shim_segment(shim_ty: Option<Seq<char>>) -> Seq<char> {
    match shim_ty {
        None => seq![],
        Some(t) => seq!['.'] + sanitize(t),
    }
}

/// The display form of a promoted constant's index.
pub open spec fn promoted_text(n: nat) -> Seq<char> {
    "promoted["@ + dec(n) + "]"@
}

pub open spec fn promotion_segment(promoted: Option<usize>) -> Seq<char> {
    match promoted {
        None => seq![],
        Some(n) => seq!['-'] + promoted_text(n as nat),
    }
}

/// The pass-number segment: none where excluded, a placeholder where the pass
/// has no number.
pub open spec fn pass_segment(exclude: bool, pass_num: Option<Seq<char>>) -> Seq<char> {
    if exclude {
        seq![]
    } else {
        match pass_num {
            None => ".-------"@,
            Some(n) => seq!['.'] + n,
        }
    }
}

/// `rustc.<item><shim><promotion><pass number>.<pass name>.<disambiguator>.<extension>`.
pub open spec fn dump_file_name_text(
    item: Seq<char>,
    shim_ty: Option<Seq<char>>,
    promoted: Option<usize>,
    exclude: bool,
    pass_num: Option<Seq<char>>,
    pass_name: Seq<char>,
    disambiguator: Seq<char>,
    extension: Seq<char>,
) -> Seq<char> {
    "rustc."@ + item + shim_segment(shim_ty) + promotion_segment(promoted) + pass_segment(
        exclude,
        pass_num,
    ) + seq!['.'] + pass_name + seq!['.'] + disambiguator + seq!['.'] + extension
}

/// `name` under directory `dir`.
pub open spec fn join_path(dir: Seq<char>, name: Seq<char>) -> Seq<char> {
    if dir.len() == 0 || dir.last() == '/' {
        dir + name
    } else {
        dir + seq!['/'] + name
    }
}

pub open spec fn opt_view(o: Option<&str>) -> Option<Seq<char>> {
    match o {
        None => None,
        Some(s) => Some(s@),
    }
}

pub open spec fn opt_string_view(o: Option<String>) -> Option<Seq<char>> {
    match o {
        None => None,
        Some(s) => Some(s@),
    }
}

fn push_sanitized(out: &mut Vec<char>, t: &str)
    ensures
        final(out)@ == old(out)@ + sanitize(t@),
{
    let tc = chars_of(t);
    let mut i: usize = 0;
    while i < tc.len()
        invariant
            tc@ == t@,
            i <= tc@.len(),
            out@ == old(out)@ + sanitize(tc@.subrange(0, i as int)),
        decreases tc.len() - i,
    {
        let c = tc[i];
        proof {
            let s = tc@.subrange(0, i + 1);
            assert(s.drop_last() == tc@.subrange(0, i as int));
            assert(s.last() == c);
        }
        if c == ' ' {
        } else if c == ':' || c == '<' || c == '>' {
            out.push('_');
        } else {
            out.push(c);
        }
        proof {
            let s = tc@.subrange(0, i + 1);
            assert(out@ =~= old(out)@ + sanitize(s));
        }
        i = i + 1;
    }
    proof {
        assert(tc@.subrange(0, tc@.len() as int) == tc@);
    }
}

/// The file name of a dump.
#[verifier::rlimit(100)]
pub fn dump_file_name(
    opts: &DumpOptions,
    extension: &str,
    pass_num: Option<&str>,
    pass_name: &str,
    disambiguator: &str,
    source: &DumpSource,
) -> (r: String)
    ensures
        r@ == dump_file_name_text(
            source.item_name@,
            opt_string_view(source.shim_ty),
            source.promoted,
            opts.exclude_pass_number,
            opt_view(pass_num),
            pass_name@,
            disambiguator@,
            extension@,
        ),
{
    let mut out: Vec<char> = Vec::new();
    push_str(&mut out, "rustc.");
    push_str(&mut out, source.item_name.as_str());
    let ghost s1 = out@;
    match &source.shim_ty {
        None => {},
        Some(t) => {
            out.push('.');
            push_sanitized(&mut out, t.as_str());
        },
    }
    proof {
        assert(out@ =~= s1 + shim_segment(opt_string_view(source.shim_ty)));
    }
    let ghost s2 = out@;
    match source.promoted {
        None => {},
        Some(n) => {
            out.push('-');
            push_str(&mut out, "promoted[");
            push_dec(&mut out, n as u64);
            push_str(&mut out, "]");
        },
    }
    proof {
        assert(out@ =~= s2 + promotion_segment(source.promoted));
    }
    let ghost s3 = out@;
    if !opts.exclude_pass_number {
        match pass_num {
            None => {
                push_str(&mut out, ".-------");
            },
            Some(n) => {
                out.push('.');
                push_str(&mut out, n);
            },
        }
    }
    proof {
        assert(out@ =~= s3 + pass_segment(opts.exclude_pass_number, opt_view(pass_num)));
    }
    out.push('.');
    push_str(&mut out, pass_name);
    out.push('.');
    push_str(&mut out, disambiguator);
    out.push('.');
    push_str(&mut out, extension);
    proof {
        assert(out@ =~= dump_file_name_text(
            source.item_name@,
            opt_string_view(source.shim_ty),
            source.promoted,
            opts.exclude_pass_number,
            opt_view(pass_num),
            pass_name@,
            disambiguator@,
            extension@,
        ));
    }
    string_of(&out)
}

/// The path of a dump: its file name under the configured directory.
pub fn dump_path(
    opts: &DumpOptions,
    extension: &str,
    pass_num: Option<&str>,
    pass_name: &str,
    disambiguator: &str,
    source: &DumpSource,
) -> (r: String)
    ensures
        r@ == join_path(
            opts.dir@,
            dump_file_name_text(
                source.item_name@,
                opt_string_view(source.shim_ty),
                source.promoted,
                opts.exclude_pass_number,
                opt_view(pass_num),
                pass_name@,
                disambiguator@,
                extension@,
            ),
        ),
{
    let name = dump_file_name(opts, extension, pass_num, pass_name, disambiguator, source);
    let dir = chars_of(opts.dir.as_str());
    let mut out: Vec<char> = Vec::new();
    push_seq(&mut out, &dir);
    if dir.len() > 0 && dir[dir.len() - 1] != '/' {
        out.push('/');
    }
    push_str(&mut out, name.as_str());
    proof {
        assert(out@ =~= join_path(opts.dir@, name@));
    }
    string_of(&out)
}


proof fn lemma_dec_nonempty(n: nat)
    ensures
        dec(n).len() >= 1,
        n >= 10 ==> dec(n).len() >= 2,
    decreases n,
{
    if n >= 10 {
        lemma_dec_nonempty(n / 10);
    }
}

proof fn lemma_dec_injective(a: nat, b: nat)
    requires
        dec(a) == dec(b),
    ensures
        a == b,
    decreases a,
{
    lemma_dec_nonempty(a);
    lemma_dec_nonempty(b);
    if a < 10 && b < 10 {
        assert(dec(a)[0] == digit_char(a));
        assert(dec(b)[0] == digit_char(b));
        assert(((a + 48) as u8) as char == ((b + 48) as u8) as char);
        assert((((a + 48) as u8) as char) as u32 == (a + 48) as u32);
        assert((((b + 48) as u8) as char) as u32 == (b + 48) as u32);
    } else if a >= 10 && b >= 10 {
        assert(dec(a).drop_last() =~= dec(a / 10));
        assert(dec(b).drop_last() =~= dec(b / 10));
        lemma_dec_injective(a / 10, b / 10);
        assert(dec(a).last() == digit_char(a % 10));
        assert(dec(b).last() == digit_char(b % 10));
        let x = a % 10;
        let y = b % 10;
        assert((((x + 48) as u8) as char) as u32 == (x + 48) as u32);
        assert((((y + 48) as u8) as char) as u32 == (y + 48) as u32);
    }
}

/// Cancels a common prefix and suffix: `a + x + b == a + y + b` only where `x == y`.
proof fn lemma_cancel(a: Seq<char>, x: Seq<char>, y: Seq<char>, b: Seq<char>)
    requires
        a + x + b == a + y + b,
    ensures
        x == y,
{
    let l = a + x + b;
    let r = a + y + b;
    assert(l.len() == a.len() + x.len() + b.len());
    assert(r.len() == a.len() + y.len() + b.len());
    assert(x.len() == y.len());
    assert(x =~= l.subrange(a.len() as int, (a.len() + x.len()) as int));
    assert(y =~= r.subrange(a.len() as int, (a.len() + y.len()) as int));
}

#[verifier::rlimit(100)]
proof fn lemma_promotion_segment_injective(pa: Option<usize>, pb: Option<usize>)
    requires
        promotion_segment(pa) == promotion_segment(pb),
    ensures
        pa == pb,
{
    match (pa, pb) {
        (Some(a), Some(b)) => {
            assert(promotion_segment(pa) =~= seq!['-'] + "promoted["@ + dec(a as nat) + "]"@);
            assert(promotion_segment(pb) =~= seq!['-'] + "promoted["@ + dec(b as nat) + "]"@);
            lemma_cancel(seq!['-'] + "promoted["@, dec(a as nat), dec(b as nat), "]"@);
            lemma_dec_injective(a as nat, b as nat);
        },
        (None, Some(b)) => {
            assert(promotion_segment(pb).len() > 0);
        },
        (Some(a), None) => {
            assert(promotion_segment(pa).len() > 0);
        },
        (None, None) => {},
    }
}

proof fn lemma_name_shape(
    item: Seq<char>,
    shim_ty: Option<Seq<char>>,
    p: Option<usize>,
    exclude: bool,
    pass_num: Option<Seq<char>>,
    pass_name: Seq<char>,
    disambiguator: Seq<char>,
    extension: Seq<char>,
)
    ensures
        dump_file_name_text(item, shim_ty, p, exclude, pass_num, pass_name, disambiguator, extension)
            == ("rustc."@ + item + shim_segment(shim_ty)) + promotion_segment(p) + (pass_segment(
            exclude,
            pass_num,
        ) + seq!['.'] + pass_name + seq!['.'] + disambiguator + seq!['.'] + extension),
{
    assert(dump_file_name_text(item, shim_ty, p, exclude, pass_num, pass_name, disambiguator, extension)
        =~= ("rustc."@ + item + shim_segment(shim_ty)) + promotion_segment(p) + (pass_segment(
        exclude,
        pass_num,
    ) + seq!['.'] + pass_name + seq!['.'] + disambiguator + seq!['.'] + extension));
}

proof fn lemma_join_shape(dir: Seq<char>, h: Seq<char>, m: Seq<char>, t: Seq<char>)
    ensures
        join_path(dir, h + m + t) == (if dir.len() == 0 || dir.last() == '/' {
            dir
        } else {
            dir + seq!['/']
        }) + h + m + t,
{
    if dir.len() == 0 || dir.last() == '/' {
        assert(dir + (h + m + t) =~= dir + h + m + t);
    } else {
        assert(dir + seq!['/'] + (h + m + t) =~= dir + seq!['/'] + h + m + t);
    }
}

/// Two dumps that differ only in the promoted constant they show go to
/// different paths.
#[verifier::rlimit(100)]
pub proof fn lemma_promotion_distinguishes_paths(
    dir: Seq<char>,
    item: Seq<char>,
    shim_ty: Option<Seq<char>>,
    pa: Option<usize>,
    pb: Option<usize>,
    exclude: bool,
    pass_num: Option<Seq<char>>,
    pass_name: Seq<char>,
    disambiguator: Seq<char>,
    extension: Seq<char>,
)
    requires
        pa != pb,
    ensures
        join_path(
            dir,
            dump_file_name_text(item, shim_ty, pa, exclude, pass_num, pass_name, disambiguator, extension),
        ) != join_path(
            dir,
            dump_file_name_text(item, shim_ty, pb, exclude, pass_num, pass_name, disambiguator, extension),
        ),
{
    let head = "rustc."@ + item + shim_segment(shim_ty);
    let tail = pass_segment(exclude, pass_num) + seq!['.'] + pass_name + seq!['.'] + disambiguator
        + seq!['.'] + extension;
    let lead = if dir.len() == 0 || dir.last() == '/' {
        dir
    } else {
        dir + seq!['/']
    };
    lemma_name_shape(item, shim_ty, pa, exclude, pass_num, pass_name, disambiguator, extension);
    lemma_name_shape(item, shim_ty, pb, exclude, pass_num, pass_name, disambiguator, extension);
    lemma_join_shape(dir, head, promotion_segment(pa), tail);
    lemma_join_shape(dir, head, promotion_segment(pb), tail);
    let m1 = promotion_segment(pa);
    let m2 = promotion_segment(pb);
    if lead + head + m1 + tail == lead + head + m2 + tail {
        lemma_cancel(lead + head, m1, m2, tail);
        lemma_promotion_segment_injective(pa, pb);
    }
}

/// With the pass number excluded, a dump's file name holds no pass-number
/// segment at all: the pass name follows the item's identity directly.
pub proof fn lemma_excluded_pass_number(
    item: Seq<char>,
    shim_ty: Option<Seq<char>>,
    promoted: Option<usize>,
    pass_num: Option<Seq<char>>,
    pass_name: Seq<char>,
    disambiguator: Seq<char>,
    extension: Seq<char>,
)
    ensures
        dump_file_name_text(item, shim_ty, promoted, true, pass_num, pass_name, disambiguator, extension)
            == "rustc."@ + item + shim_segment(shim_ty) + promotion_segment(promoted) + seq!['.']
            + pass_name + seq!['.'] + disambiguator + seq!['.'] + extension,
{
    assert(pass_segment(true, pass_num) == Seq::<char>::empty());
    assert(dump_file_name_text(item, shim_ty, promoted, true, pass_num, pass_name, disambiguator, extension)
        =~= "rustc."@ + item + shim_segment(shim_ty) + promotion_segment(promoted) + seq!['.']
            + pass_name + seq!['.'] + disambiguator + seq!['.'] + extension);
}

} // verus!
