//! The textual form of a body: signature, scope tree, basic blocks, and the
//! appendix of the allocations it refers to.
use vstd::prelude::*;
use crate::allocation::{AllocId, DataLayout};
use crate::collect::{
    const_ids, dir_wf, is_alloc_closure, section_text, write_section_traced, AllocMap, ConstValue,
};
use crate::gate::{split, split_at_each};
use crate::mir::{
    Annotation, BasicBlockData, Body, ItemKind, MirSource, NoExtra, PassHook, PassWhere, Statement,
};
use crate::gate::{dump_enabled, dump_wanted};
use crate::naming::{
    dump_file_name_text, dump_path, join_path, opt_string_view, opt_view, promoted_text, DumpOptions,
    DumpSource,
};
use crate::scope_tree::{comment_text, push_comment, scope_tree_text, write_scope_tree, ALIGN};
use crate::text::{
    chars_of, dec, fill, pad_right, push_dec, push_fill, push_padded, push_seq, push_str, string_of,
};

verus! {

/// One comment line after a statement: blank up to the comment column.
pub open spec fn comment_line(l: Seq<char>) -> Seq<char> {
    fill(' ', ALIGN as int) + " // "@ + l + "\n"@
}

/// The comment lines for the pieces of `ls`.
pub open spec fn comment_lines(ls: Seq<Seq<char>>) -> Seq<char>
    decreases ls.len(),
{
    if ls.len() == 0 {
        seq![]
    } else {
        comment_lines(ls.drop_last()) + comment_line(ls.last())
    }
}

/// A piece of detail, one comment line for each of its lines.
pub open spec fn comment_block(t: Seq<char>) -> Seq<char> {
    comment_lines(split(t, '\n'))
}

/// The comment lines for one piece of detail found inside a statement.
pub open spec fn annotation_text(a: Annotation) -> Seq<char> {
    match a {
        Annotation::Constant { span, user_ty, literal } => comment_block("mir::Constant"@)
            + comment_block("+ span: "@ + span@) + match user_ty {
            Some(u) => comment_block("+ user_ty: "@ + u@),
            None => seq![],
        } + comment_block("+ literal: "@ + literal@),
        Annotation::TyConst { ty, val } => comment_block("ty::Const"@) + comment_block(
            "+ ty: "@ + ty@,
        ) + comment_block("+ val: "@ + val@),
        Annotation::Closure { def_id, substs } => comment_block("closure"@) + comment_block(
            "+ def_id: "@ + def_id@,
        ) + comment_block("+ substs: "@ + substs@),
        Annotation::Generator { def_id, substs, movability } => comment_block("generator"@)
            + comment_block("+ def_id: "@ + def_id@) + comment_block("+ substs: "@ + substs@)
            + comment_block("+ movability: "@ + movability@),
        Annotation::Adt { user_ty } => comment_block("adt"@) + comment_block("+ user_ty: "@ + user_ty@),
    }
}

pub open spec fn annotations_text(anns: Seq<Annotation>) -> Seq<char>
    decreases anns.len(),
{
    if anns.len() == 0 {
        seq![]
    } else {
        annotations_text(anns.drop_last()) + annotation_text(anns.last())
    }
}

/// A statement's line: its text, then at the comment column its location and
/// scope, then the detail found inside it.
#[verifier::opaque]
pub open spec fn statement_text(st: Statement, b: nat, i: nat) -> Seq<char> {
    pad_right("        "@ + st.text@ + ";"@, ALIGN as int) + " // bb"@ + dec(b) + "["@ + dec(i)
        + "]: "@ + comment_text(st.source_info) + "\n"@ + annotations_text(st.annotations@)
}

/// The first `k` statements of block `b`, each between the hook's text before
/// and after its location.
pub open spec fn statements_text<H: PassHook>(hook: H, bb: BasicBlockData, b: nat, k: nat) -> Seq<
    char,
>
    decreases k,
{
    if k == 0 {
        seq![]
    } else {
        let i = (k - 1) as nat;
        statements_text(hook, bb, b, i) + hook.text_at(PassWhere::BeforeLocation(b as usize, i as usize))
            + statement_text(bb.statements@[i as int], b, i) + hook.text_at(
            PassWhere::AfterLocation(b as usize, i as usize),
        )
    }
}

/// Block `b`: its label, its statements, its terminator, in braces.
pub open spec fn block_text<H: PassHook>(hook: H, bb: BasicBlockData, b: nat) -> Seq<char> {
    let n = bb.statements@.len();
    "    bb"@ + dec(b) + (if bb.is_cleanup {
        " (cleanup)"@
    } else {
        seq![]
    }) + ": {\n"@ + statements_text(hook, bb, b, n) + hook.text_at(
        PassWhere::BeforeLocation(b as usize, n as usize),
    ) + statement_text(bb.terminator, b, n) + hook.text_at(
        PassWhere::AfterLocation(b as usize, n as usize),
    ) + hook.text_at(PassWhere::AfterTerminator(b as usize)) + "    }\n"@
}

/// The first `k` blocks, separated by empty lines.
pub open spec fn blocks_text<H: PassHook>(hook: H, body: Body, k: nat) -> Seq<char>
    decreases k,
{
    if k == 0 {
        seq![]
    } else {
        let b = (k - 1) as nat;
        blocks_text(hook, body, b) + hook.text_at(PassWhere::BeforeBlock(b as usize)) + block_text(
            hook,
            body.basic_blocks@[b as int],
            b,
        ) + if k != body.basic_blocks@.len() {
            "\n"@
        } else {
            seq![]
        }
    }
}

pub open spec fn is_function(src: MirSource) -> bool {
    src.kind == ItemKind::Fn
}

/// The keyword before the item's path.
pub open spec fn kind_text(src: MirSource) -> Seq<char> {
    match src.promoted {
        Some(i) => promoted_text(i as nat) + " in "@,
        None => match src.kind {
            ItemKind::Const => "const "@,
            ItemKind::Static { mutable } => "static "@ + if mutable {
                "mut "@
            } else {
                seq![]
            },
            ItemKind::Fn => "fn "@,
            ItemKind::AnonConst => seq![],
        },
    }
}

/// The first `k` arguments, `name: type`, separated by commas.
pub open spec fn args_text(body: Body, k: nat) -> Seq<char>
    decreases k,
{
    if k == 0 {
        seq![]
    } else {
        args_text(body, (k - 1) as nat) + (if k != 1 {
            ", "@
        } else {
            seq![]
        }) + "_"@ + dec(k) + ": "@ + body.local_decls@[k as int].ty@
    }
}

/// The signature: kind and path, then the arguments and return type of a
/// function, or the type of anything else; then what a generator yields.
pub open spec fn sig_text(src: MirSource, body: Body) -> Seq<char> {
    let ret = body.local_decls@[0].ty@;
    kind_text(src) + src.def_path@ + (if src.promoted is None && is_function(src) {
        "("@ + args_text(body, body.arg_count as nat) + ") -> "@ + ret
    } else {
        ": "@ + ret + " ="@
    }) + (match body.yield_ty {
        Some(y) => "\n"@ + "yields "@ + y@ + "\n"@,
        None => seq![],
    }) + " "@
}

/// The signature, the opening brace, the scope tree, and an empty line.
pub open spec fn intro_text(src: MirSource, body: Body) -> Seq<char> {
    sig_text(src, body) + "{\n"@ + scope_tree_text(body, 0, 1) + "\n"@
}

/// The whole rendering, up to the allocation appendix.
#[verifier::opaque]
pub open spec fn cfg_text<H: PassHook>(hook: H, src: MirSource, body: Body) -> Seq<char> {
    intro_text(src, body) + blocks_text(hook, body, body.basic_blocks@.len()) + "}\n"@
}

/// The statement at `i` of a block, the terminator at the statement count.
pub open spec fn stmt_at(bb: BasicBlockData, i: int) -> Statement {
    if i < bb.statements@.len() {
        bb.statements@[i]
    } else {
        bb.terminator
    }
}

/// A body that the renderer accepts: well formed, and with no arguments
/// unless it is a function's own body.
pub open spec fn renderable(src: MirSource, body: Body) -> bool {
    &&& body.wf()
    &&& !(src.promoted is None && is_function(src)) ==> body.arg_count == 0
    &&& 4 * (1 + body.scope_parents@.len()) <= usize::MAX
}


/// Writes one comment line for each line of `t`.
#[verifier::rlimit(100)]
fn write_comment_block(out: &mut Vec<char>, t: &Vec<char>)
    ensures
        final(out)@ == old(out)@ + comment_block(t@),
{
    let parts = split_at_each(t, '\n');
    let ghost ls = split(t@, '\n');
    let mut k: usize = 0;
    while k < parts.len()
        invariant
            parts@.len() == ls.len(),
            forall|m: int| 0 <= m < parts@.len() ==> (#[trigger] parts@[m])@ == ls[m],
            k <= parts@.len(),
            out@ == old(out)@ + comment_lines(ls.subrange(0, k as int)),
        decreases parts.len() - k,
    {
        push_fill(out, ' ', ALIGN);
        push_str(out, " // ");
        push_seq(out, &parts[k]);
        push_str(out, "\n");
        proof {
            let s = ls.subrange(0, k + 1);
            assert(s.drop_last() =~= ls.subrange(0, k as int));
            assert(s.last() == parts@[k as int]@);
            assert(out@ =~= old(out)@ + comment_lines(s));
        }
        k = k + 1;
    }
    proof {
        assert(ls.subrange(0, ls.len() as int) =~= ls);
    }
}

/// Writes `label` followed by `value` as comment lines.
fn write_labelled(out: &mut Vec<char>, label: &str, value: &str)
    ensures
        final(out)@ == old(out)@ + comment_block(label@ + value@),
{
    let mut t: Vec<char> = Vec::new();
    push_str(&mut t, label);
    push_str(&mut t, value);
    proof {
        assert(t@ =~= label@ + value@);
    }
    write_comment_block(out, &t);
}

fn write_plain(out: &mut Vec<char>, label: &str)
    ensures
        final(out)@ == old(out)@ + comment_block(label@),
{
    let t = chars_of(label);
    write_comment_block(out, &t);
}

#[verifier::rlimit(100)]
fn write_annotation(out: &mut Vec<char>, a: &Annotation)
    ensures
        final(out)@ == old(out)@ + annotation_text(*a),
{
    let ghost o0 = out@;
    match a {
        Annotation::Constant { span, user_ty, literal } => {
            write_plain(out, "mir::Constant");
            write_labelled(out, "+ span: ", span.as_str());
            let ghost o1 = out@;
            match user_ty {
                Some(u) => write_labelled(out, "+ user_ty: ", u.as_str()),
                None => {},
            }
            proof {
                assert(out@ =~= o1 + match user_ty {
                    Some(u) => comment_block("+ user_ty: "@ + u@),
                    None => seq![],
                });
            }
            write_labelled(out, "+ literal: ", literal.as_str());
        },
        Annotation::TyConst { ty, val } => {
            write_plain(out, "ty::Const");
            write_labelled(out, "+ ty: ", ty.as_str());
            write_labelled(out, "+ val: ", val.as_str());
        },
        Annotation::Closure { def_id, substs } => {
            write_plain(out, "closure");
            write_labelled(out, "+ def_id: ", def_id.as_str());
            write_labelled(out, "+ substs: ", substs.as_str());
        },
        Annotation::Generator { def_id, substs, movability } => {
            write_plain(out, "generator");
            write_labelled(out, "+ def_id: ", def_id.as_str());
            write_labelled(out, "+ substs: ", substs.as_str());
            write_labelled(out, "+ movability: ", movability.as_str());
        },
        Annotation::Adt { user_ty } => {
            write_plain(out, "adt");
            write_labelled(out, "+ user_ty: ", user_ty.as_str());
        },
    }
    proof {
        assert(out@ =~= o0 + annotation_text(*a));
    }
}

/// Writes a statement's line and the detail found inside it.
#[verifier::rlimit(100)]
fn write_statement(out: &mut Vec<char>, st: &Statement, b: usize, i: usize)
    ensures
        final(out)@ == old(out)@ + statement_text(*st, b as nat, i as nat),
{
    let mut line: Vec<char> = Vec::new();
    push_str(&mut line, "        ");
    push_str(&mut line, st.text.as_str());
    push_str(&mut line, ";");
    push_padded(out, &line, ALIGN);
    push_str(out, " // bb");
    push_dec(out, b as u64);
    push_str(out, "[");
    push_dec(out, i as u64);
    push_str(out, "]: ");
    push_comment(out, &st.source_info);
    push_str(out, "\n");
    let ghost before = out@;
    let mut k: usize = 0;
    while k < st.annotations.len()
        invariant
            k <= st.annotations@.len(),
            out@ == before + annotations_text(st.annotations@.subrange(0, k as int)),
        decreases st.annotations.len() - k,
    {
        write_annotation(out, &st.annotations[k]);
        proof {
            let s = st.annotations@.subrange(0, k + 1);
            assert(s.drop_last() =~= st.annotations@.subrange(0, k as int));
            assert(out@ =~= before + annotations_text(s));
        }
        k = k + 1;
    }
    proof {
        reveal(statement_text);
        assert(st.annotations@.subrange(0, k as int) =~= st.annotations@);
        assert(line@ =~= "        "@ + st.text@ + ";"@);
        assert(out@ =~= old(out)@ + statement_text(*st, b as nat, i as nat));
    }
}

/// Writes block `b`: its label, each statement and then the terminator, each
/// between the hook's text before and after its location, and the hook's text
/// after the terminator.
#[verifier::rlimit(100)]
pub fn write_basic_block<H: PassHook>(hook: &H, body: &Body, b: usize, out: &mut Vec<char>)
    requires
        body.wf(),
        b < body.basic_blocks@.len(),
    ensures
        final(out)@ == old(out)@ + block_text(*hook, body.basic_blocks@[b as int], b as nat),
{
    let bb = &body.basic_blocks[b];
    push_str(out, "    bb");
    push_dec(out, b as u64);
    if bb.is_cleanup {
        push_str(out, " (cleanup)");
    }
    push_str(out, ": {\n");
    let ghost head = out@;
    proof {
        assert(head =~= old(out)@ + ("    bb"@ + dec(b as nat) + (if bb.is_cleanup {
            " (cleanup)"@
        } else {
            seq![]
        }) + ": {\n"@));
    }
    let n = bb.statements.len();
    let mut i: usize = 0;
    while i < n
        invariant
            n == bb.statements@.len(),
            i <= n,
            out@ == head + statements_text(*hook, *bb, b as nat, i as nat),
        decreases n - i,
    {
        let t = hook.extra_text(PassWhere::BeforeLocation(b, i));
        push_str(out, t.as_str());
        write_statement(out, &bb.statements[i], b, i);
        let t = hook.extra_text(PassWhere::AfterLocation(b, i));
        push_str(out, t.as_str());
        proof {
            assert(out@ =~= head + statements_text(*hook, *bb, b as nat, (i + 1) as nat));
        }
        i = i + 1;
    }
    let ghost mid = out@;
    let t = hook.extra_text(PassWhere::BeforeLocation(b, n));
    push_str(out, t.as_str());
    write_statement(out, &bb.terminator, b, n);
    let t = hook.extra_text(PassWhere::AfterLocation(b, n));
    push_str(out, t.as_str());
    let t = hook.extra_text(PassWhere::AfterTerminator(b));
    push_str(out, t.as_str());
    push_str(out, "    }\n");
    proof {
        let tail = hook.text_at(PassWhere::BeforeLocation(b, n)) + statement_text(
            bb.terminator,
            b as nat,
            n as nat,
        ) + hook.text_at(PassWhere::AfterLocation(b, n)) + hook.text_at(
            PassWhere::AfterTerminator(b),
        ) + "    }\n"@;
        assert(out@ =~= mid + tail);
        assert(block_text(*hook, *bb, b as nat) =~= ("    bb"@ + dec(b as nat) + (if bb.is_cleanup {
            " (cleanup)"@
        } else {
            seq![]
        }) + ": {\n"@) + statements_text(*hook, *bb, b as nat, n as nat) + tail);
        assert(out@ =~= old(out)@ + block_text(*hook, *bb, b as nat));
    }
}


fn write_kind(src: &MirSource, out: &mut Vec<char>)
    ensures
        final(out)@ == old(out)@ + kind_text(*src),
{
    match src.promoted {
        Some(i) => {
            push_str(out, "promoted[");
            push_dec(out, i as u64);
            push_str(out, "]");
            push_str(out, " in ");
        },
        None => match src.kind {
            ItemKind::Const => push_str(out, "const "),
            ItemKind::Static { mutable } => {
                push_str(out, "static ");
                if mutable {
                    push_str(out, "mut ");
                }
            },
            ItemKind::Fn => push_str(out, "fn "),
            ItemKind::AnonConst => {},
        },
    }
    proof {
        assert(out@ =~= old(out)@ + kind_text(*src));
    }
}

fn write_args(body: &Body, out: &mut Vec<char>)
    requires
        body.wf(),
    ensures
        final(out)@ == old(out)@ + args_text(*body, body.arg_count as nat),
{
    let mut k: usize = 0;
    while k < body.arg_count
        invariant
            body.wf(),
            k <= body.arg_count,
            out@ == old(out)@ + args_text(*body, k as nat),
        decreases body.arg_count - k,
    {
        if k != 0 {
            push_str(out, ", ");
        }
        push_str(out, "_");
        push_dec(out, (k + 1) as u64);
        push_str(out, ": ");
        push_str(out, body.local_decls[k + 1].ty.as_str());
        proof {
            assert(out@ =~= old(out)@ + args_text(*body, (k + 1) as nat));
        }
        k = k + 1;
    }
}

/// Writes the signature line of the item whose body is shown.
#[verifier::rlimit(100)]
pub fn write_mir_sig(src: &MirSource, body: &Body, out: &mut Vec<char>)
    requires
        renderable(*src, *body),
    ensures
        final(out)@ == old(out)@ + sig_text(*src, *body),
{
    write_kind(src, out);
    push_str(out, src.def_path.as_str());
    let is_fn = match src.kind {
        ItemKind::Fn => true,
        _ => false,
    };
    let ghost o2 = out@;
    let ghost ret = body.local_decls@[0].ty@;
    if src.promoted.is_none() && is_fn {
        push_str(out, "(");
        write_args(body, out);
        push_str(out, ") -> ");
        push_str(out, body.local_decls[0].ty.as_str());
        proof {
            assert(out@ =~= o2 + ("("@ + args_text(*body, body.arg_count as nat) + ") -> "@ + ret));
        }
    } else {
        push_str(out, ": ");
        push_str(out, body.local_decls[0].ty.as_str());
        push_str(out, " =");
        proof {
            assert(out@ =~= o2 + (": "@ + ret + " ="@));
        }
    }
    let ghost o4 = out@;
    match &body.yield_ty {
        Some(y) => {
            push_str(out, "\n");
            push_str(out, "yields ");
            push_str(out, y.as_str());
            push_str(out, "\n");
        },
        None => {},
    }
    proof {
        assert(out@ =~= o4 + match body.yield_ty {
            Some(y) => "\n"@ + "yields "@ + y@ + "\n"@,
            None => seq![],
        });
    }
    push_str(out, " ");
    proof {
        assert(out@ =~= old(out)@ + sig_text(*src, *body));
    }
}

/// Writes the signature, the opening brace and the scope tree, then an empty line.
pub fn write_mir_intro(src: &MirSource, body: &Body, out: &mut Vec<char>)
    requires
        renderable(*src, *body),
    ensures
        final(out)@ == old(out)@ + intro_text(*src, *body),
{
    write_mir_sig(src, body, out);
    push_str(out, "{\n");
    write_scope_tree(body, 0, 1, out);
    push_str(out, "\n");
    proof {
        assert(out@ =~= old(out)@ + intro_text(*src, *body));
    }
}

/// Writes the ids that `c` refers to.
fn push_const_ids(r: &mut Vec<AllocId>, c: &ConstValue)
    ensures
        final(r)@ == old(r)@ + const_ids(*c),
{
    match c {
        ConstValue::ScalarPtr(id) => {
            r.push(*id);
            proof {
                assert(r@ =~= old(r)@ + const_ids(*c));
            }
        },
        ConstValue::ScalarRaw(_) => {
            proof {
                assert(r@ =~= old(r)@ + const_ids(*c));
            }
        },
        ConstValue::ByRef(a) | ConstValue::Slice(a) => {
            let mut m: usize = 0;
            while m < a.relocations.len()
                invariant
                    m <= a.relocations@.len(),
                    const_ids(*c) == crate::collect::alloc_targets(*a),
                    r@ == old(r)@ + crate::collect::alloc_targets(*a).subrange(0, m as int),
                decreases a.relocations.len() - m,
            {
                r.push(a.relocations[m].target);
                proof {
                    assert(r@ =~= old(r)@ + crate::collect::alloc_targets(*a).subrange(0, m + 1));
                }
                m = m + 1;
            }
            proof {
                assert(crate::collect::alloc_targets(*a).subrange(0, m as int) =~= crate::collect::alloc_targets(*a));
            }
        },
    }
}

/// The ids that the first `k` constants of `cs` refer to.
pub open spec fn consts_ids(cs: Seq<ConstValue>, k: nat) -> Seq<AllocId>
    decreases k,
{
    if k == 0 {
        seq![]
    } else {
        consts_ids(cs, (k - 1) as nat) + const_ids(cs[k - 1])
    }
}

/// The ids that the first `k` statements of a block refer to, the terminator
/// counting as the statement after the last.
pub open spec fn block_ids(bb: BasicBlockData, k: nat) -> Seq<AllocId>
    decreases k,
{
    if k == 0 {
        seq![]
    } else {
        let st = stmt_at(bb, k - 1);
        block_ids(bb, (k - 1) as nat) + consts_ids(st.consts@, st.consts@.len())
    }
}

/// The ids that the constants of the first `k` blocks refer to, in order.
pub open spec fn body_ids(body: Body, k: nat) -> Seq<AllocId>
    decreases k,
{
    if k == 0 {
        seq![]
    } else {
        let bb = body.basic_blocks@[k - 1];
        body_ids(body, (k - 1) as nat) + block_ids(bb, bb.statements@.len() + 1)
    }
}

/// Every allocation that a constant anywhere in the body refers to, in the
/// order the constants come.
#[verifier::rlimit(100)]
pub fn body_alloc_ids(body: &Body) -> (r: Vec<AllocId>)
    requires
        body.wf(),
    ensures
        r@ == body_ids(*body, body.basic_blocks@.len()),
{
    let mut r: Vec<AllocId> = Vec::new();
    let mut b: usize = 0;
    while b < body.basic_blocks.len()
        invariant
            body.wf(),
            b <= body.basic_blocks@.len(),
            r@ == body_ids(*body, b as nat),
        decreases body.basic_blocks.len() - b,
    {
        let blk = &body.basic_blocks[b];
        let n = blk.statements.len();
        let ghost r_blk = r@;
        let mut i: usize = 0;
        while i <= n
            invariant
                body.wf(),
                b < body.basic_blocks@.len(),
                *blk == body.basic_blocks@[b as int],
                n == blk.statements@.len(),
                i <= n + 1,
                r@ == r_blk + block_ids(*blk, i as nat),
            decreases n + 1 - i,
        {
            let st = if i < n {
                &blk.statements[i]
            } else {
                &blk.terminator
            };
            assert(*st == stmt_at(*blk, i as int));
            let ghost r_st = r@;
            let mut j: usize = 0;
            while j < st.consts.len()
                invariant
                    j <= st.consts@.len(),
                    r@ == r_st + consts_ids(st.consts@, j as nat),
                decreases st.consts.len() - j,
            {
                push_const_ids(&mut r, &st.consts[j]);
                proof {
                    assert(r@ =~= r_st + consts_ids(st.consts@, (j + 1) as nat));
                }
                j = j + 1;
            }
            proof {
                assert(r@ =~= r_blk + block_ids(*blk, (i + 1) as nat));
            }
            i = i + 1;
        }
        proof {
            assert(r@ =~= body_ids(*body, (b + 1) as nat));
        }
        b = b + 1;
    }
    r
}


/// Writes the appendix of the allocations the body refers to, directly or
/// through other allocations.
pub fn write_allocations(body: &Body, dir: &AllocMap, dl: &DataLayout, out: &mut Vec<char>)
    requires
        body.wf(),
        dir_wf(*dir, *dl),
    ensures
        exists|r: Seq<AllocId>|
            is_alloc_closure(r, body_ids(*body, body.basic_blocks@.len()), *dir) && final(out)@
                == old(out)@ + section_text(r, *dir, *dl),
{
    let roots = body_alloc_ids(body);
    let r = write_section_traced(&roots, dir, dl, out);
    assert(is_alloc_closure(r@, body_ids(*body, body.basic_blocks@.len()), *dir));
}

/// Writes the rendering of a body and gives back the ids its appendix lists.
#[verifier::rlimit(100)]
fn write_fn_traced<H: PassHook>(
    hook: &H,
    src: &MirSource,
    body: &Body,
    dir: &AllocMap,
    dl: &DataLayout,
    out: &mut Vec<char>,
) -> (r: Ghost<Seq<AllocId>>)
    requires
        renderable(*src, *body),
        dir_wf(*dir, *dl),
    ensures
        is_alloc_closure(r@, body_ids(*body, body.basic_blocks@.len()), *dir),
        final(out)@ == old(out)@ + cfg_text(*hook, *src, *body) + section_text(r@, *dir, *dl),
{
    write_mir_intro(src, body, out);
    let ghost o1 = out@;
    let n = body.basic_blocks.len();
    let mut b: usize = 0;
    while b < n
        invariant
            renderable(*src, *body),
            n == body.basic_blocks@.len(),
            b <= n,
            out@ == o1 + blocks_text(*hook, *body, b as nat),
        decreases n - b,
    {
        let t = hook.extra_text(PassWhere::BeforeBlock(b));
        push_str(out, t.as_str());
        write_basic_block(hook, body, b, out);
        if b + 1 != n {
            push_str(out, "\n");
        }
        proof {
            assert(out@ =~= o1 + blocks_text(*hook, *body, (b + 1) as nat));
        }
        b = b + 1;
    }
    push_str(out, "}\n");
    let ghost o2 = out@;
    proof {
        reveal(cfg_text);
        assert(o2 =~= old(out)@ + cfg_text(*hook, *src, *body));
    }
    let roots = body_alloc_ids(body);
    write_section_traced(&roots, dir, dl, out)
}

/// Writes the whole rendering of a body: signature, scope tree, blocks with the
/// hook's text at each point, closing brace, and the allocation appendix.
pub fn write_mir_fn<H: PassHook>(
    hook: &H,
    src: &MirSource,
    body: &Body,
    dir: &AllocMap,
    dl: &DataLayout,
    out: &mut Vec<char>,
)
    requires
        renderable(*src, *body),
        dir_wf(*dir, *dl),
    ensures
        exists|r: Seq<AllocId>|
            is_alloc_closure(r, body_ids(*body, body.basic_blocks@.len()), *dir) && final(out)@
                == old(out)@ + cfg_text(*hook, *src, *body) + section_text(r, *dir, *dl),
{
    let r = write_fn_traced(hook, src, body, dir, dl, out);
    assert(is_alloc_closure(r@, body_ids(*body, body.basic_blocks@.len()), *dir));
}

pub open spec fn user_type_lines(body: Body, k: nat) -> Seq<char>
    decreases k,
{
    if k == 0 {
        seq![]
    } else {
        let a = body.user_type_annotations@[k - 1];
        user_type_lines(body, (k - 1) as nat) + "| "@ + dec((k - 1) as nat) + ": "@ + a.user_ty@
            + " at "@ + a.span@ + "\n"@
    }
}

/// The table of user type annotations, framed; nothing when there are none.
pub open spec fn user_types_text(body: Body) -> Seq<char> {
    if body.user_type_annotations@.len() == 0 {
        seq![]
    } else {
        "| User Type Annotations\n"@ + user_type_lines(body, body.user_type_annotations@.len())
            + "|\n"@
    }
}

pub fn write_user_type_annotations(body: &Body, out: &mut Vec<char>)
    ensures
        final(out)@ == old(out)@ + user_types_text(*body),
{
    let n = body.user_type_annotations.len();
    if n == 0 {
        return;
    }
    push_str(out, "| User Type Annotations\n");
    let ghost o1 = out@;
    let mut k: usize = 0;
    while k < n
        invariant
            n == body.user_type_annotations@.len(),
            k <= n,
            out@ == o1 + user_type_lines(*body, k as nat),
        decreases n - k,
    {
        let a = &body.user_type_annotations[k];
        push_str(out, "| ");
        push_dec(out, k as u64);
        push_str(out, ": ");
        push_str(out, a.user_ty.as_str());
        push_str(out, " at ");
        push_str(out, a.span.as_str());
        push_str(out, "\n");
        proof {
            assert(out@ =~= o1 + user_type_lines(*body, (k + 1) as nat));
        }
        k = k + 1;
    }
    push_str(out, "|\n");
    proof {
        assert(out@ =~= old(out)@ + user_types_text(*body));
    }
}

/// The first line of a dump: which item, which invocation, which pass.
pub open spec fn dump_header(src: MirSource, pass_name: Seq<char>, disambiguator: Seq<char>) -> Seq<
    char,
> {
    "// MIR for `"@ + src.def_path@ + match src.promoted {
        None => seq![],
        Some(i) => "::"@ + promoted_text(i as nat),
    } + "`"@ + " "@ + disambiguator + " "@ + pass_name + "\n"@ + "\n"@
}

/// The whole text of a dump, given the allocation ids `r` that its appendix lists.
pub open spec fn dump_text<H: PassHook>(
    hook: H,
    src: MirSource,
    body: Body,
    pass_name: Seq<char>,
    disambiguator: Seq<char>,
    dir: AllocMap,
    dl: DataLayout,
    r: Seq<AllocId>,
) -> Seq<char> {
    dump_header(src, pass_name, disambiguator) + hook.text_at(PassWhere::BeforeCFG) + user_types_text(
        body,
    ) + cfg_text(hook, src, body) + section_text(r, dir, dl) + hook.text_at(PassWhere::AfterCFG)
}

/// The text of a dump of `body` after the pass `pass_name`.
#[verifier::rlimit(100)]
pub fn dump_matched_mir_node<H: PassHook>(
    hook: &H,
    pass_name: &str,
    disambiguator: &str,
    src: &MirSource,
    body: &Body,
    dir: &AllocMap,
    dl: &DataLayout,
) -> (r: String)
    requires
        renderable(*src, *body),
        dir_wf(*dir, *dl),
    ensures
        exists|ids: Seq<AllocId>|
            is_alloc_closure(ids, body_ids(*body, body.basic_blocks@.len()), *dir) && r@ == dump_text(
                *hook,
                *src,
                *body,
                pass_name@,
                disambiguator@,
                *dir,
                *dl,
                ids,
            ),
{
    let mut out: Vec<char> = Vec::new();
    push_str(&mut out, "// MIR for `");
    push_str(&mut out, src.def_path.as_str());
    match src.promoted {
        None => {},
        Some(i) => {
            push_str(&mut out, "::");
            push_str(&mut out, "promoted[");
            push_dec(&mut out, i as u64);
            push_str(&mut out, "]");
        },
    }
    push_str(&mut out, "`");
    push_str(&mut out, " ");
    push_str(&mut out, disambiguator);
    push_str(&mut out, " ");
    push_str(&mut out, pass_name);
    push_str(&mut out, "\n");
    push_str(&mut out, "\n");
    proof {
        assert(out@ =~= dump_header(*src, pass_name@, disambiguator@));
    }
    let t = hook.extra_text(PassWhere::BeforeCFG);
    push_str(&mut out, t.as_str());
    write_user_type_annotations(body, &mut out);
    let ghost o1 = out@;
    let ids = write_fn_traced(hook, src, body, dir, dl, &mut out);
    let t = hook.extra_text(PassWhere::AfterCFG);
    push_str(&mut out, t.as_str());
    proof {
        assert(out@ =~= dump_text(*hook, *src, *body, pass_name@, disambiguator@, *dir, *dl, ids@));
    }
    string_of(&out)
}

/// A dump to be written: where, and what.
pub struct DumpFile {
    pub path: String,
    pub text: String,
}

/// Dumps `body` as the pass `pass_name` left it, where the filter asks for
/// it: the path of the file and its text, or `None` where no dump is wanted.
pub fn dump_mir<H: PassHook>(
    filter: Option<&str>,
    opts: &DumpOptions,
    pass_num: Option<&str>,
    pass_name: &str,
    disambiguator: &str,
    src: &MirSource,
    naming: &DumpSource,
    body: &Body,
    hook: &H,
    dir: &AllocMap,
    dl: &DataLayout,
) -> (r: Option<DumpFile>)
    requires
        renderable(*src, *body),
        dir_wf(*dir, *dl),
    ensures
        r is None <==> !dump_wanted(opt_view(filter), pass_name@, src.def_path@),
        r matches Some(f) ==> f.path@ == join_path(
            opts.dir@,
            dump_file_name_text(
                naming.item_name@,
                opt_string_view(naming.shim_ty),
                naming.promoted,
                opts.exclude_pass_number,
                opt_view(pass_num),
                pass_name@,
                disambiguator@,
                "mir"@,
            ),
        ) && exists|ids: Seq<AllocId>|
            is_alloc_closure(ids, body_ids(*body, body.basic_blocks@.len()), *dir) && f.text@
                == dump_text(*hook, *src, *body, pass_name@, disambiguator@, *dir, *dl, ids),
{
    if !dump_enabled(filter, pass_name, src.def_path.as_str()) {
        return None;
    }
    let path = dump_path(opts, "mir", pass_num, pass_name, disambiguator, naming);
    let text = dump_matched_mir_node(hook, pass_name, disambiguator, src, body, dir, dl);
    Some(DumpFile { path, text })
}


/// Whether the renderer accepts `body` as the body of `src`.
#[verifier::rlimit(100)]
pub fn is_renderable(src: &MirSource, body: &Body) -> (r: bool)
    ensures
        r == renderable(*src, *body),
{
    let n = body.scope_parents.len();
    if n == 0 || body.scope_parents[0].is_some() {
        return false;
    }
    let mut s: usize = 1;
    while s < n
        invariant
            n == body.scope_parents@.len(),
            1 <= s <= n,
            forall|t: int| 0 < t < s ==> (#[trigger] body.scope_parents@[t] matches Some(p) && p < t),
        decreases n - s,
    {
        match body.scope_parents[s] {
            Some(p) => {
                if p >= s {
                    return false;
                }
            },
            None => {
                return false;
            },
        }
        s = s + 1;
    }
    if body.local_decls.len() <= body.arg_count || body.basic_blocks.len() == usize::MAX {
        return false;
    }
    let mut b: usize = 0;
    while b < body.basic_blocks.len()
        invariant
            b <= body.basic_blocks@.len(),
            forall|c: int|
                0 <= c < b ==> (#[trigger] body.basic_blocks@[c]).statements@.len() < usize::MAX,
        decreases body.basic_blocks.len() - b,
    {
        if body.basic_blocks[b].statements.len() == usize::MAX {
            return false;
        }
        b = b + 1;
    }
    let is_fn = match src.kind {
        ItemKind::Fn => true,
        _ => false,
    };
    if !(src.promoted.is_none() && is_fn) && body.arg_count != 0 {
        return false;
    }
    n < usize::MAX / 4
}


/// An item with its body and the bodies of the constants promoted out of it.
#[derive(Clone, Debug)]
pub struct MirItem {
    pub src: MirSource,
    pub body: Body,
    pub promoted: Vec<Body>,
}

/// The source of the `i`-th constant promoted out of the item of `src`.
pub open spec fn promoted_src(src: MirSource, i: nat) -> MirSource {
    MirSource { def_path: src.def_path, kind: src.kind, promoted: Some(i as usize) }
}

/// An item that can be printed: its body and each promoted body renderable.
pub open spec fn item_renderable(item: MirItem) -> bool {
    &&& renderable(item.src, item.body)
    &&& forall|i: int|
        0 <= i < item.promoted@.len() ==> renderable(
            promoted_src(item.src, i as nat),
            #[trigger] item.promoted@[i],
        )
}

/// `rs` lists, for the item's body and then each promoted body, the
/// allocations its appendix shows.
pub open spec fn item_sections(item: MirItem, rs: Seq<Seq<AllocId>>, dir: AllocMap) -> bool {
    &&& rs.len() == item.promoted@.len() + 1
    &&& is_alloc_closure(rs[0], body_ids(item.body, item.body.basic_blocks@.len()), dir)
    &&& forall|i: int|
        0 <= i < item.promoted@.len() ==> is_alloc_closure(
            #[trigger] rs[i + 1],
            body_ids(item.promoted@[i], item.promoted@[i].basic_blocks@.len()),
            dir,
        )
}

/// The item's body, then its first `k` promoted bodies, each after an empty line.
#[verifier::opaque]
pub open spec fn item_text(
    item: MirItem,
    rs: Seq<Seq<AllocId>>,
    dir: AllocMap,
    dl: DataLayout,
    k: nat,
) -> Seq<char>
    decreases k,
{
    if k == 0 {
        cfg_text(NoExtra, item.src, item.body) + section_text(rs[0], dir, dl)
    } else {
        item_text(item, rs, dir, dl, (k - 1) as nat) + "\n"@ + cfg_text(
            NoExtra,
            promoted_src(item.src, (k - 1) as nat),
            item.promoted@[k - 1],
        ) + section_text(rs[k as int], dir, dl)
    }
}

/// The first `k` items, separated by empty lines.
pub open spec fn items_text(
    items: Seq<MirItem>,
    rss: Seq<Seq<Seq<AllocId>>>,
    dir: AllocMap,
    dl: DataLayout,
    k: nat,
) -> Seq<char>
    decreases k,
{
    if k == 0 {
        seq![]
    } else {
        let item = items[k - 1];
        items_text(items, rss, dir, dl, (k - 1) as nat) + (if k > 1 {
            "\n"@
        } else {
            seq![]
        }) + item_text(item, rss[k - 1], dir, dl, item.promoted@.len())
    }
}

pub open spec fn pretty_header() -> Seq<char> {
    "// WARNING: This output format is intended for human consumers only\n"@
        + "// and is subject to change without notice. Knock yourself out.\n"@
}

#[verifier::rlimit(100)]
fn write_item(item: &MirItem, dir: &AllocMap, dl: &DataLayout, out: &mut Vec<char>) -> (r: Ghost<
    Seq<Seq<AllocId>>,
>)
    requires
        item_renderable(*item),
        dir_wf(*dir, *dl),
    ensures
        item_sections(*item, r@, *dir),
        final(out)@ == old(out)@ + item_text(*item, r@, *dir, *dl, item.promoted@.len()),
{
    let ghost o0 = out@;
    let r0 = write_fn_traced(&NoExtra, &item.src, &item.body, dir, dl, out);
    let ghost mut rs: Seq<Seq<AllocId>> = seq![r0@];
    proof {
        reveal(item_text);
        assert(out@ == o0 + item_text(*item, rs, *dir, *dl, 0));
    }
    let mut i: usize = 0;
    while i < item.promoted.len()
        invariant
            item_renderable(*item),
            dir_wf(*dir, *dl),
            i <= item.promoted@.len(),
            rs.len() == i + 1,
            is_alloc_closure(rs[0], body_ids(item.body, item.body.basic_blocks@.len()), *dir),
            forall|m: int|
                0 <= m < i ==> is_alloc_closure(
                    #[trigger] rs[m + 1],
                    body_ids(item.promoted@[m], item.promoted@[m].basic_blocks@.len()),
                    *dir,
                ),
            out@ == o0 + item_text(*item, rs, *dir, *dl, i as nat),
            o0 == old(out)@,
        decreases item.promoted.len() - i,
    {
        push_str(out, "\n");
        let src = MirSource { def_path: item.src.def_path.clone(), kind: item.src.kind, promoted: Some(i) };
        assert(src == promoted_src(item.src, i as nat));
        let ghost o1 = out@;
        let body = &item.promoted[i];
        assert(renderable(promoted_src(item.src, i as nat), item.promoted@[i as int]));
        let r = write_fn_traced(&NoExtra, &src, body, dir, dl, out);
        proof {
            let rs0 = rs;
            rs = rs.push(r@);
            lemma_item_text_prefix(*item, rs0, rs, *dir, *dl, i as nat);
            reveal(item_text);
            assert(out@ =~= o0 + item_text(*item, rs, *dir, *dl, (i + 1) as nat));
            assert forall|m: int|
                0 <= m < i + 1 implies is_alloc_closure(
                #[trigger] rs[m + 1],
                body_ids(item.promoted@[m], item.promoted@[m].basic_blocks@.len()),
                *dir,
            ) by {
                if m < i {
                    assert(rs[m + 1] == rs0[m + 1]);
                }
            }
        }
        i = i + 1;
    }
    proof {
        assert(item_sections(*item, rs, *dir));
    }
    Ghost(rs)
}

proof fn lemma_item_text_prefix(
    item: MirItem,
    rs0: Seq<Seq<AllocId>>,
    rs: Seq<Seq<AllocId>>,
    dir: AllocMap,
    dl: DataLayout,
    k: nat,
)
    requires
        k < rs0.len(),
        rs0.len() <= rs.len(),
        forall|m: int| 0 <= m < rs0.len() ==> rs[m] == rs0[m],
    ensures
        item_text(item, rs, dir, dl, k) == item_text(item, rs0, dir, dl, k),
    decreases k,
{
    reveal(item_text);
    if k > 0 {
        lemma_item_text_prefix(item, rs0, rs, dir, dl, (k - 1) as nat);
    }
}

proof fn lemma_items_text_prefix(
    items: Seq<MirItem>,
    rss0: Seq<Seq<Seq<AllocId>>>,
    rss: Seq<Seq<Seq<AllocId>>>,
    dir: AllocMap,
    dl: DataLayout,
    k: nat,
)
    requires
        k <= rss0.len(),
        rss0.len() <= rss.len(),
        forall|m: int| 0 <= m < rss0.len() ==> rss[m] == rss0[m],
    ensures
        items_text(items, rss, dir, dl, k) == items_text(items, rss0, dir, dl, k),
    decreases k,
{
    if k > 0 {
        lemma_items_text_prefix(items, rss0, rss, dir, dl, (k - 1) as nat);
    }
}

/// The human-readable text of every item given, after a warning that the
/// format is for people only.
#[verifier::rlimit(100)]
pub fn write_mir_pretty(items: &Vec<MirItem>, dir: &AllocMap, dl: &DataLayout) -> (r: String)
    requires
        forall|k: int| 0 <= k < items@.len() ==> item_renderable(#[trigger] items@[k]),
        dir_wf(*dir, *dl),
    ensures
        exists|rss: Seq<Seq<Seq<AllocId>>>|
            rss.len() == items@.len() && (forall|k: int|
                0 <= k < items@.len() ==> item_sections(#[trigger] items@[k], rss[k], *dir)) && r@
                == pretty_header() + items_text(items@, rss, *dir, *dl, items@.len()),
{
    let mut out: Vec<char> = Vec::new();
    push_str(&mut out, "// WARNING: This output format is intended for human consumers only\n");
    push_str(&mut out, "// and is subject to change without notice. Knock yourself out.\n");
    let ghost o0 = out@;
    let ghost mut rss: Seq<Seq<Seq<AllocId>>> = seq![];
    let mut k: usize = 0;
    while k < items.len()
        invariant
            forall|m: int| 0 <= m < items@.len() ==> item_renderable(#[trigger] items@[m]),
            dir_wf(*dir, *dl),
            k <= items@.len(),
            rss.len() == k,
            forall|m: int| 0 <= m < k ==> item_sections(#[trigger] items@[m], rss[m], *dir),
            o0 == pretty_header(),
            out@ == o0 + items_text(items@, rss, *dir, *dl, k as nat),
        decreases items.len() - k,
    {
        if k != 0 {
            push_str(&mut out, "\n");
        }
        let ghost o1 = out@;
        let item = &items[k];
        let rs = write_item(item, dir, dl, &mut out);
        proof {
            let rss0 = rss;
            rss = rss.push(rs@);
            lemma_items_text_prefix(items@, rss0, rss, *dir, *dl, k as nat);
            assert(out@ =~= o0 + items_text(items@, rss, *dir, *dl, (k + 1) as nat));
            assert forall|m: int| 0 <= m < k + 1 implies item_sections(#[trigger] items@[m], rss[m], *dir) by {
                if m < k {
                    assert(rss[m] == rss0[m]);
                }
            }
        }
        k = k + 1;
    }
    string_of(&out)
}


/// The items to print: the one asked for, or else every item with a body
/// (`mir_keys`, by index).
pub fn dump_mir_def_ids(mir_keys: &Vec<usize>, single: Option<usize>) -> (r: Vec<usize>)
    ensures
        r@ == match single {
            Some(i) => seq![i],
            None => mir_keys@,
        },
{
    match single {
        Some(i) => {
            let r = vec![i];
            proof {
                assert(r@ =~= seq![i]);
            }
            r
        },
        None => {
            let mut r: Vec<usize> = Vec::new();
            let mut k: usize = 0;
            while k < mir_keys.len()
                invariant
                    k <= mir_keys@.len(),
                    r@ == mir_keys@.subrange(0, k as int),
                decreases mir_keys.len() - k,
            {
                r.push(mir_keys[k]);
                proof {
                    assert(r@ =~= mir_keys@.subrange(0, k + 1));
                }
                k = k + 1;
            }
            proof {
                assert(mir_keys@.subrange(0, k as int) =~= mir_keys@);
            }
            r
        },
    }
}

} // verus!
