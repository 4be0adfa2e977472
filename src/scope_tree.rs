//! The lexical scope tree of a body, with the variables declared in each scope.
use vstd::prelude::*;
use crate::mir::{Body, LocalDecl, SourceInfo, VarDebugInfo};
use crate::text::{dec, fill, pad_right, push_dec, push_fill, push_padded, push_seq, push_str};

verus! {

/// The column at which comments after statements and declarations start.
pub const ALIGN: usize = 40;

/// Four spaces per level of nesting.
pub open spec fn indent(depth: nat) -> Seq<char> {
    fill(' ', (4 * depth) as int)
}

/// `scope <n> at <source location>`.
pub open spec fn comment_text(si: SourceInfo) -> Seq<char> {
    "scope "@ + dec(si.scope as nat) + " at "@ + si.span@
}

/// `debug <name> => <place>;`
pub open spec fn debug_decl(v: VarDebugInfo) -> Seq<char> {
    "debug "@ + v.name@ + " => "@ + v.place@ + ";"@
}

pub open spec fn debug_line(v: VarDebugInfo, depth: nat) -> Seq<char> {
    pad_right(indent(depth) + debug_decl(v), ALIGN as int) + " // in "@ + comment_text(
        v.source_info,
    ) + "\n"@
}

pub open spec fn projections_text(ps: Seq<String>) -> Seq<char>
    decreases ps.len(),
{
    if ps.len() == 0 {
        seq![]
    } else {
        projections_text(ps.drop_last()) + " as "@ + ps.last()@
    }
}

/// `let [mut] _<idx>: <type>[ as <projection>]*;`
#[verifier::opaque]
pub open spec fn local_decl_text(l: LocalDecl, idx: nat) -> Seq<char> {
    "let "@ + (if l.mutable {
        "mut "@
    } else {
        seq![]
    }) + "_"@ + dec(idx) + ": "@ + l.ty@ + projections_text(l.user_ty_projections@) + ";"@
}

pub open spec fn local_line(l: LocalDecl, idx: nat, depth: nat) -> Seq<char> {
    pad_right(indent(depth) + local_decl_text(l, idx), ALIGN as int) + " //"@ + (if idx == 0 {
        " return place"@
    } else {
        seq![]
    }) + " in "@ + comment_text(l.source_info) + "\n"@
}

/// The debug-info lines, among the first `k` records, of those declared in scope `s`.
pub open spec fn debug_lines(body: Body, s: nat, depth: nat, k: nat) -> Seq<char>
    decreases k,
{
    if k == 0 {
        seq![]
    } else {
        let v = body.var_debug_info@[k - 1];
        debug_lines(body, s, depth, (k - 1) as nat) + if v.source_info.scope == s {
            debug_line(v, depth)
        } else {
            seq![]
        }
    }
}

/// The declaration lines, among the first `k` locals, of those declared in
/// scope `s`; arguments are left out, as the signature shows them.
pub open spec fn local_lines(body: Body, s: nat, depth: nat, k: nat) -> Seq<char>
    decreases k,
{
    if k == 0 {
        seq![]
    } else {
        let idx = (k - 1) as nat;
        let l = body.local_decls@[idx as int];
        local_lines(body, s, depth, idx) + if (1 <= idx <= body.arg_count) || l.source_info.scope
            != s {
            seq![]
        } else {
            local_line(l, idx, depth)
        }
    }
}

/// The text of scope `s` at nesting `depth`: its own records, then each child
/// scope in braces, one level deeper.
pub open spec fn scope_tree_text(body: Body, s: nat, depth: nat) -> Seq<char>
    decreases body.scope_parents@.len() - s, body.scope_parents@.len() + 1,
{
    debug_lines(body, s, depth, body.var_debug_info@.len()) + local_lines(
        body,
        s,
        depth,
        body.local_decls@.len(),
    ) + child_blocks(body, s, depth, body.scope_parents@.len())
}

/// The blocks of the children of `s` among the first `k` scopes.
pub open spec fn child_blocks(body: Body, s: nat, depth: nat, k: nat) -> Seq<char>
    decreases body.scope_parents@.len() - s, k,
{
    if k == 0 || k > body.scope_parents@.len() {
        seq![]
    } else {
        let c = (k - 1) as nat;
        child_blocks(body, s, depth, c) + if body.scope_parents@[c as int] == Some(s as usize) && s
            < c {
            indent(depth) + "scope "@ + dec(c) + " {\n"@ + scope_tree_text(body, c, depth + 1)
                + indent(depth) + "}\n"@
        } else {
            seq![]
        }
    }
}


/// Appends `scope <n> at <source location>`.
pub fn push_comment(out: &mut Vec<char>, si: &SourceInfo)
    ensures
        final(out)@ == old(out)@ + comment_text(*si),
{
    push_str(out, "scope ");
    push_dec(out, si.scope as u64);
    push_str(out, " at ");
    push_str(out, si.span.as_str());
    proof {
        assert(out@ =~= old(out)@ + comment_text(*si));
    }
}

#[verifier::rlimit(100)]
fn write_debug_line(out: &mut Vec<char>, v: &VarDebugInfo, depth: usize)
    requires
        4 * depth <= usize::MAX,
    ensures
        final(out)@ == old(out)@ + debug_line(*v, depth as nat),
{
    let mut line: Vec<char> = Vec::new();
    push_fill(&mut line, ' ', 4 * depth);
    push_str(&mut line, "debug ");
    push_str(&mut line, v.name.as_str());
    push_str(&mut line, " => ");
    push_str(&mut line, v.place.as_str());
    push_str(&mut line, ";");
    proof {
        assert(line@ =~= indent(depth as nat) + debug_decl(*v));
    }
    push_padded(out, &line, ALIGN);
    push_str(out, " // in ");
    push_comment(out, &v.source_info);
    push_str(out, "\n");
    proof {
        assert(out@ =~= old(out)@ + debug_line(*v, depth as nat));
    }
}

#[verifier::rlimit(100)]
fn local_decl_chars(l: &LocalDecl, idx: usize, depth: usize) -> (line: Vec<char>)
    requires
        4 * depth <= usize::MAX,
    ensures
        line@ == indent(depth as nat) + local_decl_text(*l, idx as nat),
{
    let mut line: Vec<char> = Vec::new();
    push_fill(&mut line, ' ', 4 * depth);
    push_str(&mut line, "let ");
    if l.mutable {
        push_str(&mut line, "mut ");
    }
    push_str(&mut line, "_");
    push_dec(&mut line, idx as u64);
    push_str(&mut line, ": ");
    push_str(&mut line, l.ty.as_str());
    let ghost before = line@;
    let mut k: usize = 0;
    while k < l.user_ty_projections.len()
        invariant
            k <= l.user_ty_projections@.len(),
            line@ == before + projections_text(l.user_ty_projections@.subrange(0, k as int)),
        decreases l.user_ty_projections.len() - k,
    {
        push_str(&mut line, " as ");
        push_str(&mut line, l.user_ty_projections[k].as_str());
        proof {
            let ps = l.user_ty_projections@.subrange(0, k + 1);
            assert(ps.drop_last() == l.user_ty_projections@.subrange(0, k as int));
            assert(line@ =~= before + projections_text(ps));
        }
        k = k + 1;
    }
    proof {
        assert(l.user_ty_projections@.subrange(0, k as int) == l.user_ty_projections@);
    }
    push_str(&mut line, ";");
    proof {
        reveal(local_decl_text);
        assert(line@ =~= indent(depth as nat) + local_decl_text(*l, idx as nat));
    }
    line
}


#[verifier::rlimit(100)]
fn write_local_line(out: &mut Vec<char>, l: &LocalDecl, idx: usize, depth: usize)
    requires
        4 * depth <= usize::MAX,
    ensures
        final(out)@ == old(out)@ + local_line(*l, idx as nat, depth as nat),
{
    let line = local_decl_chars(l, idx, depth);
    push_padded(out, &line, ALIGN);
    let mut tail: Vec<char> = Vec::new();
    push_str(&mut tail, " //");
    if idx == 0 {
        push_str(&mut tail, " return place");
    }
    push_str(&mut tail, " in ");
    push_comment(&mut tail, &l.source_info);
    push_str(&mut tail, "\n");
    proof {
        assert(tail@ =~= " //"@ + (if idx == 0 {
            " return place"@
        } else {
            seq![]
        }) + " in "@ + comment_text(l.source_info) + "\n"@);
    }
    let ghost padded = out@;
    push_seq(out, &tail);
    proof {
        assert(out@ =~= old(out)@ + local_line(*l, idx as nat, depth as nat));
    }
}

/// Writes the text of scope `s` at nesting `depth`: the variables declared in
/// it, then its child scopes in braces, each one level deeper.
#[verifier::rlimit(100)]
pub fn write_scope_tree(body: &Body, s: usize, depth: usize, out: &mut Vec<char>)
    requires
        body.wf(),
        s < body.scope_parents@.len(),
        4 * (depth + body.scope_parents@.len() - s) <= usize::MAX,
    ensures
        final(out)@ == old(out)@ + scope_tree_text(*body, s as nat, depth as nat),
    decreases body.scope_parents@.len() - s,
{
    let mut k: usize = 0;
    while k < body.var_debug_info.len()
        invariant
            4 * depth <= usize::MAX,
            k <= body.var_debug_info@.len(),
            out@ == old(out)@ + debug_lines(*body, s as nat, depth as nat, k as nat),
        decreases body.var_debug_info.len() - k,
    {
        let v = &body.var_debug_info[k];
        if v.source_info.scope == s {
            write_debug_line(out, v, depth);
        }
        k = k + 1;
    }
    let ghost after_debug = out@;
    let mut k: usize = 0;
    while k < body.local_decls.len()
        invariant
            4 * depth <= usize::MAX,
            k <= body.local_decls@.len(),
            out@ == after_debug + local_lines(*body, s as nat, depth as nat, k as nat),
        decreases body.local_decls.len() - k,
    {
        let l = &body.local_decls[k];
        if (1 <= k && k <= body.arg_count) || l.source_info.scope != s {
        } else {
            write_local_line(out, l, k, depth);
        }
        k = k + 1;
    }
    let ghost after_locals = out@;
    let n = body.scope_parents.len();
    let mut c: usize = 0;
    while c < n
        invariant
            body.wf(),
            n == body.scope_parents@.len(),
            s < n,
            4 * (depth + n - s) <= usize::MAX,
            c <= n,
            out@ == after_locals + child_blocks(*body, s as nat, depth as nat, c as nat),
        decreases n - c,
    {
        proof {
            assert(child_blocks(*body, s as nat, depth as nat, (c + 1) as nat) == child_blocks(
                *body,
                s as nat,
                depth as nat,
                c as nat,
            ) + if body.scope_parents@[c as int] == Some(s) && s < c {
                indent(depth as nat) + "scope "@ + dec(c as nat) + " {\n"@ + scope_tree_text(
                    *body,
                    c as nat,
                    (depth + 1) as nat,
                ) + indent(depth as nat) + "}\n"@
            } else {
                seq![]
            });
        }
        if body.scope_parents[c] == Some(s) && s < c {
            let ghost before = out@;
            push_fill(out, ' ', 4 * depth);
            push_str(out, "scope ");
            push_dec(out, c as u64);
            push_str(out, " {\n");
            write_scope_tree(body, c, depth + 1, out);
            push_fill(out, ' ', 4 * depth);
            push_str(out, "}\n");
            proof {
                assert(out@ =~= before + indent(depth as nat) + "scope "@ + dec(c as nat) + " {\n"@
                    + scope_tree_text(*body, c as nat, (depth + 1) as nat) + indent(depth as nat)
                    + "}\n"@);
            }
        }
        c = c + 1;
    }
    proof {
        assert(out@ =~= old(out)@ + scope_tree_text(*body, s as nat, depth as nat));
    }
}


/// A sequence starts with its first part, followed by the first element of the rest.
proof fn lemma_head(a: Seq<char>, b: Seq<char>)
    requires
        b.len() > 0,
    ensures
        (a + b).subrange(0, a.len() as int) == a,
        (a + b)[a.len() as int] == b[0],
{
    assert((a + b).subrange(0, a.len() as int) =~= a);
}

#[verifier::rlimit(100)]
proof fn lemma_debug_line_indent(v: VarDebugInfo, depth: nat)
    ensures
        debug_line(v, depth).subrange(0, (4 * depth) as int) == indent(depth),
        debug_line(v, depth)[(4 * depth) as int] == 'd',
{
    reveal_strlit("debug ");
    reveal_strlit(";");
    let d = debug_decl(v);
    let line = indent(depth) + d;
    let tail = fill(' ', ALIGN - line.len()) + " // in "@ + comment_text(v.source_info) + "\n"@;
    assert(debug_line(v, depth) =~= indent(depth) + (d + tail));
    lemma_head("debug "@, v.name@ + " => "@ + v.place@ + ";"@);
    assert(d =~= "debug "@ + (v.name@ + " => "@ + v.place@ + ";"@));
    lemma_head(d, tail);
    lemma_head(indent(depth), d + tail);
}

proof fn lemma_local_decl_starts(l: LocalDecl, idx: nat)
    ensures
        local_decl_text(l, idx).len() > 0,
        local_decl_text(l, idx)[0] == 'l',
{
    reveal(local_decl_text);
    reveal_strlit("let ");
    reveal_strlit(";");
    let rest = (if l.mutable {
        "mut "@
    } else {
        seq![]
    }) + "_"@ + dec(idx) + ": "@ + l.ty@ + projections_text(l.user_ty_projections@) + ";"@;
    assert(local_decl_text(l, idx) =~= "let "@ + rest);
    lemma_head("let "@, rest);
}

#[verifier::rlimit(100)]
proof fn lemma_local_line_indent(l: LocalDecl, idx: nat, depth: nat)
    ensures
        local_line(l, idx, depth).subrange(0, (4 * depth) as int) == indent(depth),
        local_line(l, idx, depth)[(4 * depth) as int] == 'l',
{
    reveal_strlit("let ");
    reveal_strlit(";");
    let d = local_decl_text(l, idx);
    let line = indent(depth) + d;
    let tail = fill(' ', ALIGN - line.len()) + " //"@ + (if idx == 0 {
        " return place"@
    } else {
        seq![]
    }) + " in "@ + comment_text(l.source_info) + "\n"@;
    assert(local_line(l, idx, depth) =~= indent(depth) + (d + tail));
    lemma_local_decl_starts(l, idx);
    lemma_head(d, tail);
    lemma_head(indent(depth), d + tail);
}

/// Each record listed in the text of a scope at nesting `depth` starts with
/// exactly `4 * depth` spaces and then its keyword, while each child scope's
/// block is headed at that depth and lists the child's own records one level
/// deeper: indentation grows strictly with nesting, and a record never shows
/// at another scope's depth.
pub proof fn lemma_record_indentation(
    body: Body,
    s: nat,
    v: VarDebugInfo,
    l: LocalDecl,
    idx: nat,
    c: nat,
    depth: nat,
)
    requires
        c < body.scope_parents@.len(),
        body.scope_parents@[c as int] == Some(s as usize),
        s < c,
    ensures
        debug_line(v, depth).subrange(0, (4 * depth) as int) == indent(depth),
        debug_line(v, depth)[(4 * depth) as int] == 'd',
        local_line(l, idx, depth).subrange(0, (4 * depth) as int) == indent(depth),
        local_line(l, idx, depth)[(4 * depth) as int] == 'l',
        child_blocks(body, s, depth, c + 1) == child_blocks(body, s, depth, c) + indent(depth)
            + "scope "@ + dec(c) + " {\n"@ + scope_tree_text(body, c, depth + 1) + indent(depth)
            + "}\n"@,
{
    lemma_debug_line_indent(v, depth);
    lemma_local_line_indent(l, idx, depth);
}

} // verus!
