use mir_dump::allocation::{AllocId, Allocation, DataLayout, Relocation};
use mir_dump::collect::{AllocMap, ConstValue, GlobalAlloc};
use mir_dump::mir::{
    Annotation, BasicBlockData, Body, ItemKind, LocalDecl, MirSource, NoExtra, SourceInfo, Statement,
    UserTypeAnnotation, VarDebugInfo,
};
use mir_dump::naming::{DumpOptions, DumpSource};
use mir_dump::pretty::{
    body_alloc_ids, dump_mir, write_basic_block, write_mir_fn, write_mir_pretty, write_mir_sig, MirItem,
};
use mir_dump::collect::dir_is_valid;
use mir_dump::pretty::{dump_mir_def_ids, is_renderable, write_allocations};
use mir_dump::scope_tree::write_scope_tree;

const LE8: DataLayout = DataLayout { pointer_size: 8, big_endian: false };

fn text(v: &[char]) -> String {
    v.iter().collect()
}

fn pad40(s: &str) -> String {
    format!("{:40}", s)
}

fn si(scope: usize, span: &str) -> SourceInfo {
    SourceInfo { scope, span: span.to_string() }
}

fn local(mutable: bool, ty: &str, scope: usize, span: &str) -> LocalDecl {
    LocalDecl { mutable, ty: ty.to_string(), source_info: si(scope, span), user_ty_projections: vec![] }
}

fn stmt(t: &str, span: &str) -> Statement {
    Statement { text: t.to_string(), source_info: si(0, span), annotations: vec![], consts: vec![] }
}

fn trivial_body() -> Body {
    Body {
        basic_blocks: vec![BasicBlockData {
            statements: vec![],
            terminator: stmt("return", "main.rs:2:2: 2:2"),
            is_cleanup: false,
        }],
        local_decls: vec![local(true, "()", 0, "main.rs:1:11: 1:13")],
        arg_count: 0,
        scope_parents: vec![None],
        var_debug_info: vec![],
        yield_ty: None,
        user_type_annotations: vec![],
    }
}

fn main_src() -> MirSource {
    MirSource { def_path: "main".to_string(), kind: ItemKind::Fn, promoted: None }
}

#[test]
fn trivial_function_end_to_end() {
    let body = trivial_body();
    let opts = DumpOptions { dir: "mir_dump".to_string(), exclude_pass_number: false };
    let naming = DumpSource { item_name: "main".to_string(), shim_ty: None, promoted: None };
    let dir = AllocMap { entries: vec![] };
    let f = dump_mir(
        Some("all"),
        &opts,
        Some("000"),
        "SimplifyCfg",
        "after",
        &main_src(),
        &naming,
        &body,
        &NoExtra,
        &dir,
        &LE8,
    )
    .unwrap();
    assert_eq!(f.path, "mir_dump/rustc.main.000.SimplifyCfg.after.mir");
    let expected = format!(
        "// MIR for `main` after SimplifyCfg\n\nfn main() -> () {{\n{} // return place in scope 0 at main.rs:1:11: 1:13\n\n    bb0: {{\n{} // bb0[0]: scope 0 at main.rs:2:2: 2:2\n    }}\n}}\n",
        pad40("    let mut _0: ();"),
        pad40("        return;")
    );
    assert_eq!(f.text, expected);
    assert!(!f.text.contains("\nalloc"));
}

#[test]
fn filtered_out_dump_is_none() {
    let body = trivial_body();
    let opts = DumpOptions { dir: String::new(), exclude_pass_number: true };
    let naming = DumpSource { item_name: "main".to_string(), shim_ty: None, promoted: None };
    let dir = AllocMap { entries: vec![] };
    let f = dump_mir(Some("nll"), &opts, None, "SimplifyCfg", "after", &main_src(), &naming, &body, &NoExtra, &dir, &LE8);
    assert!(f.is_none());
    let f = dump_mir(None, &opts, None, "SimplifyCfg", "after", &main_src(), &naming, &body, &NoExtra, &dir, &LE8);
    assert!(f.is_none());
}

fn scoped_body() -> Body {
    let mut l3 = local(false, "u8", 2, "s3");
    l3.user_ty_projections = vec!["Field(0)".to_string()];
    Body {
        basic_blocks: vec![BasicBlockData {
            statements: vec![],
            terminator: stmt("return", "t"),
            is_cleanup: false,
        }],
        local_decls: vec![
            local(true, "()", 0, "s0"),
            local(false, "i32", 0, "s1"),
            local(false, "i32", 1, "s2"),
            l3,
        ],
        arg_count: 1,
        scope_parents: vec![None, Some(0), Some(0), Some(1)],
        var_debug_info: vec![
            VarDebugInfo { name: "x".to_string(), place: "_1".to_string(), source_info: si(1, "sx") },
            VarDebugInfo { name: "y".to_string(), place: "_2".to_string(), source_info: si(3, "sy") },
            VarDebugInfo { name: "z".to_string(), place: "_3".to_string(), source_info: si(2, "sz") },
        ],
        yield_ty: None,
        user_type_annotations: vec![],
    }
}

#[test]
fn scope_tree_nesting() {
    let body = scoped_body();
    let mut out = Vec::new();
    write_scope_tree(&body, 0, 1, &mut out);
    let expected = [
        format!("{} // return place in scope 0 at s0", pad40("    let mut _0: ();")),
        "    scope 1 {".to_string(),
        format!("{} // in scope 1 at sx", pad40("        debug x => _1;")),
        format!("{} // in scope 1 at s2", pad40("        let _2: i32;")),
        "        scope 3 {".to_string(),
        format!("{} // in scope 3 at sy", pad40("            debug y => _2;")),
        "        }".to_string(),
        "    }".to_string(),
        "    scope 2 {".to_string(),
        format!("{} // in scope 2 at sz", pad40("        debug z => _3;")),
        format!("{} // in scope 2 at s3", pad40("        let _3: u8 as Field(0);")),
        "    }".to_string(),
    ];
    let got = text(&out);
    assert_eq!(got, expected.iter().map(|l| format!("{}\n", l)).collect::<String>());
    let indent = |l: &str| l.len() - l.trim_start().len();
    let lines: Vec<&str> = got.lines().collect();
    assert!(indent(lines[2]) > indent(lines[1]));
    assert!(indent(lines[5]) > indent(lines[4]));
}

#[test]
fn signature_of_function_with_argument() {
    let mut body = scoped_body();
    body.local_decls[0].ty = "bool".to_string();
    let mut out = Vec::new();
    write_mir_sig(&main_src(), &body, &mut out);
    assert_eq!(text(&out), "fn main(_1: i32) -> bool ");
}

#[test]
fn signatures_of_other_items() {
    let mut body = trivial_body();
    body.local_decls[0].ty = "usize".to_string();
    let mut out = Vec::new();
    let src = MirSource { def_path: "X".to_string(), kind: ItemKind::Static { mutable: true }, promoted: None };
    write_mir_sig(&src, &body, &mut out);
    assert_eq!(text(&out), "static mut X: usize = ");
    let mut out = Vec::new();
    let src = MirSource { def_path: "f".to_string(), kind: ItemKind::Fn, promoted: Some(2) };
    write_mir_sig(&src, &body, &mut out);
    assert_eq!(text(&out), "promoted[2] in f: usize = ");
    let mut out = Vec::new();
    let src = MirSource { def_path: "C".to_string(), kind: ItemKind::Const, promoted: None };
    body.yield_ty = Some("u32".to_string());
    write_mir_sig(&src, &body, &mut out);
    assert_eq!(text(&out), "const C: usize =\nyields u32\n ");
}

#[test]
fn block_with_statements_and_detail() {
    let mut body = trivial_body();
    let mut s = stmt("_0 = const ()", "a.rs:1:1: 1:2");
    s.annotations = vec![
        Annotation::Constant { span: "a.rs:1:1: 1:2".to_string(), user_ty: None, literal: "Const { ty: (), val: Value(Scalar(<ZST>)) }".to_string() },
        Annotation::Closure { def_id: "DefId(0:4)".to_string(), substs: "[\n    i8,\n]".to_string() },
    ];
    body.basic_blocks[0].statements = vec![s];
    body.basic_blocks[0].is_cleanup = true;
    let mut out = Vec::new();
    write_basic_block(&NoExtra, &body, 0, &mut out);
    let blank = " ".repeat(40);
    let expected = format!(
        "    bb0 (cleanup): {{\n{} // bb0[0]: scope 0 at a.rs:1:1: 1:2\n{b} // mir::Constant\n{b} // + span: a.rs:1:1: 1:2\n{b} // + literal: Const {{ ty: (), val: Value(Scalar(<ZST>)) }}\n{b} // closure\n{b} // + def_id: DefId(0:4)\n{b} // + substs: [\n{b} //     i8,\n{b} // ]\n{} // bb0[1]: scope 0 at main.rs:2:2: 2:2\n    }}\n",
        pad40("        _0 = const ();"),
        pad40("        return;"),
        b = blank
    );
    assert_eq!(text(&out), expected);
}

#[test]
fn constants_lead_to_appendix() {
    let mut body = trivial_body();
    let payload = Allocation {
        bytes: vec![0; 8],
        defined: vec![true; 8],
        relocations: vec![Relocation { offset: 0, target: AllocId(1) }],
        align: 8,
    };
    body.basic_blocks[0].terminator.consts = vec![ConstValue::ScalarRaw(3), ConstValue::Slice(payload), ConstValue::ScalarPtr(AllocId(0))];
    body.user_type_annotations = vec![UserTypeAnnotation { user_ty: "Canonical(u8)".to_string(), span: "a.rs:3:3".to_string() }];
    assert_eq!(body_alloc_ids(&body), vec![AllocId(1), AllocId(0)]);
    let dir = AllocMap {
        entries: vec![Some(GlobalAlloc::Function("foo".to_string())), Some(GlobalAlloc::Function("bar".to_string()))],
    };
    let mut out = Vec::new();
    write_mir_fn(&NoExtra, &main_src(), &body, &dir, &LE8, &mut out);
    let got = text(&out);
    assert!(got.ends_with("}\n\nalloc0 (fn: foo)\n\nalloc1 (fn: bar)\n"));
    let opts = DumpOptions { dir: String::new(), exclude_pass_number: true };
    let naming = DumpSource { item_name: "main".to_string(), shim_ty: None, promoted: None };
    let f = dump_mir(Some("Simplify"), &opts, None, "SimplifyCfg", "0", &main_src(), &naming, &body, &NoExtra, &dir, &LE8).unwrap();
    assert!(f.text.contains("\n\n| User Type Annotations\n| 0: Canonical(u8) at a.rs:3:3\n|\nfn main"));
}

fn body_of(ty: &str) -> Body {
    let mut b = trivial_body();
    b.local_decls[0].ty = ty.to_string();
    b
}

fn simple_text(sig: &str, ty: &str) -> String {
    format!(
        "{}{{\n{} // return place in scope 0 at main.rs:1:11: 1:13\n\n    bb0: {{\n{} // bb0[0]: scope 0 at main.rs:2:2: 2:2\n    }}\n}}\n",
        sig,
        pad40(&format!("    let mut _0: {};", ty)),
        pad40("        return;")
    )
}

#[test]
fn pretty_prints_items_and_promoted() {
    let items = vec![
        MirItem { src: main_src(), body: trivial_body(), promoted: vec![] },
        MirItem {
            src: MirSource { def_path: "C".to_string(), kind: ItemKind::Const, promoted: None },
            body: body_of("usize"),
            promoted: vec![body_of("&usize")],
        },
    ];
    let dir = AllocMap { entries: vec![] };
    let got = write_mir_pretty(&items, &dir, &LE8);
    let expected = format!(
        "// WARNING: This output format is intended for human consumers only\n// and is subject to change without notice. Knock yourself out.\n{}\n{}\n{}",
        simple_text("fn main() -> () ", "()"),
        simple_text("const C: usize = ", "usize"),
        simple_text("promoted[0] in C: &usize = ", "&usize")
    );
    assert_eq!(got, expected);
}

#[test]
fn def_ids_single_or_all() {
    assert_eq!(dump_mir_def_ids(&vec![3, 5, 8], Some(7)), vec![7]);
    assert_eq!(dump_mir_def_ids(&vec![3, 5, 8], None), vec![3, 5, 8]);
}

#[test]
fn appendix_of_body_and_validity_checks() {
    let mut body = trivial_body();
    body.basic_blocks[0].terminator.consts = vec![ConstValue::ScalarPtr(AllocId(0))];
    let dir = AllocMap { entries: vec![Some(GlobalAlloc::Function("f".to_string()))] };
    let mut out = Vec::new();
    write_allocations(&body, &dir, &LE8, &mut out);
    assert_eq!(text(&out), "\nalloc0 (fn: f)\n");
    assert!(is_renderable(&main_src(), &body));
    body.scope_parents = vec![None, Some(1)];
    assert!(!is_renderable(&main_src(), &body));
    let mut body = trivial_body();
    body.arg_count = 1;
    assert!(!is_renderable(&main_src(), &body));
    body.local_decls.push(local(false, "u8", 0, "s"));
    assert!(is_renderable(&main_src(), &body));
    let konst = MirSource { def_path: "K".to_string(), kind: ItemKind::Const, promoted: None };
    assert!(!is_renderable(&konst, &body));
    assert!(dir_is_valid(&dir, &LE8));
    let overlapping = Allocation {
        bytes: vec![0; 12],
        defined: vec![true; 12],
        relocations: vec![Relocation { offset: 0, target: AllocId(0) }, Relocation { offset: 4, target: AllocId(0) }],
        align: 8,
    };
    assert!(!overlapping.is_valid(&LE8));
    assert!(overlapping.is_valid(&DataLayout { pointer_size: 4, big_endian: false }));
    let bad = AllocMap { entries: vec![Some(GlobalAlloc::Memory(overlapping))] };
    assert!(!dir_is_valid(&bad, &LE8));
    let bad_static = AllocMap {
        entries: vec![Some(GlobalAlloc::Static { path: "S".to_string(), foreign: false, init: Some(ConstValue::ScalarRaw(1)) })],
    };
    assert!(!dir_is_valid(&bad_static, &LE8));
}
