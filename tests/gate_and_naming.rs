use mir_dump::gate::dump_enabled;
use mir_dump::naming::{dump_file_name, dump_path, DumpOptions, DumpSource};

#[test]
fn filter_groups_and_terms() {
    assert!(dump_enabled(Some("foo&nll|typeck"), "nll-borrowck", "foo::bar"));
    assert!(!dump_enabled(Some("foo&nll|typeck"), "other", "baz"));
    assert!(dump_enabled(Some("foo&nll|typeck"), "typeck", "baz"));
    assert!(!dump_enabled(Some("foo&nll|typeck"), "nll", "baz"));
}

#[test]
fn filter_all_and_none() {
    for (pass, item) in [("a", "b"), ("", ""), ("SimplifyCfg", "main"), ("x", "core::fmt")] {
        assert!(dump_enabled(Some("all"), pass, item));
        assert!(!dump_enabled(None, pass, item));
    }
}

#[test]
fn filter_empty_term_matches() {
    assert!(dump_enabled(Some(""), "p", "q"));
    assert!(dump_enabled(Some("zzz|"), "p", "q"));
    assert!(!dump_enabled(Some("zzz"), "p", "q"));
}

fn source(promoted: Option<usize>) -> DumpSource {
    DumpSource { item_name: "main".to_string(), shim_ty: None, promoted }
}

#[test]
fn promotion_changes_path() {
    let opts = DumpOptions { dir: "mir_dump".to_string(), exclude_pass_number: false };
    let a = dump_path(&opts, "mir", Some("003"), "ConstProp", "after", &source(None));
    let b = dump_path(&opts, "mir", Some("003"), "ConstProp", "after", &source(Some(0)));
    let c = dump_path(&opts, "mir", Some("003"), "ConstProp", "after", &source(Some(1)));
    assert_eq!(a, "mir_dump/rustc.main.003.ConstProp.after.mir");
    assert_eq!(b, "mir_dump/rustc.main-promoted[0].003.ConstProp.after.mir");
    assert_eq!(c, "mir_dump/rustc.main-promoted[1].003.ConstProp.after.mir");
    assert_ne!(a, b);
    assert_ne!(b, c);
}

#[test]
fn excluded_pass_number() {
    let opts = DumpOptions { dir: "out/".to_string(), exclude_pass_number: true };
    let p = dump_path(&opts, "mir", Some("003"), "ConstProp", "before", &source(None));
    assert_eq!(p, "out/rustc.main.ConstProp.before.mir");
    let q = dump_path(&opts, "mir", None, "ConstProp", "before", &source(None));
    assert_eq!(p, q);
}

#[test]
fn missing_pass_number_placeholder() {
    let opts = DumpOptions { dir: String::new(), exclude_pass_number: false };
    let p = dump_path(&opts, "dot", None, "nll", "0", &source(None));
    assert_eq!(p, "rustc.main.-------.nll.0.dot");
}

#[test]
fn shim_type_sanitized() {
    let opts = DumpOptions { dir: "d".to_string(), exclude_pass_number: false };
    let src = DumpSource {
        item_name: "ptr-drop_in_place".to_string(),
        shim_ty: Some("std::vec::Vec<(i32, u8)>".to_string()),
        promoted: None,
    };
    let n = dump_file_name(&opts, "mir", Some("1"), "p", "after", &src);
    assert_eq!(n, "rustc.ptr-drop_in_place.std__vec__Vec_(i32,u8)_.1.p.after.mir");
    assert_eq!(dump_path(&opts, "mir", Some("1"), "p", "after", &src), format!("d/{}", n));
}
