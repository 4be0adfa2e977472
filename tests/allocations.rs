use mir_dump::allocation::{write_allocation, AllocId, Allocation, DataLayout, Relocation};
use mir_dump::collect::{collect_alloc_ids, write_alloc_section, AllocMap, ConstValue, GlobalAlloc};

fn text(v: &[char]) -> String {
    v.iter().collect()
}

fn render(a: &Allocation, dl: &DataLayout) -> String {
    let mut out = Vec::new();
    write_allocation(a, dl, &mut out);
    text(&out)
}

fn plain(bytes: Vec<u8>, align: u64) -> Allocation {
    let n = bytes.len();
    Allocation { bytes, defined: vec![true; n], relocations: vec![], align }
}

const LE8: DataLayout = DataLayout { pointer_size: 8, big_endian: false };

#[test]
fn empty_allocation() {
    assert_eq!(render(&plain(vec![], 1), &LE8), "size: 0, align: 1) {}");
}

#[test]
fn one_byte_allocation() {
    let expected = format!("size: 1, align: 1) {{\n    41{} \u{2014} A\n}}", " ".repeat(45));
    assert_eq!(render(&plain(vec![0x41], 1), &LE8), expected);
}

#[test]
fn seventeen_bytes_two_lines() {
    let bytes: Vec<u8> = (0..17u8).map(|i| b'A' + i).collect();
    let expected = format!(
        "size: 17, align: 8) {{\n    0x00 \u{2014} 41 42 43 44 45 46 47 48 49 4a 4b 4c 4d 4e 4f 50 \u{2014} ABCDEFGHIJKLMNOP\n    0x10 \u{2014} 51{} \u{2014} Q\n}}",
        " ".repeat(45)
    );
    let got = render(&plain(bytes, 8), &LE8);
    assert_eq!(got, expected);
    let lines: Vec<&str> = got.lines().collect();
    let col = |l: &str| l.chars().position(|c| c == '\u{2014}').unwrap();
    let last_col = |l: &str| l.chars().count() - l.chars().rev().position(|c| c == '\u{2014}').unwrap();
    assert_eq!(col(lines[1]), col(lines[2]));
    assert_eq!(last_col(lines[1]), last_col(lines[2]));
}

#[test]
fn undefined_and_unprintable_bytes() {
    let a = Allocation {
        bytes: vec![0x00, 0x7f, 0x80, 0x20],
        defined: vec![true, true, true, false],
        relocations: vec![],
        align: 2,
    };
    let expected = format!("size: 4, align: 2) {{\n    00 7f 80 __{} \u{2014} ...\u{2591}\n}}", " ".repeat(36));
    assert_eq!(render(&a, &LE8), expected);
}

#[test]
fn pointer_within_a_line() {
    let mut bytes = vec![5, 0, 0, 0, 0, 0, 0, 0];
    bytes.extend(vec![b'a'; 8]);
    let a = Allocation {
        defined: vec![true; 16],
        bytes,
        relocations: vec![Relocation { offset: 0, target: AllocId(3) }],
        align: 8,
    };
    let expected = "size: 16, align: 8) {\n    \u{257e}\u{2500}\u{2500}\u{2500}\u{2500}\u{2500}\u{2500}alloc3+5\u{2500}\u{2500}\u{2500}\u{2500}\u{2500}\u{2500}\u{2500}\u{257c} 61 61 61 61 61 61 61 61 \u{2014} \u{257e}\u{2500}\u{2500}\u{2500}\u{2500}\u{2500}\u{2500}\u{257c}aaaaaaaa\n}";
    assert_eq!(render(&a, &LE8), expected);
}

#[test]
fn big_endian_pointer_offset() {
    let a = Allocation {
        bytes: vec![0, 0, 1, 2],
        defined: vec![true; 4],
        relocations: vec![Relocation { offset: 0, target: AllocId(1) }],
        align: 4,
    };
    let dl = DataLayout { pointer_size: 4, big_endian: true };
    let got = render(&a, &dl);
    assert!(got.contains("alloc1+258"));
}

#[test]
fn pointer_split_text_on_first_line() {
    let mut bytes = vec![b'0'; 14];
    bytes.extend(vec![0u8; 6]);
    let mut defined = vec![true; 18];
    defined.extend(vec![false; 2]);
    let a = Allocation {
        bytes,
        defined,
        relocations: vec![Relocation { offset: 14, target: AllocId(9) }],
        align: 4,
    };
    let dl = DataLayout { pointer_size: 4, big_endian: false };
    let expected = format!(
        "size: 20, align: 4) {{\n    0x00 \u{2014} {} \u{257e}alloc9+0 (4 ptr bytes) \u{2014} 00000000000000\u{257e}\u{2500}\n    0x10 \u{2014} \u{2500}\u{2500}\u{2500}\u{2500}\u{257c} __ __{} \u{2014} \u{2500}\u{257c}\u{2591}\u{2591}\n}}",
        vec!["30"; 14].join(" "),
        " ".repeat(36)
    );
    assert_eq!(render(&a, &dl), expected);
}

#[test]
fn pointer_split_text_on_second_line() {
    let mut bytes = vec![1u8; 14];
    bytes.extend(vec![0u8; 8]);
    bytes.extend(vec![0x7f, 0x7f]);
    let a = Allocation {
        defined: vec![true; 24],
        bytes,
        relocations: vec![Relocation { offset: 14, target: AllocId(1) }],
        align: 8,
    };
    let expected = format!(
        "size: 24, align: 8) {{\n    0x00 \u{2014} {} \u{257e}\u{2500}\u{2500}\u{2500}\u{2500} \u{2014} ..............\u{257e}\u{2500}\n    0x10 \u{2014} \u{2500}\u{2500}\u{2500}\u{2500}alloc1+0\u{2500}\u{2500}\u{2500}\u{2500}\u{257c} 7f 7f{} \u{2014} \u{2500}\u{2500}\u{2500}\u{2500}\u{2500}\u{257c}..\n}}",
        vec!["01"; 14].join(" "),
        " ".repeat(24)
    );
    assert_eq!(render(&a, &LE8), expected);
}

fn pointing_to(target: u64) -> Allocation {
    Allocation {
        bytes: vec![0; 8],
        defined: vec![true; 8],
        relocations: vec![Relocation { offset: 0, target: AllocId(target) }],
        align: 8,
    }
}

#[test]
fn mutual_pointers_collected_once() {
    let dir = AllocMap {
        entries: vec![
            Some(GlobalAlloc::Memory(pointing_to(1))),
            Some(GlobalAlloc::Memory(pointing_to(0))),
        ],
    };
    let ids = collect_alloc_ids(&vec![AllocId(0)], &dir);
    assert_eq!(ids.len(), 2);
    assert!(ids.contains(&AllocId(0)));
    assert!(ids.contains(&AllocId(1)));
    let ids = collect_alloc_ids(&vec![AllocId(1), AllocId(0), AllocId(1)], &dir);
    assert_eq!(ids.len(), 2);
}

#[test]
fn chain_through_static() {
    let dir = AllocMap {
        entries: vec![
            Some(GlobalAlloc::Static {
                path: "S".to_string(),
                foreign: false,
                init: Some(ConstValue::ByRef(pointing_to(2))),
            }),
            None,
            Some(GlobalAlloc::Memory(pointing_to(7))),
        ],
    };
    let ids = collect_alloc_ids(&vec![AllocId(0)], &dir);
    assert_eq!(ids, vec![AllocId(0), AllocId(2), AllocId(7)]);
}

#[test]
fn section_entries_of_each_kind() {
    let dir = AllocMap {
        entries: vec![
            Some(GlobalAlloc::Function("main".to_string())),
            None,
            Some(GlobalAlloc::Static { path: "FOO".to_string(), foreign: true, init: None }),
            Some(GlobalAlloc::Static { path: "BAR".to_string(), foreign: false, init: None }),
            Some(GlobalAlloc::Static {
                path: "BAZ".to_string(),
                foreign: false,
                init: Some(ConstValue::ByRef(plain(vec![0x41], 1))),
            }),
        ],
    };
    let roots: Vec<AllocId> = [0, 1, 2, 3, 4, 9].iter().map(|&n| AllocId(n)).collect();
    let mut out = Vec::new();
    write_alloc_section(&roots, &dir, &LE8, &mut out);
    let expected = format!(
        "\nalloc9 (deallocated)\n\nalloc4 (static: BAZ, size: 1, align: 1) {{\n    41{} \u{2014} A\n}}\n\nalloc3 (static: BAR, error during initializer evaluation)\n\nalloc2 (extern static: FOO)\n\nalloc1 (deallocated)\n\nalloc0 (fn: main)\n",
        " ".repeat(45)
    );
    assert_eq!(text(&out), expected);
}

#[test]
fn memory_entry_opens_parenthesis() {
    let dir = AllocMap { entries: vec![Some(GlobalAlloc::Memory(plain(vec![], 4)))] };
    let mut out = Vec::new();
    write_alloc_section(&vec![AllocId(0)], &dir, &LE8, &mut out);
    assert_eq!(text(&out), "\nalloc0 (size: 0, align: 4) {}\n");
}
