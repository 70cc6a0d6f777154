use synacor_vm::disasm::{AsmItem, DisAsmOpts, ImageMap};
use synacor_vm::labels::LabelMap;
use synacor_vm::vm::{Instruction, SrcOperand};

fn no_labels() -> DisAsmOpts {
    DisAsmOpts { autolabel: false, line_addrs: false, initial_labels: None }
}

fn render(map: &ImageMap, opts: &DisAsmOpts) -> String {
    let mut out = Vec::new();
    map.disasm(&mut out, opts).expect("rendering cannot fail");
    String::from_utf8(out).expect("ascii text")
}

#[test]
fn hello_program_disassembles_to_its_text() {
    let mut words = Vec::new();
    words.extend(Instruction::Out(SrcOperand::Immediate('H' as u16)).encode());
    words.extend(Instruction::Out(SrcOperand::Immediate('i' as u16)).encode());
    words.extend(Instruction::Halt.encode());
    let opts = no_labels();
    let map = ImageMap::new(&words, &opts);
    assert_eq!(render(&map, &opts), "out 'H'\nout 'i'\nhalt\n");
}

#[test]
fn undecodable_words_fall_back_to_data() {
    // 22 is no opcode; 700 is no printable byte
    let opts = no_labels();
    let map = ImageMap::new(&[22, 700, 0], &opts);
    assert_eq!(map.stmts.len(), 3);
    assert!(matches!(map.stmts[0].1, AsmItem::Value(22)));
    assert_eq!(render(&map, &opts), "22\n700\nhalt\n");
}

#[test]
fn line_addresses_prefix_each_line() {
    let opts = DisAsmOpts { autolabel: false, line_addrs: true, initial_labels: None };
    let map = ImageMap::new(&[21, 0], &opts);
    assert_eq!(render(&map, &opts), "0\tnoop\n1\thalt\n");
}

#[test]
fn autolabel_names_jump_targets() {
    // 0: jmp 3; 2: halt; 3: noop
    let opts = DisAsmOpts { autolabel: true, line_addrs: false, initial_labels: None };
    let map = ImageMap::new(&[6, 3, 0, 21], &opts);
    let lbl = map.labels.get(3).expect("target labeled");
    assert_eq!(lbl, b"lbl0");
    assert_eq!(render(&map, &opts), "jmp lbl0\nhalt\nlbl0: noop\n");
}

#[test]
fn autolabel_names_call_targets_differently() {
    // 0: call 5; 2: jt r0, 0; 5: ret
    let opts = DisAsmOpts { autolabel: true, line_addrs: false, initial_labels: None };
    let map = ImageMap::new(&[17, 5, 7, 0x8000, 0, 18], &opts);
    assert_eq!(map.labels.get(5).expect("call target"), b"fn0");
    assert_eq!(map.labels.get(0).expect("jump target"), b"lbl1");
    assert_eq!(render(&map, &opts), "lbl1: call fn0\njt r0, lbl1\nfn0: ret\n");
}

#[test]
fn seed_labels_are_never_overwritten() {
    let mut seed = LabelMap::new();
    seed.insert(3, b"entry".to_vec());
    let opts = DisAsmOpts { autolabel: true, line_addrs: false, initial_labels: Some(seed) };
    let map = ImageMap::new(&[6, 3, 0, 21], &opts);
    assert_eq!(map.labels.get(3).expect("seeded"), b"entry");
    assert_eq!(render(&map, &opts), "jmp entry\nhalt\nentry: noop\n");
}

#[test]
fn register_targets_get_no_label() {
    let opts = DisAsmOpts { autolabel: true, line_addrs: false, initial_labels: None };
    let map = ImageMap::new(&[6, 0x8002, 0], &opts);
    assert!(map.labels.get(0x8002 as usize).is_none());
    assert_eq!(render(&map, &opts), "jmp r2\nhalt\n");
}

#[test]
fn values_equal_elsewhere_render_numerically() {
    // the value 3 appears as a plain operand of add: no label site, no quote
    let opts = no_labels();
    let map = ImageMap::new(&[9, 0x8000, 3, 200, 0], &opts);
    assert_eq!(render(&map, &opts), "add r0, 3, 200\nhalt\n");
}

#[test]
fn printable_bytes_render_quoted() {
    let opts = no_labels();
    let map = ImageMap::new(&[19, 65, 19, 31, 19, 127, 0], &opts);
    // 65 is 'A'; 31 and 127 are control bytes and stay numeric
    assert_eq!(render(&map, &opts), "out 'A'\nout 31\nout 127\nhalt\n");
}

#[test]
fn default_options_infer_labels_without_addresses() {
    let opts = DisAsmOpts::default();
    assert!(opts.autolabel);
    assert!(!opts.line_addrs);
    assert!(opts.initial_labels.is_none());
}

#[test]
fn label_map_lookup_both_ways() {
    let mut labels = LabelMap::new();
    labels.insert(7, b"seven".to_vec());
    labels.insert(9, b"nine".to_vec());
    labels.insert(7, b"renamed".to_vec());
    assert_eq!(labels.get(7).expect("renamed"), b"renamed");
    assert_eq!(labels.find_by_name(&b"nine".to_vec()), Some(9));
    assert_eq!(labels.find_by_name(&b"seven".to_vec()), None);
    assert_eq!(labels.remove_by_name(&b"nine".to_vec()), Some(9));
    assert!(labels.get(9).is_none());
    assert_eq!(labels.remove_by_name(&b"nine".to_vec()), None);
}

#[test]
fn empty_image_renders_nothing() {
    let opts = no_labels();
    let map = ImageMap::new(&[], &opts);
    assert!(map.stmts.is_empty());
    assert_eq!(render(&map, &opts), "");
}
