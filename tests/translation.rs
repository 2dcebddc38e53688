use acslasmc::{
    opcode_type, parse_opcode, process_comps, req_mem, resolve_operand, trans, translate_line,
    translate_lines, Opcode, OpcodeType, SymbolTable, TransError,
};

fn line(table: &mut SymbolTable, text: &str) -> Result<String, TransError> {
    translate_line(text, table)
}

#[test]
fn load_literal() {
    let mut t = SymbolTable::new();
    assert_eq!(line(&mut t, "LOAD =5"), Ok("acc = 5;".to_string()));
    assert_eq!(t.len(), 0);
}

#[test]
fn store_allocates_once() {
    let mut t = SymbolTable::new();
    assert_eq!(line(&mut t, "STORE X"), Ok("mem[0] = acc;".to_string()));
    assert_eq!(t.len(), 1);
    assert_eq!(line(&mut t, "STORE X"), Ok("mem[0] = acc;".to_string()));
    assert_eq!(t.len(), 1);
}

#[test]
fn label_prefix_before_load() {
    let mut t = SymbolTable::new();
    assert_eq!(line(&mut t, "LOOP LOAD =1"), Ok("LOOP:;\n    acc = 1;".to_string()));
}

#[test]
fn dc_without_label() {
    let mut t = SymbolTable::new();
    assert_eq!(line(&mut t, "DC"), Err(TransError::MissingLabel("DC".to_string())));
    assert_eq!(line(&mut t, "DC 5"), Err(TransError::MissingLabel("DC".to_string())));
}

#[test]
fn invalid_opcode_after_label() {
    let mut t = SymbolTable::new();
    assert_eq!(line(&mut t, "FOO BAR X"), Err(TransError::InvalidOpcode("BAR".to_string())));
}

#[test]
fn read_is_unimplemented() {
    let mut t = SymbolTable::new();
    let expected = Err(TransError::Unimplemented("READ".to_string()));
    assert_eq!(line(&mut t, "READ X"), expected);
    assert_eq!(line(&mut t, "READ =3"), Err(TransError::Unimplemented("READ".to_string())));
    assert_eq!(line(&mut t, "L READ X"), Err(TransError::Unimplemented("READ".to_string())));
    assert_eq!(t.len(), 0);
}

#[test]
fn blank_lines() {
    let mut t = SymbolTable::new();
    assert_eq!(line(&mut t, ""), Ok(String::new()));
    assert_eq!(line(&mut t, "   \t  "), Ok(String::new()));
    assert_eq!(line(&mut t, "\n"), Ok(String::new()));
    assert_eq!(t.len(), 0);
}

#[test]
fn unbound_name_reads_empty() {
    let t = SymbolTable::new();
    assert_eq!(resolve_operand(&t, "Y"), "");
    let mut t = SymbolTable::new();
    assert_eq!(line(&mut t, "LOAD Y"), Ok("acc = ;".to_string()));
}

#[test]
fn resolve_twice_same() {
    let mut t = SymbolTable::new();
    req_mem(&mut t, "A");
    req_mem(&mut t, "B");
    for tok in ["B", "=42", "", "Z"] {
        let first = resolve_operand(&t, tok);
        let second = resolve_operand(&t, tok);
        assert_eq!(first, second);
    }
    assert_eq!(resolve_operand(&t, "B"), "mem[1]");
    assert_eq!(resolve_operand(&t, "=42"), "42");
    assert_eq!(resolve_operand(&t, "="), "");
    assert_eq!(resolve_operand(&t, ""), "");
}

#[test]
fn slots_in_order_of_first_use() {
    let mut t = SymbolTable::new();
    assert_eq!(req_mem(&mut t, "A"), 0);
    assert_eq!(req_mem(&mut t, "B"), 1);
    assert_eq!(req_mem(&mut t, "A"), 0);
    assert_eq!(req_mem(&mut t, "C"), 2);
    assert_eq!(req_mem(&mut t, "B"), 1);
    assert_eq!(t.len(), 3);
    assert_eq!(t.lookup("C"), Some(2));
    assert_eq!(t.lookup("D"), None);
}

#[test]
fn slot_numbers_past_nine() {
    let mut t = SymbolTable::new();
    for name in ["V0", "V1", "V2", "V3", "V4", "V5", "V6", "V7", "V8", "V9"] {
        line(&mut t, &format!("STORE {}", name)).unwrap();
    }
    assert_eq!(line(&mut t, "STORE W"), Ok("mem[10] = acc;".to_string()));
    assert_eq!(line(&mut t, "ADD W"), Ok("acc = (acc + mem[10]) % MOD;".to_string()));
}

#[test]
fn arithmetic_templates() {
    let mut t = SymbolTable::new();
    line(&mut t, "STORE X").unwrap();
    assert_eq!(line(&mut t, "ADD X"), Ok("acc = (acc + mem[0]) % MOD;".to_string()));
    assert_eq!(line(&mut t, "SUB =3"), Ok("acc = (acc - 3) % MOD;".to_string()));
    assert_eq!(line(&mut t, "MULT =7"), Ok("acc = (acc * 7) % MOD;".to_string()));
    assert_eq!(line(&mut t, "DIV =0"), Ok("acc = (acc / 0) % MOD;".to_string()));
    assert_eq!(line(&mut t, "PRINT X"), Ok("printf(\"%d\\n\", mem[0]);".to_string()));
}

#[test]
fn branches_use_raw_label() {
    let mut t = SymbolTable::new();
    assert_eq!(line(&mut t, "BE DONE"), Ok("if (acc == 0) goto DONE;".to_string()));
    assert_eq!(line(&mut t, "BU TOP"), Ok("if (acc > 0) goto TOP;".to_string()));
    assert_eq!(line(&mut t, "BL =1"), Ok("if (acc < 0) goto =1;".to_string()));
    assert_eq!(line(&mut t, "BG TOP"), Ok(String::new()));
    assert_eq!(line(&mut t, "HERE BG TOP"), Ok("HERE:;\n    ".to_string()));
}

#[test]
fn end_and_labels() {
    let mut t = SymbolTable::new();
    assert_eq!(line(&mut t, "END"), Ok("return 0;".to_string()));
    assert_eq!(line(&mut t, "END ignored"), Ok("return 0;".to_string()));
    assert_eq!(line(&mut t, "STOP END"), Ok("STOP:;\n    return 0;".to_string()));
}

#[test]
fn dc_binds_label_without_jump_label() {
    let mut t = SymbolTable::new();
    line(&mut t, "STORE A").unwrap();
    assert_eq!(line(&mut t, "N DC 25"), Ok("mem[1] = 25;".to_string()));
    assert_eq!(line(&mut t, "A DC 9"), Ok("mem[0] = 9;".to_string()));
    assert_eq!(line(&mut t, "M DC =4"), Ok("mem[2] = =4;".to_string()));
    assert_eq!(line(&mut t, "LOAD N"), Ok("acc = mem[1];".to_string()));
    assert_eq!(t.len(), 3);
}

#[test]
fn missing_operand_and_opcode() {
    let mut t = SymbolTable::new();
    assert_eq!(line(&mut t, "LOAD"), Err(TransError::MissingOperand("LOAD".to_string())));
    assert_eq!(line(&mut t, "X STORE"), Err(TransError::MissingOperand("STORE".to_string())));
    assert_eq!(line(&mut t, "X DC"), Err(TransError::MissingOperand("DC".to_string())));
    assert_eq!(line(&mut t, "LONELY"), Err(TransError::MissingOpcode));
    assert_eq!(t.len(), 0);
}

#[test]
fn single_space_splitting() {
    let mut t = SymbolTable::new();
    assert_eq!(line(&mut t, "  LOAD  =5  "), Ok("acc = ;".to_string()));
    assert_eq!(line(&mut t, "STORE  X"), Ok("mem[0] = acc;".to_string()));
    assert_eq!(t.lookup(""), Some(0));
}

#[test]
fn error_messages() {
    assert_eq!(
        TransError::MissingOperand("LOAD".to_string()).message(),
        "missing loc: loc is required for opcode LOAD"
    );
    assert_eq!(
        TransError::MissingLabel("DC".to_string()).message(),
        "missing label: label is required for opcode DC"
    );
    assert_eq!(TransError::MissingOpcode.message(), "missing opcode, only label provided");
    assert_eq!(TransError::InvalidOpcode("BAR".to_string()).message(), "invalid opcode: BAR");
    assert_eq!(TransError::Unimplemented("READ".to_string()).message(), "READ is unimplemented");
}

#[test]
fn classifier_table() {
    for op in ["LOAD", "STORE", "ADD", "SUB", "MULT", "DIV", "BE", "BG", "BL", "BU", "READ", "PRINT"] {
        assert_eq!(opcode_type(op), OpcodeType::LocRequired);
    }
    assert_eq!(opcode_type("END"), OpcodeType::NothingRequired);
    assert_eq!(opcode_type("DC"), OpcodeType::LocAndLabelRequired);
    assert_eq!(opcode_type("load"), OpcodeType::NotAnOpcode);
    assert_eq!(opcode_type(""), OpcodeType::NotAnOpcode);
    assert_eq!(parse_opcode("MULT"), Some(Opcode::Mult));
    assert_eq!(parse_opcode("LOADX"), None);
}

#[test]
fn direct_trans_and_tokens() {
    let mut t = SymbolTable::new();
    assert_eq!(trans(&mut t, "", "LOAD", "=5"), Ok("acc = 5;".to_string()));
    assert_eq!(trans(&mut t, "L", "NOPE", "X"), Ok("L:;\n    ".to_string()));
    let comps = vec!["TOP".to_string(), "PRINT".to_string(), "=1".to_string()];
    assert_eq!(process_comps(&comps, &mut t), Ok("TOP:;\n    printf(\"%d\\n\", 1);".to_string()));
    let none: Vec<String> = Vec::new();
    assert_eq!(process_comps(&none, &mut t), Ok(String::new()));
}

#[test]
fn whole_program() {
    let src: Vec<String> = ["LOAD =5", "STORE X", "", "TOP SUB =1", "BU TOP", "PRINT X", "END"]
        .iter()
        .map(|s| s.to_string())
        .collect();
    let out = translate_lines(&src).unwrap();
    assert_eq!(out.mem_size, 1);
    assert_eq!(
        out.statements,
        vec![
            "acc = 5;",
            "mem[0] = acc;",
            "",
            "TOP:;\n    acc = (acc - 1) % MOD;",
            "if (acc > 0) goto TOP;",
            "printf(\"%d\\n\", mem[0]);",
            "return 0;",
        ]
    );
}

#[test]
fn whole_program_stops_at_first_error() {
    let src: Vec<String> = ["LOAD =5", "STORE X", "READ X", "FOO BAR"]
        .iter()
        .map(|s| s.to_string())
        .collect();
    let err = translate_lines(&src).unwrap_err();
    assert_eq!(err.line, 3);
    assert_eq!(err.error, TransError::Unimplemented("READ".to_string()));
}
