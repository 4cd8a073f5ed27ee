use wasm2env::decode::{decode_instr, decode_module};
use wasm2env::instr::Instr;
use wasm2env::interp::{ScanConfig, ScanLimits};
use wasm2env::memory::DataSegment;
use wasm2env::module::{extract_i32_const, global_entry, Module};
use wasm2env::scan::{collect_names, detect_env_vars, scan_module, scan_wasm_bytes};
use wasm2env::value::AbstractValue;

const HEADER: [u8; 8] = [0x00, 0x61, 0x73, 0x6d, 0x01, 0x00, 0x00, 0x00];

fn unsigned_leb(mut value: u32) -> Vec<u8> {
    let mut out = Vec::new();
    loop {
        let byte = (value & 0x7f) as u8;
        value >>= 7;
        if value == 0 {
            out.push(byte);
            return out;
        }
        out.push(byte | 0x80);
    }
}

fn signed_leb(mut value: i32) -> Vec<u8> {
    let mut out = Vec::new();
    loop {
        let byte = (value & 0x7f) as u8;
        value >>= 7;
        let done = (value == 0 && byte & 0x40 == 0) || (value == -1 && byte & 0x40 != 0);
        if done {
            out.push(byte);
            return out;
        }
        out.push(byte | 0x80);
    }
}

fn section(id: u8, items: &[Vec<u8>]) -> Vec<u8> {
    let mut content = unsigned_leb(items.len() as u32);
    for item in items {
        content.extend_from_slice(item);
    }
    let mut out = vec![id];
    out.extend(unsigned_leb(content.len() as u32));
    out.extend(content);
    out
}

fn i32_const(value: i32) -> Vec<u8> {
    let mut out = vec![0x41];
    out.extend(signed_leb(value));
    out
}

/// A function body without locals.
fn body(code: &[u8]) -> Vec<u8> {
    let mut out = unsigned_leb(code.len() as u32 + 1);
    out.push(0x00);
    out.extend_from_slice(code);
    out
}

fn active_data(offset: i32, bytes: &[u8]) -> Vec<u8> {
    let mut out = vec![0x00];
    out.extend(i32_const(offset));
    out.push(0x0b);
    out.extend(unsigned_leb(bytes.len() as u32));
    out.extend_from_slice(bytes);
    out
}

fn global_i32(mutable: bool, init: &[u8]) -> Vec<u8> {
    let mut out = vec![0x7f, mutable as u8];
    out.extend_from_slice(init);
    out
}

/// A module whose function 0 takes a pointer and a length, followed by one
/// function for each of `bodies`.
fn module(globals: &[Vec<u8>], bodies: &[Vec<u8>], data: &[Vec<u8>]) -> Vec<u8> {
    let mut out = HEADER.to_vec();
    out.extend(section(1, &[vec![0x60, 0x02, 0x7f, 0x7f, 0x00], vec![0x60, 0x00, 0x00]]));
    let mut types = vec![vec![0x00]];
    let mut code = vec![body(&[0x0b])];
    for b in bodies {
        types.push(vec![0x01]);
        code.push(b.clone());
    }
    out.extend(section(3, &types));
    out.extend(section(5, &[vec![0x00, 0x01]]));
    if !globals.is_empty() {
        out.extend(section(6, globals));
    }
    out.extend(section(10, &code));
    if !data.is_empty() {
        out.extend(section(11, data));
    }
    out
}

/// The code of a function that calls function 0 with two constants.
fn call_with(ptr: i32, len: i32) -> Vec<u8> {
    let mut code = i32_const(ptr);
    code.extend(i32_const(len));
    code.extend([0x10, 0x00, 0x0b]);
    code
}

#[test]
fn test_scan_wasm_bytes_empty() {
    // Minimal valid WASM module (empty)
    let minimal_wasm = vec![
        0x00, 0x61, 0x73, 0x6d, // WASM magic number
        0x01, 0x00, 0x00, 0x00, // Version
    ];

    let result = scan_wasm_bytes(&minimal_wasm).unwrap();
    assert_eq!(result, Vec::<String>::new());
}

#[test]
fn scan_finds_a_name_passed_to_a_call() {
    let wasm = module(
        &[],
        &[body(&call_with(0x2000, 12))],
        &[active_data(0x2000, b"DATABASE_URL")],
    );
    assert_eq!(scan_wasm_bytes(&wasm).unwrap(), vec!["DATABASE_URL"]);
}

#[test]
fn scan_rejects_noise() {
    let wasm = module(&[], &[body(&call_with(0x2000, 4))], &[active_data(0x2000, b"HTTP")]);
    assert_eq!(scan_wasm_bytes(&wasm).unwrap(), Vec::<String>::new());
}

#[test]
fn scan_is_repeatable() {
    let wasm = module(
        &[],
        &[body(&call_with(0x2007, 7)), body(&call_with(0x2000, 7))],
        &[active_data(0x2000, b"API_KEYJWT_KEY")],
    );
    let first = scan_wasm_bytes(&wasm).unwrap();
    let second = scan_wasm_bytes(&wasm).unwrap();
    assert_eq!(first, vec!["API_KEY", "JWT_KEY"]);
    assert_eq!(first, second);
}

#[test]
fn scan_reports_each_name_once() {
    let wasm = module(
        &[],
        &[
            body(&call_with(0x2000, 12)),
            body(&call_with(0x2000, 12)),
            body(&call_with(0x2000, 12)),
        ],
        &[active_data(0x2000, b"DATABASE_URL")],
    );
    assert_eq!(scan_wasm_bytes(&wasm).unwrap(), vec!["DATABASE_URL"]);
}

#[test]
fn scan_follows_an_addition() {
    let mut code = i32_const(0x1ff0);
    code.extend(i32_const(0x10));
    code.push(0x6a);
    code.extend(i32_const(12));
    code.extend([0x10, 0x00, 0x0b]);
    let wasm = module(&[], &[body(&code)], &[active_data(0x2000, b"DATABASE_URL")]);
    assert_eq!(scan_wasm_bytes(&wasm).unwrap(), vec!["DATABASE_URL"]);

    // the same with a subtraction finds nothing
    let mut code = i32_const(0x2010);
    code.extend(i32_const(0x10));
    code.push(0x6b);
    code.extend(i32_const(12));
    code.extend([0x10, 0x00, 0x0b]);
    let wasm = module(&[], &[body(&code)], &[active_data(0x2000, b"DATABASE_URL")]);
    assert_eq!(scan_wasm_bytes(&wasm).unwrap(), Vec::<String>::new());
}

#[test]
fn scan_reads_globals_and_locals() {
    // global 0 is not constant, global 1 holds the pointer
    let mut init0 = vec![0x23, 0x00, 0x0b];
    init0.truncate(3);
    let mut init1 = i32_const(0x2000);
    init1.push(0x0b);
    let mut code = vec![0x23, 0x01, 0x21, 0x00]; // global.get 1; local.set 0
    code.extend(i32_const(12));
    code.extend([0x22, 0x01, 0x1a]); // local.tee 1; drop
    code.extend([0x20, 0x00, 0x20, 0x01]); // local.get 0; local.get 1
    code.extend([0x11, 0x00, 0x00, 0x0b]); // call_indirect; end
    // two locals of type i32
    let mut with_locals = unsigned_leb(code.len() as u32 + 3);
    with_locals.extend([0x01, 0x02, 0x7f]);
    with_locals.extend(&code);
    let wasm = module(
        &[global_i32(false, &init0), global_i32(true, &init1)],
        &[with_locals],
        &[active_data(0x2000, b"DATABASE_URL")],
    );
    assert_eq!(scan_wasm_bytes(&wasm).unwrap(), vec!["DATABASE_URL"]);

    let decoded = decode_module(&wasm).unwrap();
    assert_eq!(decoded.globals, vec![AbstractValue::Unknown, AbstractValue::Known(0x2000)]);
    assert_eq!(
        decoded.functions[1],
        vec![
            Instr::GlobalGet(1),
            Instr::LocalSet(0),
            Instr::I32Const(12),
            Instr::LocalTee(1),
            Instr::Drop,
            Instr::LocalGet(0),
            Instr::LocalGet(1),
            Instr::CallIndirect,
            Instr::End,
        ]
    );
}

#[test]
fn scan_skips_a_broken_function_body() {
    // `i32.const` without its operand
    let broken = body(&[0x41]);
    let wasm = module(
        &[],
        &[broken, body(&call_with(0x2000, 12))],
        &[active_data(0x2000, b"DATABASE_URL")],
    );
    assert_eq!(scan_wasm_bytes(&wasm).unwrap(), vec!["DATABASE_URL"]);
    let decoded = decode_module(&wasm).unwrap();
    assert_eq!(decoded.functions.len(), 2);

    // a name found before the breakage does not count either
    let mut code = call_with(0x2000, 12);
    code.pop();
    code.push(0x41);
    let wasm = module(&[], &[body(&code)], &[active_data(0x2000, b"DATABASE_URL")]);
    assert_eq!(scan_wasm_bytes(&wasm).unwrap(), Vec::<String>::new());
}

#[test]
fn scan_reads_no_further_than_a_return() {
    let mut code = i32_const(0x2000);
    code.extend(i32_const(12));
    code.extend([0x10, 0x00, 0x0f]); // call 0; return
    code.push(0x41); // `i32.const` without its operand
    let wasm = module(&[], &[body(&code)], &[active_data(0x2000, b"DATABASE_URL")]);
    assert_eq!(scan_wasm_bytes(&wasm).unwrap(), vec!["DATABASE_URL"]);
    let decoded = decode_module(&wasm).unwrap();
    assert_eq!(
        decoded.functions[1],
        vec![Instr::I32Const(0x2000), Instr::I32Const(12), Instr::Call, Instr::Return]
    );
}

#[test]
fn scan_fails_on_broken_framing() {
    assert!(scan_wasm_bytes(&[]).is_err());
    assert!(scan_wasm_bytes(b"not a module").is_err());
    assert!(scan_wasm_bytes(&HEADER[..7]).is_err());
    // a section that claims more bytes than there are
    let mut wasm = HEADER.to_vec();
    wasm.extend([0x0b, 0x20, 0x01, 0x00]);
    let error = scan_wasm_bytes(&wasm).unwrap_err();
    assert!(!error.message.is_empty());
    assert!(error.offset >= 8);
    assert!(decode_module(&wasm).is_err());
    assert!(detect_env_vars(&wasm, &ScanConfig::standard()).is_err());
    // a data segment with flags that do not exist
    let mut wasm = HEADER.to_vec();
    wasm.extend(section(11, &[vec![0x07, 0x00]]));
    assert!(scan_wasm_bytes(&wasm).is_err());
}

#[test]
fn decode_reads_the_data_segments() {
    let passive = vec![0x01, 0x02, b'h', b'i'];
    let mut computed = vec![0x00, 0x23, 0x00, 0x0b, 0x01, b'x']; // offset: global.get 0
    computed.truncate(6);
    let mut added = vec![0x00];
    added.extend(i32_const(8));
    added.extend(i32_const(8));
    added.extend([0x6a, 0x0b, 0x01, b'y']); // offset: 8 + 8
    let wasm = module(
        &[],
        &[],
        &[active_data(0x2000, b"abc"), passive, computed, added, active_data(-1, b"z")],
    );
    let decoded = decode_module(&wasm).unwrap();
    assert_eq!(decoded.segments.len(), 2);
    assert_eq!(decoded.segments[0].offset, 0x2000);
    assert_eq!(decoded.segments[0].data, b"abc");
    assert_eq!(decoded.segments[1].offset, u32::MAX);
    assert_eq!(decoded.segments[1].data, b"z");
    assert_eq!(decoded.functions, vec![vec![Instr::End]]);
    assert!(decoded.globals.is_empty());
}

#[test]
fn decode_tells_the_instructions_apart() {
    let memarg = [0x02, 0x00];
    let mut code = Vec::new();
    let mut expected = Vec::new();
    code.extend([0x42, 0x7f]);
    expected.push(Instr::I64Const);
    code.extend([0x43, 0, 0, 0, 0]);
    expected.push(Instr::F32Const);
    code.extend([0x44, 0, 0, 0, 0, 0, 0, 0, 0]);
    expected.push(Instr::F64Const);
    let plain = [
        (0x45, Instr::I32Eqz), (0x46, Instr::I32Eq), (0x47, Instr::I32Ne),
        (0x48, Instr::I32LtS), (0x49, Instr::I32LtU), (0x4a, Instr::I32GtS),
        (0x4b, Instr::I32GtU), (0x4c, Instr::I32LeS), (0x4d, Instr::I32LeU),
        (0x4e, Instr::I32GeS), (0x4f, Instr::I32GeU), (0x6a, Instr::I32Add),
        (0x6b, Instr::I32Sub), (0x6c, Instr::I32Mul), (0x6d, Instr::I32DivS),
        (0x6e, Instr::I32DivU), (0x6f, Instr::I32RemS), (0x70, Instr::I32RemU),
        (0x71, Instr::I32And), (0x72, Instr::I32Or), (0x73, Instr::I32Xor),
        (0x74, Instr::I32Shl), (0x75, Instr::I32ShrS), (0x76, Instr::I32ShrU),
        (0x77, Instr::I32Rotl), (0x78, Instr::I32Rotr), (0x1a, Instr::Drop),
        (0x1b, Instr::Select), (0x01, Instr::Other), (0x7c, Instr::Other),
        (0x50, Instr::Other), (0xa7, Instr::Other),
    ];
    for (opcode, instr) in plain {
        code.push(opcode);
        expected.push(instr);
    }
    let memory = [
        (0x28, Instr::I32Load), (0x29, Instr::I64Load), (0x2a, Instr::F32Load),
        (0x2b, Instr::F64Load), (0x2c, Instr::I32Load8S), (0x2d, Instr::I32Load8U),
        (0x2e, Instr::I32Load16S), (0x2f, Instr::I32Load16U), (0x30, Instr::I64Load8S),
        (0x31, Instr::I64Load8U), (0x32, Instr::I64Load16S), (0x33, Instr::I64Load16U),
        (0x34, Instr::I64Load32S), (0x35, Instr::I64Load32U), (0x36, Instr::I32Store),
        (0x37, Instr::I64Store), (0x38, Instr::F32Store), (0x39, Instr::F64Store),
        (0x3a, Instr::I32Store8), (0x3b, Instr::I32Store16), (0x3c, Instr::I64Store8),
        (0x3d, Instr::I64Store16), (0x3e, Instr::I64Store32),
    ];
    for (opcode, instr) in memory {
        code.push(opcode);
        code.extend(memarg);
        expected.push(instr);
    }
    // block, br 0, end
    code.extend([0x02, 0x40, 0x0c, 0x00, 0x0b]);
    expected.extend([Instr::Other, Instr::Other, Instr::End]);
    code.push(0x0b);
    expected.push(Instr::End);
    let wasm = module(&[], &[body(&code)], &[]);
    let decoded = decode_module(&wasm).unwrap();
    assert_eq!(decoded.functions[1], expected);
}

#[test]
fn decode_one_instruction() {
    // i32.const -3; global.get 300; i32.add; call 5; nop; i32.const cut short
    let bytes = [0x41, 0x7d, 0x23, 0xac, 0x02, 0x6a, 0x10, 0x05, 0x01, 0x41];
    let end = bytes.len();
    assert_eq!(decode_instr(&bytes, 0, end), Instr::I32Const(-3));
    assert_eq!(decode_instr(&bytes, 2, end), Instr::GlobalGet(300));
    assert_eq!(decode_instr(&bytes, 5, end), Instr::I32Add);
    assert_eq!(decode_instr(&bytes, 6, end), Instr::Call);
    assert_eq!(decode_instr(&bytes, 8, end), Instr::Other);
    assert_eq!(decode_instr(&bytes, 9, end), Instr::Other);
    assert_eq!(decode_instr(&bytes, end, end), Instr::Other);
    // the end bounds what is read
    assert_eq!(decode_instr(&bytes, 2, 4), Instr::Other);
    assert_eq!(decode_instr(&bytes, 2, 5), Instr::GlobalGet(300));
    assert_eq!(decode_instr(&bytes, 0, 1), Instr::Other);
}

#[test]
fn scan_keeps_the_index_of_each_global() {
    // global 0: f64, global 1: 0x2000, global 2: i64, global 3: 12
    let mut init1 = i32_const(0x2000);
    init1.push(0x0b);
    let mut init3 = i32_const(12);
    init3.push(0x0b);
    let globals = vec![
        vec![0x7c, 0x00, 0x44, 0, 0, 0, 0, 0, 0, 0, 0, 0x0b],
        global_i32(false, &init1),
        vec![0x7e, 0x00, 0x42, 0x05, 0x0b],
        global_i32(false, &init3),
    ];
    let code = [0x23, 0x01, 0x23, 0x03, 0x10, 0x00, 0x0b];
    let wasm = module(&globals, &[body(&code)], &[active_data(0x2000, b"DATABASE_URL")]);
    let decoded = decode_module(&wasm).unwrap();
    assert_eq!(
        decoded.globals,
        vec![
            AbstractValue::Unknown,
            AbstractValue::Known(0x2000),
            AbstractValue::Unknown,
            AbstractValue::Known(12),
        ]
    );
    assert_eq!(scan_wasm_bytes(&wasm).unwrap(), vec!["DATABASE_URL"]);
}

#[test]
fn scan_of_a_segment_at_the_last_address() {
    let mut wasm = HEADER.to_vec();
    wasm.extend(section(5, &[vec![0x00, 0x01]]));
    wasm.extend(section(11, &[active_data(-1, b"AA")]));
    assert_eq!(scan_wasm_bytes(&wasm).unwrap(), Vec::<String>::new());
    assert!(scan_wasm_bytes(&[0u8; 8]).is_err());
}

#[test]
fn constant_expressions() {
    assert_eq!(extract_i32_const(&[Instr::I32Const(5), Instr::End]), Some(5));
    assert_eq!(extract_i32_const(&[Instr::I32Const(-5), Instr::End]), Some(-5));
    assert_eq!(extract_i32_const(&[Instr::I32Const(5)]), None);
    assert_eq!(extract_i32_const(&[]), None);
    assert_eq!(extract_i32_const(&[Instr::End]), None);
    assert_eq!(extract_i32_const(&[Instr::I64Const, Instr::End]), None);
    assert_eq!(extract_i32_const(&[Instr::GlobalGet(0), Instr::End]), None);
    assert_eq!(extract_i32_const(&[Instr::I32Const(5), Instr::Other]), None);
    assert_eq!(
        extract_i32_const(&[Instr::I32Const(5), Instr::I32Const(1), Instr::I32Add, Instr::End]),
        None
    );
    assert_eq!(extract_i32_const(&[Instr::I32Const(5), Instr::End, Instr::End]), None);

    assert_eq!(global_entry(&[Instr::I32Const(9), Instr::End]), AbstractValue::Known(9));
    assert_eq!(global_entry(&[Instr::F64Const, Instr::End]), AbstractValue::Unknown);
}

fn sample_module() -> Module {
    Module {
        segments: vec![
            DataSegment { offset: 0x2000, data: b"DATABASE_URLHTTP".to_vec() },
            DataSegment { offset: 0x3000, data: b"API_KEY".to_vec() },
        ],
        globals: vec![AbstractValue::Known(0x3000)],
        functions: vec![
            vec![Instr::I32Const(0x200c), Instr::I32Const(4), Instr::Call],
            vec![Instr::GlobalGet(0), Instr::I32Const(7), Instr::Call],
            vec![],
            vec![Instr::I32Const(0x2000), Instr::I32Const(12), Instr::Call],
            vec![Instr::GlobalGet(0), Instr::I32Const(7), Instr::Call],
        ],
    }
}

#[test]
fn scan_of_a_decoded_module() {
    let config = ScanConfig::standard();
    let module = sample_module();
    assert_eq!(scan_module(&module, &config), vec!["API_KEY", "DATABASE_URL"]);
    assert_eq!(collect_names(&module, &config).len(), 2);
    let empty = Module { segments: vec![], globals: vec![], functions: vec![] };
    assert_eq!(scan_module(&empty, &config), Vec::<String>::new());
}

#[test]
fn scan_does_not_depend_on_the_order_of_functions() {
    let config = ScanConfig::standard();
    let module = sample_module();
    let mut reversed = sample_module();
    reversed.functions.reverse();
    assert_eq!(scan_module(&module, &config), scan_module(&reversed, &config));
}

#[test]
fn scan_with_other_limits() {
    let module = sample_module();
    let mut config = ScanConfig::standard();
    config.limits = ScanLimits { pointer_floor: 0x2000, min_len: 3, max_len: 100 };
    assert_eq!(scan_module(&module, &config), vec!["API_KEY"]);
    config.limits = ScanLimits { pointer_floor: 0, min_len: 8, max_len: 100 };
    assert_eq!(scan_module(&module, &config), vec!["DATABASE_URL"]);
    config.limits = ScanLimits { pointer_floor: 0, min_len: 3, max_len: 7 };
    assert_eq!(scan_module(&module, &config), vec!["API_KEY"]);
    config.limits = ScanLimits::standard();
    config.policy.noise.clear();
    config.policy.min_letters = 3;
    config.policy.min_len = 3;
    assert_eq!(scan_module(&module, &config), vec!["API_KEY", "DATABASE_URL"]);
}
