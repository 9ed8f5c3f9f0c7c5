//! The two code generators: instruction rendering, bytecode emission and
//! native-source emission over the same IR.

use circom_backend::ir::AddressType;
use circom_backend::ir::AssertBucket;
use circom_backend::ir::ComputeBucket;
use circom_backend::ir::Instruction;
use circom_backend::ir::LoadBucket;
use circom_backend::ir::LocationRule;
use circom_backend::ir::OperatorType;
use circom_backend::ir::ValueBucket;
use circom_backend::ir::ValueType;
use circom_backend::ir::InputInformation;
use circom_backend::ir::InstrContext;
use circom_backend::ir::StatusInput;
use circom_backend::ir::StoreBucket;
use circom_backend::rust_gen::RustProducer;
use circom_backend::text::merge_code;
use circom_backend::text::usize_to_string;
use circom_backend::wasm_gen::WASMProducer;
use circom_backend::wasm_gen;

fn value_u32(v: usize) -> Instruction {
    Instruction::Value(ValueBucket {
        line: 0,
        message_id: 0,
        parse_as: ValueType::U32,
        op_aux_no: 0,
        value: v,
    })
}

fn load_signal(offset: usize) -> Instruction {
    Instruction::Load(LoadBucket {
        line: 8,
        message_id: 0,
        address_type: AddressType::Signal,
        src: LocationRule::Indexed {
            location: Box::new(value_u32(offset)),
            template_header: None,
        },
    })
}

fn producer() -> WASMProducer {
    WASMProducer {
        needs_comments: false,
        expaux_tag: "$expaux".to_string(),
        aux_0_tag: "$aux0".to_string(),
        aux_1_tag: "$aux1".to_string(),
        aux_2_tag: "$aux2".to_string(),
        counter_tag: "$counter".to_string(),
        lvar_tag: "$lvar".to_string(),
        signal_start_tag: "$signalstart".to_string(),
        offset_tag: "$offset".to_string(),
        sub_cmp_tag: "$subcmp".to_string(),
        io_info_tag: "$ioinfo".to_string(),
        store_aux_1_tag: "$storeaux1".to_string(),
        store_aux_2_tag: "$storeaux2".to_string(),
        copy_counter_tag: "$copycounter".to_string(),
        merror_tag: "$merror".to_string(),
        call_lvar_tag: "$calllvar".to_string(),
        size_32_bits_in_memory: 8,
        sub_component_start_in_component: 20,
        signal_start_address_in_component: 12,
        template_instance_to_io_signal_start: 0,
        input_counter_address_in_component: 8,
        local_info_size_u32: 0,
        string_list_start: 0,
        size_of_message_in_bytes: 256,
        message_buffer_start: 0,
        message_buffer_counter_position: 0,
        constant_memory_start: 1024,
    }
}

fn rust_producer() -> RustProducer {
    RustProducer {
        prime: "28948022309329048855892746252171976963363056481941560715954676764349967630337"
            .to_string(),
        size_32_bit: 8,
        main_input_list: Vec::new(),
        witness_to_signal_list: Vec::new(),
        field_constant_list: Vec::new(),
        io_map: Vec::new(),
        template_instance_list: Vec::new(),
        number_of_template_instances: 1,
    }
}

#[test]
fn operator_rendering() {
    assert_eq!(OperatorType::Mul.to_string(), "MUL");
    assert_eq!(OperatorType::ShiftL.to_string(), "SHIFT_L");
    assert_eq!(OperatorType::Eq(3).to_string(), "EQ(3)");
    assert_eq!(OperatorType::AddAddress.to_string(), "ADD_ADDRESS");
}

#[test]
fn operator_classification() {
    assert!(OperatorType::ToAddress.is_address_op());
    assert!(OperatorType::MulAddress.is_address_op());
    assert!(!OperatorType::Mul.is_address_op());
    assert!(OperatorType::Eq(2).is_multiple_eq());
    assert!(!OperatorType::Eq(1).is_multiple_eq());
    assert!(!OperatorType::Sub.is_multiple_eq());
}

#[test]
fn instruction_rendering() {
    let v = value_u32(7);
    assert_eq!(
        v.to_string(),
        "VALUE(line:0,template_id:0,as:U32,op_number:0,value:7)"
    );
    let l = load_signal(1);
    assert_eq!(
        l.to_string(),
        "LOAD(line:8,template_id:0,address_type:SIGNAL,src:INDEXED:VALUE(line:0,template_id:0,as:U32,op_number:0,value:1))"
    );
    let c = Instruction::Compute(ComputeBucket {
        line: 8,
        message_id: 0,
        op: OperatorType::Mul,
        op_aux_no: 0,
        stack: vec![Box::new(load_signal(1)), Box::new(load_signal(2))],
    });
    let text = c.to_string();
    assert!(text.starts_with("COMPUTE(line:8,template_id:0,op_number:0,op:MUL,stack:"));
    assert!(text.ends_with(";)"));
}

#[test]
fn wasm_emission_of_leaves() {
    let p = producer();
    let v = value_u32(7);
    assert_eq!(v.produce_wasm(&p), vec!["i32.const 7"]);
    let l = load_signal(1);
    assert_eq!(
        l.produce_wasm(&p),
        vec![
            "i32.const 1",
            "i32.const 32",
            "i32.mul",
            "local.get $signalstart",
            "i32.add",
        ]
    );
}

#[test]
fn wasm_emission_of_compute() {
    let p = producer();
    let c = Instruction::Compute(ComputeBucket {
        line: 8,
        message_id: 0,
        op: OperatorType::Mul,
        op_aux_no: 0,
        stack: vec![Box::new(value_u32(1)), Box::new(value_u32(2))],
    });
    assert_eq!(
        c.produce_wasm(&p),
        vec![
            "local.get $expaux",
            "i32.const 0",
            "i32.add",
            "i32.const 1",
            "i32.const 2",
            "call $Fr_mul",
            "local.get $expaux",
            "i32.const 0",
            "i32.add",
        ]
    );
}

#[test]
fn wasm_emission_of_assert() {
    let p = producer();
    let a = Instruction::Assert(AssertBucket {
        line: 9,
        message_id: 2,
        evaluate: Box::new(value_u32(1)),
    });
    assert_eq!(
        a.produce_wasm(&p),
        vec![
            "i32.const 1",
            "call $Fr_isTrue",
            "i32.eqz",
            "if",
            "i32.const 2",
            "i32.const 9",
            "call $buildBufferMessage",
            "call $printErrorMessage",
            "i32.const 5",
            "return",
            "end",
        ]
    );
}

#[test]
fn wasm_helpers() {
    assert_eq!(wasm_gen::get_local("$x"), "local.get $x");
    assert_eq!(wasm_gen::set_constant("33"), "i32.const 33");
    assert_eq!(wasm_gen::add32(), "i32.add");
    assert_eq!(wasm_gen::load32(Some("8")), "i32.load offset=8");
    assert_eq!(wasm_gen::load32(None), "i32.load");
    assert_eq!(wasm_gen::call_indirect("$runsmap", "(type $t)"), "call_indirect $runsmap (type $t)");
    assert_eq!(wasm_gen::exception_code_assert_fail(), 5);
}

#[test]
fn rust_emission_of_compute() {
    let p = rust_producer();
    let c = Instruction::Compute(ComputeBucket {
        line: 8,
        message_id: 0,
        op: OperatorType::Mul,
        op_aux_no: 0,
        stack: vec![Box::new(load_signal(1)), Box::new(load_signal(2))],
    });
    let (lines, expr) = c.produce_rust(&p, Some(false));
    assert_eq!(expr, "expaux[0]");
    assert_eq!(
        lines,
        vec![
            "expaux[0] = (ctx.signals[signal_start + 1] * ctx.signals[signal_start + 2]); // circom line 8"
        ]
    );
}

#[test]
fn rust_emission_of_assert() {
    let p = rust_producer();
    let a = Instruction::Assert(AssertBucket {
        line: 4,
        message_id: 0,
        evaluate: Box::new(value_u32(1)),
    });
    let (lines, _) = a.produce_rust(&p, Some(false));
    assert_eq!(lines, vec!["assert!(field::is_true(1));"]);
}

#[test]
fn text_helpers() {
    assert_eq!(usize_to_string(305), "305");
    assert_eq!(usize_to_string(0), "0");
    assert_eq!(merge_code(vec!["a".to_string(), "b".to_string()]), "a\nb\n");
    assert_eq!(merge_code(Vec::new()), "\n");
}

#[test]
fn wat_round_trip() {
    let wasm = wasm_gen::wat_to_wasm("(module)").unwrap();
    assert_eq!(&wasm[0..4], b"\0asm");
    assert!(wasm_gen::wat_to_wasm("(not wat").is_err());
}

#[test]
fn wasm_emission_of_store_to_signal() {
    let p = producer();
    let s = Instruction::Store(StoreBucket {
        line: 5,
        message_id: 0,
        context: InstrContext { size: 1 },
        dest_is_output: false,
        dest_address_type: AddressType::Signal,
        dest: LocationRule::Indexed {
            location: Box::new(value_u32(1)),
            template_header: None,
        },
        src: Box::new(value_u32(7)),
    });
    assert_eq!(
        s.produce_wasm(&p),
        vec![
            "i32.const 1",
            "i32.const 32",
            "i32.mul",
            "local.get $signalstart",
            "i32.add",
            "i32.const 7",
            "call $Fr_copy",
        ]
    );
}

#[test]
fn wasm_emission_of_store_with_trigger() {
    let p = producer();
    let s = Instruction::Store(StoreBucket {
        line: 5,
        message_id: 1,
        context: InstrContext { size: 1 },
        dest_is_output: false,
        dest_address_type: AddressType::SubcmpSignal {
            cmp_address: Box::new(value_u32(0)),
            uniform_parallel_value: Some(false),
            input_information: InputInformation::Input { status: StatusInput::Last },
        },
        dest: LocationRule::Indexed {
            location: Box::new(value_u32(1)),
            template_header: Some("Multiply".to_string()),
        },
        src: Box::new(value_u32(7)),
    });
    let out = s.produce_wasm(&p);
    // the copy, the counter decrement, the zero test, and the run call
    assert!(out.contains(&"call $Fr_copy".to_string()));
    assert!(out.contains(&"i32.load offset=8".to_string()));
    assert!(out.contains(&"i32.store offset=8".to_string()));
    assert!(out.contains(&"i32.eqz".to_string()));
    assert!(out.contains(&"call $Multiply_run".to_string()));
    assert_eq!(out.last().unwrap(), "end");
}

#[test]
fn rust_emission_of_store_with_trigger() {
    let p = rust_producer();
    let s = Instruction::Store(StoreBucket {
        line: 5,
        message_id: 0,
        context: InstrContext { size: 1 },
        dest_is_output: false,
        dest_address_type: AddressType::SubcmpSignal {
            cmp_address: Box::new(value_u32(0)),
            uniform_parallel_value: Some(false),
            input_information: InputInformation::Input { status: StatusInput::Last },
        },
        dest: LocationRule::Indexed {
            location: Box::new(value_u32(1)),
            template_header: Some("Multiply".to_string()),
        },
        src: Box::new(value_u32(7)),
    });
    let (lines, expr) = s.produce_rust(&p, Some(false));
    assert_eq!(expr, "");
    assert_eq!(
        lines,
        vec![
            "{",
            "let cmp_index_ref = 0;",
            "{",
            "// load src",
            "// end load src",
            "ctx.signals[ctx.components[subcomponents[cmp_index_ref]].signal_start + 1] = 7;",
            "}",
            "// need to run sub component",
            "ctx.components[subcomponents[cmp_index_ref]].input_counter -= 1;",
            "assert!(ctx.components[subcomponents[cmp_index_ref]].input_counter == 0);",
            "Multiply_run(subcomponents[cmp_index_ref],ctx);",
            "}",
        ]
    );
}

#[test]
fn wasm_emission_of_long_equality() {
    let p = producer();
    let c = Instruction::Compute(ComputeBucket {
        line: 3,
        message_id: 0,
        op: OperatorType::Eq(2),
        op_aux_no: 0,
        stack: vec![Box::new(value_u32(5)), Box::new(value_u32(6))],
    });
    let out = c.produce_wasm(&p);
    // the comparison loop is emitted in full
    assert_eq!(out.len(), 40);
    assert!(out.contains(&"block".to_string()));
    assert!(out.contains(&"loop".to_string()));
    assert!(out.contains(&"call $Fr_eq".to_string()));
    assert!(out.contains(&"call $Fr_isTrue".to_string()));
    assert!(out.contains(&"br 0".to_string()));
}
