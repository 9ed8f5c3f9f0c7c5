//! The serialized circuit metadata: the dual constant encoding and the
//! binary table formats.

use circom_backend::components::IODef;
use circom_backend::field;
use circom_backend::field::FieldElement;
use circom_backend::rust_gen::RustProducer;
use circom_backend::rust_gen::generate_dat_constant_list;
use circom_backend::rust_gen::generate_dat_from_hash_map;
use circom_backend::rust_gen::generate_dat_io_signals_info;
use circom_backend::rust_gen::generate_dat_witness_to_signal_list;
use circom_backend::rust_gen::montgomery_decode;
use circom_backend::rust_gen::argument_list;
use circom_backend::rust_gen::build_call;
use circom_backend::rust_gen::build_conditional;
use circom_backend::rust_gen::set_list;
use circom_backend::rust_gen::set_list_bool;
use circom_backend::rust_gen::collect_template_headers;
use circom_backend::rust_gen::declare_expaux;
use circom_backend::rust_gen::generate_function_list;
use circom_backend::components::InfoParallel;

fn producer() -> RustProducer {
    RustProducer {
        prime: "28948022309329048855892746252171976963363056481941560715954676764349967630337"
            .to_string(),
        size_32_bit: 8,
        main_input_list: Vec::new(),
        witness_to_signal_list: Vec::new(),
        field_constant_list: Vec::new(),
        io_map: Vec::new(),
        template_instance_list: Vec::new(),
        number_of_template_instances: 1,
    }
}

#[test]
fn dual_encoding_of_small_constant() {
    let bytes = generate_dat_constant_list(&producer(), &vec!["5".to_string()]);
    assert_eq!(bytes.len(), 40);
    // short slot with the value, then the short marker
    assert_eq!(&bytes[0..4], &[5, 0, 0, 0]);
    assert_eq!(&bytes[4..8], &[0, 0, 0, 0x40]);
}

#[test]
fn dual_encoding_of_minus_one_round_trips() {
    // the field constant "-1" encodes as the signed short form of -1 and a
    // Montgomery form that decodes back to the representation of p - 1
    let bytes = generate_dat_constant_list(&producer(), &vec!["-1".to_string()]);
    assert_eq!(bytes.len(), 40);
    assert_eq!(&bytes[0..4], &[255, 255, 255, 255]);
    assert_eq!(&bytes[4..8], &[0, 0, 0, 0x40]);
    let mont = FieldElement { bytes: bytes[8..40].to_vec() };
    let decoded = montgomery_decode(&mont);
    let minus_one = field::zero().sub(&field::one());
    assert!(field::equals(&decoded, &minus_one));
}

#[test]
fn dual_encoding_of_large_constant_is_long() {
    // 2^200 fits neither signed-32 bound, so the short slot is zero
    let s = "1606938044258990275541962092341162602522202993782792835301376";
    let bytes = generate_dat_constant_list(&producer(), &vec![s.to_string()]);
    assert_eq!(&bytes[0..4], &[0, 0, 0, 0]);
    assert_eq!(&bytes[4..8], &[0, 0, 0, 0xC0]);
    let mont = FieldElement { bytes: bytes[8..40].to_vec() };
    let decoded = montgomery_decode(&mont);
    assert!(field::equals(&decoded, &field::parse_field_element(s).unwrap()));
}

#[test]
fn hash_map_serialization() {
    let bytes = generate_dat_from_hash_map(&vec![(1u64, 2u64, 3u64)]);
    let mut expected = vec![0u8; 24];
    expected[0] = 1;
    expected[8] = 2;
    expected[16] = 3;
    assert_eq!(bytes, expected);
}

#[test]
fn signal_list_serialization() {
    let bytes = generate_dat_witness_to_signal_list(&vec![0usize, 1, 300]);
    assert_eq!(bytes.len(), 24);
    assert_eq!(&bytes[0..8], &[0, 0, 0, 0, 0, 0, 0, 0]);
    assert_eq!(&bytes[8..16], &[1, 0, 0, 0, 0, 0, 0, 0]);
    assert_eq!(&bytes[16..24], &[44, 1, 0, 0, 0, 0, 0, 0]);
}

#[test]
fn io_map_serialization() {
    let io_map = vec![(
        3usize,
        vec![IODef { code: 0, offset: 7, lengths: vec![2, 4] }],
    )];
    let bytes = generate_dat_io_signals_info(&producer(), &io_map);
    // template id, descriptor count, offset, trailing-dimension count, size
    assert_eq!(
        bytes,
        vec![
            3, 0, 0, 0, // template id
            1, 0, 0, 0, // one descriptor
            7, 0, 0, 0, // offset
            1, 0, 0, 0, // one dimension beyond the first
            4, 0, 0, 0, // its size
        ]
    );
}

#[test]
fn emitted_text_builders() {
    assert_eq!(declare_expaux(3), "FrElement expaux[3]");
    assert_eq!(
        argument_list(vec!["a".to_string(), "b".to_string(), "c".to_string()]),
        "a,b,c"
    );
    assert_eq!(build_call("f".to_string(), vec!["x".to_string()]), "f(x)");
    assert_eq!(set_list(vec![1, 2, 3]), "{1,2,3}");
    assert_eq!(set_list_bool(vec![true, false]), "{true,false}");
    assert_eq!(
        build_conditional("x == 0".to_string(), vec!["run();".to_string()], Vec::new()),
        vec!["if x == 0 {", "run();", "}"]
    );
}

#[test]
fn template_header_collection() {
    let headers = collect_template_headers(&vec![InfoParallel {
        name: "Multiply".to_string(),
        is_parallel: false,
        is_not_parallel: true,
    }]);
    assert_eq!(
        headers,
        vec![
            "void Multiply_create(uint soffset,uint coffset,Circom_CalcWit* ctx,std::string componentName,uint componentFather);",
            "void Multiply_run(uint ctx_index,Circom_CalcWit* ctx);",
        ]
    );
}

#[test]
fn function_list_generation() {
    let (seq_list, par_list) = generate_function_list(
        &producer(),
        &vec![
            InfoParallel {
                name: "Multiply".to_string(),
                is_parallel: false,
                is_not_parallel: true,
            },
            InfoParallel { name: "Other".to_string(), is_parallel: true, is_not_parallel: false },
        ],
    );
    assert_eq!(seq_list, "\nMultiply_run,\nNULL");
    assert_eq!(par_list, "\nNULL,\nOther_run_parallel");
}
