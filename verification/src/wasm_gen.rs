//! The bytecode backend: walks the bucket IR and emits stack-machine text
//! against one linear memory region. The emission state (scratch-slot tags,
//! layout offsets) travels in a producer value; every emitter returns the
//! exact instruction sequence its specification names.

use vstd::prelude::*;
use crate::ir::AddressType;
use crate::ir::AssertBucket;
use crate::ir::CallBucket;
use crate::ir::ComputeBucket;
use crate::ir::FinalData;
use crate::ir::InputInformation;
use crate::ir::InstrContext;
use crate::ir::Instruction;
use crate::ir::InstructionPointer;
use crate::ir::LoadBucket;
use crate::ir::LocationRule;
use crate::ir::LogBucket;
use crate::ir::LogBucketArg;
use crate::ir::OperatorType;
use crate::ir::ReturnType;
use crate::ir::StatusInput;
use crate::ir::StoreBucket;
use crate::ir::ValueBucket;
use crate::ir::ValueType;
use crate::ir::op_to_string_spec;
use crate::text::dec_str;
use crate::text::usize_to_string;
use crate::text::views;

verus! {

broadcast use crate::text::lemma_views_push, crate::text::lemma_views_add;

/// State threaded through bytecode emission: local tags for the fixed
/// scratch slots and the layout constants of the target memory.
pub struct WASMProducer {
    pub needs_comments: bool,
    pub expaux_tag: String,
    pub aux_0_tag: String,
    pub aux_1_tag: String,
    pub aux_2_tag: String,
    pub counter_tag: String,
    pub lvar_tag: String,
    pub signal_start_tag: String,
    pub offset_tag: String,
    pub sub_cmp_tag: String,
    pub io_info_tag: String,
    pub store_aux_1_tag: String,
    pub store_aux_2_tag: String,
    pub copy_counter_tag: String,
    pub merror_tag: String,
    pub call_lvar_tag: String,
    pub size_32_bits_in_memory: usize,
    pub sub_component_start_in_component: usize,
    pub signal_start_address_in_component: usize,
    pub template_instance_to_io_signal_start: usize,
    pub input_counter_address_in_component: usize,
    pub local_info_size_u32: usize,
    pub string_list_start: usize,
    pub size_of_message_in_bytes: usize,
    pub message_buffer_start: usize,
    pub message_buffer_counter_position: usize,
    pub constant_memory_start: usize,
}

impl WASMProducer {
    /// Bounds on the layout constants, so that every address computation
    /// made during emission fits a machine word.
    pub open spec fn wf(&self) -> bool {
        &&& self.size_32_bits_in_memory <= 256
        &&& 0 < self.size_32_bits_in_memory
        &&& self.sub_component_start_in_component < 0x10000
        &&& self.signal_start_address_in_component < 0x10000
        &&& self.template_instance_to_io_signal_start < 0x10000
        &&& self.input_counter_address_in_component < 0x10000
        &&& self.local_info_size_u32 < 0x10000
        &&& self.string_list_start < 0x10000
        &&& self.size_of_message_in_bytes < 0x10000
        &&& self.message_buffer_start < 0x10000
        &&& self.message_buffer_counter_position < 0x10000
        &&& self.constant_memory_start < 0x10000
    }
}

/// Bounds on the numeric payload of an address, so that emission-time
/// address arithmetic fits a machine word.
pub open spec fn address_wasm_wf(a: AddressType) -> bool
    decreases a,
{
    match a {
        AddressType::Variable => true,
        AddressType::Signal => true,
        AddressType::SubcmpSignal { cmp_address, .. } => instr_wasm_wf(*cmp_address),
    }
}

/// Bounds on the numeric payload of a location rule.
pub open spec fn location_wasm_wf(l: LocationRule) -> bool
    decreases l,
{
    match l {
        LocationRule::Indexed { location, .. } => instr_wasm_wf(*location),
        LocationRule::Mapped { signal_code, indexes } => signal_code < 0x4000
            && indexes@.len() <= 32 && forall|i: int|
            0 <= i < indexes@.len() ==> instr_wasm_wf(*#[trigger] indexes@[i]),
    }
}

/// Bounds on the numeric payload of a whole instruction tree.
pub open spec fn instr_wasm_wf(i: Instruction) -> bool
    decreases i,
{
    match i {
        Instruction::Value(b) => b.op_aux_no < 0x10000 && b.value < 0x10000,
        Instruction::Load(b) => address_wasm_wf(b.address_type) && location_wasm_wf(b.src),
        Instruction::Store(b) => b.context.size < 0x10000 && address_wasm_wf(b.dest_address_type)
            && location_wasm_wf(b.dest) && instr_wasm_wf(*b.src) && (b.dest is Mapped
            ==> b.dest_address_type is SubcmpSignal) && (match b.dest {
            LocationRule::Indexed { template_header, .. } => b.dest_address_type is SubcmpSignal
                ==> template_header is Some,
            LocationRule::Mapped { .. } => true,
        }),
        Instruction::Compute(b) => b.op_aux_no < 0x10000 && (b.op matches OperatorType::Eq(n)
            ==> 0 < n < 0x10000) && forall|i: int|
            0 <= i < b.stack@.len() ==> instr_wasm_wf(*#[trigger] b.stack@[i]),
        Instruction::Call(b) => (forall|i: int|
            0 <= i < b.arguments@.len() ==> instr_wasm_wf(*#[trigger] b.arguments@[i])) && (
        forall|i: int|
            0 <= i < b.argument_types@.len() ==> (#[trigger] b.argument_types@[i]).size
                < 0x1000) && b.argument_types@.len() == b.arguments@.len()
            && b.arguments@.len() < 128 && (match b.return_info {
            ReturnType::Intermediate { op_aux_no } => op_aux_no < 0x10000,
            ReturnType::Final(data) => data.context.size < 0x10000 && address_wasm_wf(
                data.dest_address_type,
            ) && location_wasm_wf(data.dest) && (data.dest is Mapped
                ==> data.dest_address_type is SubcmpSignal) && (match data.dest {
                LocationRule::Indexed { template_header, .. } => data.dest_address_type
                    is SubcmpSignal ==> template_header is Some,
                LocationRule::Mapped { .. } => true,
            }),
        }),
        Instruction::Assert(b) => instr_wasm_wf(*b.evaluate),
        Instruction::Log(b) => forall|i: int|
            0 <= i < b.argsprint@.len() ==> (match #[trigger] b.argsprint@[i] {
                LogBucketArg::LogExp(e) => instr_wasm_wf(*e),
                LogBucketArg::LogStr(id) => id < 0x8000,
            }),
    }
}

/// Read a local.
pub open spec fn w_get_local(t: Seq<char>) -> Seq<char> {
    "local.get "@ + t
}

/// Write a local.
pub open spec fn w_set_local(t: Seq<char>) -> Seq<char> {
    "local.set "@ + t
}

/// Write a local and keep the value on the stack.
pub open spec fn w_tee_local(t: Seq<char>) -> Seq<char> {
    "local.tee "@ + t
}

/// Push a 32-bit constant.
pub open spec fn w_set_constant(c: Seq<char>) -> Seq<char> {
    "i32.const "@ + c
}

/// 32-bit addition.
pub open spec fn w_add32() -> Seq<char> {
    "i32.add"@
}

/// 32-bit multiplication.
pub open spec fn w_mul32() -> Seq<char> {
    "i32.mul"@
}

/// 32-bit subtraction.
pub open spec fn w_sub32() -> Seq<char> {
    "i32.sub"@
}

/// Test for zero.
pub open spec fn w_eqz32() -> Seq<char> {
    "i32.eqz"@
}

/// Load a 32-bit word, with an optional static offset.
pub open spec fn w_load32(offset: Option<Seq<char>>) -> Seq<char> {
    match offset {
        Option::None => "i32.load"@,
        Option::Some(o) => "i32.load offset="@ + o,
    }
}

/// Store a 32-bit word, with an optional static offset.
pub open spec fn w_store32(offset: Option<Seq<char>>) -> Seq<char> {
    match offset {
        Option::None => "i32.store"@,
        Option::Some(o) => "i32.store offset="@ + o,
    }
}

/// Call a function by name.
pub open spec fn w_call(f: Seq<char>) -> Seq<char> {
    "call "@ + f
}

/// Call through a function table.
pub open spec fn w_call_indirect(table: Seq<char>, ty: Seq<char>) -> Seq<char> {
    "call_indirect "@ + table + " "@ + ty
}

/// Open a block.
pub open spec fn w_add_block() -> Seq<char> {
    "block"@
}

/// Open a loop.
pub open spec fn w_add_loop() -> Seq<char> {
    "loop"@
}

/// Conditional branch.
pub open spec fn w_br_if(label: Seq<char>) -> Seq<char> {
    "br_if "@ + label
}

/// Unconditional branch.
pub open spec fn w_br(label: Seq<char>) -> Seq<char> {
    "br "@ + label
}

/// Close a block, loop or conditional.
pub open spec fn w_add_end() -> Seq<char> {
    "end"@
}

/// Open a conditional.
pub open spec fn w_add_if() -> Seq<char> {
    "if"@
}

/// Return from the current function.
pub open spec fn w_add_return() -> Seq<char> {
    "return"@
}

/// A comment line.
pub open spec fn w_comment(text: Seq<char>) -> Seq<char> {
    ";; "@ + text
}

fn concat2(a: &str, b: &str) -> (r: String)
    ensures
        r@ == a@ + b@,
{
    let mut s = String::from_str(a);
    s.append(b);
    s
}

/// Read a local.
pub fn get_local(tag: &str) -> (r: String)
    ensures
        r@ == w_get_local(tag@),
{
    concat2("local.get ", tag)
}

/// Write a local.
pub fn set_local(tag: &str) -> (r: String)
    ensures
        r@ == w_set_local(tag@),
{
    concat2("local.set ", tag)
}

/// Write a local and keep the value on the stack.
pub fn tee_local(tag: &str) -> (r: String)
    ensures
        r@ == w_tee_local(tag@),
{
    concat2("local.tee ", tag)
}

/// Push a 32-bit constant.
pub fn set_constant(value: &str) -> (r: String)
    ensures
        r@ == w_set_constant(value@),
{
    concat2("i32.const ", value)
}

/// 32-bit addition.
pub fn add32() -> (r: String)
    ensures
        r@ == w_add32(),
{
    String::from_str("i32.add")
}

/// 32-bit multiplication.
pub fn mul32() -> (r: String)
    ensures
        r@ == w_mul32(),
{
    String::from_str("i32.mul")
}

/// 32-bit subtraction.
pub fn sub32() -> (r: String)
    ensures
        r@ == w_sub32(),
{
    String::from_str("i32.sub")
}

/// Test for zero.
pub fn eqz32() -> (r: String)
    ensures
        r@ == w_eqz32(),
{
    String::from_str("i32.eqz")
}

/// Load a 32-bit word, with an optional static offset.
pub fn load32(offset: Option<&str>) -> (r: String)
    ensures
        r@ == w_load32(match offset {
            Option::None => Option::None,
            Option::Some(o) => Option::Some(o@),
        }),
{
    match offset {
        Option::None => String::from_str("i32.load"),
        Option::Some(o) => concat2("i32.load offset=", o),
    }
}

/// Store a 32-bit word, with an optional static offset.
pub fn store32(offset: Option<&str>) -> (r: String)
    ensures
        r@ == w_store32(match offset {
            Option::None => Option::None,
            Option::Some(o) => Option::Some(o@),
        }),
{
    match offset {
        Option::None => String::from_str("i32.store"),
        Option::Some(o) => concat2("i32.store offset=", o),
    }
}

/// Call a function by name.
pub fn call(func: &str) -> (r: String)
    ensures
        r@ == w_call(func@),
{
    concat2("call ", func)
}

/// Call through a function table.
pub fn call_indirect(table: &str, ty: &str) -> (r: String)
    ensures
        r@ == w_call_indirect(table@, ty@),
{
    let mut s = String::from_str("call_indirect ");
    s.append(table);
    s.append(" ");
    s.append(ty);
    proof {
        assert(s@ =~= w_call_indirect(table@, ty@));
    }
    s
}

/// Open a block.
pub fn add_block() -> (r: String)
    ensures
        r@ == w_add_block(),
{
    String::from_str("block")
}

/// Open a loop.
pub fn add_loop() -> (r: String)
    ensures
        r@ == w_add_loop(),
{
    String::from_str("loop")
}

/// Conditional branch.
pub fn br_if(label: &str) -> (r: String)
    ensures
        r@ == w_br_if(label@),
{
    concat2("br_if ", label)
}

/// Unconditional branch.
pub fn br(label: &str) -> (r: String)
    ensures
        r@ == w_br(label@),
{
    concat2("br ", label)
}

/// Close a block, loop or conditional.
pub fn add_end() -> (r: String)
    ensures
        r@ == w_add_end(),
{
    String::from_str("end")
}

/// Open a conditional.
pub fn add_if() -> (r: String)
    ensures
        r@ == w_add_if(),
{
    String::from_str("if")
}

/// Return from the current function.
pub fn add_return() -> (r: String)
    ensures
        r@ == w_add_return(),
{
    String::from_str("return")
}

/// A comment line.
pub fn comment(text: &str) -> (r: String)
    ensures
        r@ == w_comment(text@),
{
    concat2(";; ", text)
}

/// The error code an emitted assertion failure aborts with.
pub fn exception_code_assert_fail() -> (r: usize)
    ensures
        r == 5,
{
    5
}


/// A comment line where the producer asks for comments, nothing otherwise.
pub open spec fn comment_if(p: WASMProducer, text: Seq<char>) -> Seq<Seq<char>> {
    if p.needs_comments {
        seq![w_comment(text)]
    } else {
        Seq::empty()
    }
}

/// The concatenated emissions of a list of sub-trees.
pub open spec fn instrs_wasm_spec(s: Seq<Box<Instruction>>, p: WASMProducer) -> Seq<Seq<char>>
    decreases s, 1int,
{
    if s.len() == 0 {
        Seq::empty()
    } else {
        instrs_wasm_spec(s.drop_last(), p) + instr_wasm_spec(*s.last(), p)
    }
}

/// The emission of a constant or variable leaf: a direct constant for a
/// 32-bit value, the address of the pool entry for a field constant.
pub open spec fn value_wasm_spec(b: ValueBucket, p: WASMProducer) -> Seq<Seq<char>> {
    match b.parse_as {
        ValueType::U32 => seq![w_set_constant(dec_str(b.value as nat))],
        ValueType::BigInt => seq![
            w_set_constant(
                dec_str(
                    (b.value * p.size_32_bits_in_memory * 4 + p.constant_memory_start) as nat,
                ),
            ),
        ],
    }
}

/// The emission of the base address of a storage region: the local that
/// holds local variables, the signal segment, or a subcomponent's signal
/// segment reached through the component table.
pub open spec fn address_base_wasm_spec(a: AddressType, p: WASMProducer) -> Seq<Seq<char>>
    decreases a, 1int,
{
    match a {
        AddressType::Variable => seq![w_get_local(p.lvar_tag@)],
        AddressType::Signal => seq![w_get_local(p.signal_start_tag@)],
        AddressType::SubcmpSignal { cmp_address, .. } => seq![
            w_get_local(p.offset_tag@),
            w_set_constant(dec_str(p.sub_component_start_in_component as nat)),
            w_add32(),
        ] + instr_wasm_spec(*cmp_address, p) + seq![
            w_set_constant("4"@),
            w_mul32(),
            w_add32(),
            w_load32(Option::None),
            w_set_local(p.sub_cmp_tag@),
            w_get_local(p.sub_cmp_tag@),
            w_set_constant(dec_str(p.signal_start_address_in_component as nat)),
            w_add32(),
            w_load32(Option::None),
        ],
    }
}

/// The emission of the dimension folds of a mapped address: for every index
/// beyond the first, multiply the move so far by the declared size of the
/// dimension and add the next index.
pub open spec fn mapped_dims_wasm_spec(s: Seq<Box<Instruction>>, p: WASMProducer) -> Seq<
    Seq<char>,
>
    decreases s, 0int,
{
    if s.len() <= 1 {
        Seq::empty()
    } else {
        mapped_dims_wasm_spec(s.drop_last(), p) + seq![
            w_get_local(p.io_info_tag@),
            w_load32(Option::Some(dec_str((4 * (s.len() - 1)) as nat))),
            w_mul32(),
        ] + instr_wasm_spec(*s.last(), p) + seq![w_add32()]
    }
}

/// The emission of the subcomponent selector of an address: locate the
/// subcomponent's entry in the component table and keep it in a local.
pub open spec fn subcmp_prefix_wasm_spec(a: AddressType, p: WASMProducer) -> Seq<Seq<char>>
    decreases a, 1int,
{
    match a {
        AddressType::SubcmpSignal { cmp_address, .. } => seq![
            w_get_local(p.offset_tag@),
            w_set_constant(dec_str(p.sub_component_start_in_component as nat)),
            w_add32(),
        ] + instr_wasm_spec(*cmp_address, p) + seq![
            w_set_constant("4"@),
            w_mul32(),
            w_add32(),
            w_load32(Option::None),
            w_set_local(p.sub_cmp_tag@),
        ],
        _ => Seq::empty(),
    }
}

/// The emission of the IO-table lookup of a mapped address: read the
/// subcomponent's template id and fetch the descriptor of the signal code.
pub open spec fn mapped_lookup_wasm_spec(signal_code: nat, p: WASMProducer) -> Seq<Seq<char>> {
    seq![
        w_get_local(p.sub_cmp_tag@),
        w_load32(Option::None),
        w_set_constant("4"@),
        w_mul32(),
        w_load32(Option::Some(dec_str(p.template_instance_to_io_signal_start as nat))),
        w_load32(Option::Some(dec_str(4 * signal_code))),
    ]
}

/// The emission of the index fold of a mapped address: the declared base
/// offset, then each index term multiplied by the sizes of the remaining
/// dimensions.
pub open spec fn mapped_fold_wasm_spec(indexes: Seq<Box<Instruction>>, p: WASMProducer) -> Seq<
    Seq<char>,
>
    decreases indexes, 1int,
{
    if indexes.len() <= 1 {
        seq![w_load32(Option::None)] + (if indexes.len() == 1 {
            instr_wasm_spec(*indexes[0], p) + seq![
                w_set_constant(dec_str((p.size_32_bits_in_memory * 4) as nat)),
                w_mul32(),
                w_add32(),
            ]
        } else {
            Seq::<Seq<char>>::empty()
        })
    } else {
        seq![
            w_set_local(p.io_info_tag@),
            w_get_local(p.io_info_tag@),
            w_load32(Option::None),
        ] + instr_wasm_spec(*indexes[0], p) + mapped_dims_wasm_spec(indexes, p) + seq![
            w_set_constant(dec_str((p.size_32_bits_in_memory * 4) as nat)),
            w_mul32(),
            w_add32(),
        ]
    }
}

/// The emission of the tail of a mapped address: add the subcomponent's
/// signal-segment start to the folded offset.
pub open spec fn mapped_suffix_wasm_spec(p: WASMProducer) -> Seq<Seq<char>> {
    seq![
        w_get_local(p.sub_cmp_tag@),
        w_set_constant(dec_str(p.signal_start_address_in_component as nat)),
        w_add32(),
        w_load32(Option::None),
        w_add32(),
    ]
}

/// The full emission of a mapped subcomponent address.
pub open spec fn mapped_address_wasm_spec(
    a: AddressType,
    signal_code: nat,
    indexes: Seq<Box<Instruction>>,
    p: WASMProducer,
) -> Seq<Seq<char>> {
    comment_if(p, "is subcomponent"@) + subcmp_prefix_wasm_spec(a, p) + mapped_lookup_wasm_spec(
        signal_code,
        p,
    ) + mapped_fold_wasm_spec(indexes, p) + mapped_suffix_wasm_spec(p)
}


/// The emission of a load: compute the source address and leave it on the
/// stack for the field operation that consumes it.
pub open spec fn load_wasm_spec(b: LoadBucket, p: WASMProducer) -> Seq<Seq<char>>
    decreases b, 1int,
{
    match b.src {
        LocationRule::Indexed { location, .. } => instr_wasm_spec(*location, p) + seq![
            w_set_constant(dec_str((p.size_32_bits_in_memory * 4) as nat)),
            w_mul32(),
        ] + address_base_wasm_spec(b.address_type, p) + seq![w_add32()],
        LocationRule::Mapped { signal_code, indexes } => match b.address_type {
            AddressType::SubcmpSignal { .. } => comment_if(p, "is subcomponent"@)
                + subcmp_prefix_wasm_spec(b.address_type, p) + mapped_lookup_wasm_spec(
                signal_code as nat,
                p,
            ) + mapped_fold_wasm_spec(indexes@, p) + mapped_suffix_wasm_spec(p),
            _ => Seq::empty(),
        },
    }
}


/// The emitted copy loop: move `size` consecutive field elements from the
/// source address to the destination address.
pub open spec fn copy_loop_wasm_spec(size: nat, p: WASMProducer) -> Seq<Seq<char>> {
    seq![
        w_set_local(p.store_aux_2_tag@),
        w_set_constant(dec_str(size)),
        w_set_local(p.copy_counter_tag@),
        w_add_block(),
        w_add_loop(),
        w_get_local(p.copy_counter_tag@),
        w_eqz32(),
        w_br_if("1"@),
        w_get_local(p.store_aux_1_tag@),
        w_get_local(p.store_aux_2_tag@),
        w_call("$Fr_copy"@),
        w_get_local(p.copy_counter_tag@),
        w_set_constant("1"@),
        w_sub32(),
        w_set_local(p.copy_counter_tag@),
        w_get_local(p.store_aux_1_tag@),
        w_set_constant(dec_str((p.size_32_bits_in_memory * 4) as nat)),
        w_add32(),
        w_set_local(p.store_aux_1_tag@),
        w_get_local(p.store_aux_2_tag@),
        w_set_constant(dec_str((p.size_32_bits_in_memory * 4) as nat)),
        w_add32(),
        w_set_local(p.store_aux_2_tag@),
        w_br("0"@),
        w_add_end(),
        w_add_end(),
    ]
}

/// The emitted test-and-trigger block after a write into a subcomponent:
/// decrement the input counter by the number of elements written, and when
/// it reaches zero run the subcomponent, checking its error code.
pub open spec fn trigger_wasm_spec(
    dest: LocationRule,
    message_id: nat,
    line: nat,
    size: nat,
    p: WASMProducer,
) -> Seq<Seq<char>> {
    comment_if(p, "decrease counter"@) + seq![
        w_get_local(p.sub_cmp_tag@),
        w_get_local(p.sub_cmp_tag@),
        w_load32(Option::Some(dec_str(p.input_counter_address_in_component as nat))),
        w_set_constant(dec_str(size)),
        w_sub32(),
        w_store32(Option::Some(dec_str(p.input_counter_address_in_component as nat))),
    ] + comment_if(p, "check if run is needed"@) + seq![
        w_get_local(p.sub_cmp_tag@),
        w_load32(Option::Some(dec_str(p.input_counter_address_in_component as nat))),
        w_eqz32(),
        w_add_if(),
    ] + comment_if(p, "run sub component"@) + seq![w_get_local(p.sub_cmp_tag@)] + (match dest {
        LocationRule::Indexed { template_header, .. } => match template_header {
            Option::Some(name) => seq![
                w_call("$"@ + name@ + "_run"@),
                w_tee_local(p.merror_tag@),
                w_add_if(),
                w_set_constant(dec_str(message_id)),
                w_set_constant(dec_str(line)),
                w_call("$buildBufferMessage"@),
                w_call("$printErrorMessage"@),
                w_get_local(p.merror_tag@),
                w_add_return(),
                w_add_end(),
            ],
            Option::None => Seq::<Seq<char>>::empty(),
        },
        LocationRule::Mapped { .. } => seq![
            w_get_local(p.sub_cmp_tag@),
            w_load32(Option::None),
            w_call_indirect("$runsmap"@, "(type $_t_i32ri32)"@),
            w_tee_local(p.merror_tag@),
            w_add_if(),
            w_set_constant(dec_str(message_id)),
            w_set_constant(dec_str(line)),
            w_call("$buildBufferMessage"@),
            w_call("$printErrorMessage"@),
            w_get_local(p.merror_tag@),
            w_add_return(),
            w_add_end(),
        ],
    }) + comment_if(p, "end run sub component"@) + seq![w_add_end()]
}

/// The emitted field-operation call of a compute node's operator; a long
/// equality compiles to a counted comparison loop that stops on the first
/// mismatch.
pub open spec fn compute_op_call_wasm_spec(op: OperatorType, p: WASMProducer) -> Seq<Seq<char>> {
    match op {
        OperatorType::Add => seq![w_call("$Fr_add"@)],
        OperatorType::Div => seq![w_call("$Fr_div"@)],
        OperatorType::Mul => seq![w_call("$Fr_mul"@)],
        OperatorType::Sub => seq![w_call("$Fr_sub"@)],
        OperatorType::Pow => seq![w_call("$Fr_pow"@)],
        OperatorType::IntDiv => seq![w_call("$Fr_idiv"@)],
        OperatorType::Mod => seq![w_call("$Fr_mod"@)],
        OperatorType::ShiftL => seq![w_call("$Fr_shl"@)],
        OperatorType::ShiftR => seq![w_call("$Fr_shr"@)],
        OperatorType::LesserEq => seq![w_call("$Fr_leq"@)],
        OperatorType::GreaterEq => seq![w_call("$Fr_geq"@)],
        OperatorType::Lesser => seq![w_call("$Fr_lt"@)],
        OperatorType::Greater => seq![w_call("$Fr_gt"@)],
        OperatorType::Eq(n) => if n == 1 {
            seq![w_call("$Fr_eq"@)]
        } else {
            eq_loop_wasm_spec(n as nat, p)
        },
        OperatorType::NotEq => seq![w_call("$Fr_neq"@)],
        OperatorType::BoolOr => seq![w_call("$Fr_lor"@)],
        OperatorType::BoolAnd => seq![w_call("$Fr_land"@)],
        OperatorType::BitOr => seq![w_call("$Fr_bor"@)],
        OperatorType::BitAnd => seq![w_call("$Fr_band"@)],
        OperatorType::BitXor => seq![w_call("$Fr_bxor"@)],
        OperatorType::PrefixSub => seq![w_call("$Fr_neg"@)],
        OperatorType::BoolNot => seq![w_call("$Fr_lnot"@)],
        OperatorType::Complement => seq![w_call("$Fr_bnot"@)],
        OperatorType::ToAddress => Seq::empty(),
        OperatorType::MulAddress => Seq::empty(),
        OperatorType::AddAddress => Seq::empty(),
    }
}

/// The emitted counted loop comparing `n` consecutive field-element pairs,
/// short-circuiting on the first mismatch.
pub open spec fn eq_loop_wasm_spec(n: nat, p: WASMProducer) -> Seq<Seq<char>> {
    seq![
        w_set_local(p.aux_2_tag@),
        w_set_local(p.aux_1_tag@),
        w_set_local(p.aux_0_tag@),
        w_set_constant(dec_str(n)),
        w_set_local(p.counter_tag@),
        w_add_block(),
        w_add_loop(),
        w_get_local(p.aux_0_tag@),
        w_get_local(p.aux_1_tag@),
        w_get_local(p.aux_2_tag@),
        w_call("$Fr_eq"@),
        w_get_local(p.aux_0_tag@),
        w_call("$Fr_isTrue"@),
        w_eqz32(),
        w_br_if("1"@),
        w_get_local(p.counter_tag@),
        w_set_constant("1"@),
        w_sub32(),
        w_tee_local(p.counter_tag@),
        w_eqz32(),
        w_br_if("1"@),
        w_get_local(p.aux_1_tag@),
        w_set_constant(dec_str((p.size_32_bits_in_memory * 4) as nat)),
        w_add32(),
        w_set_local(p.aux_1_tag@),
        w_get_local(p.aux_2_tag@),
        w_set_constant(dec_str((p.size_32_bits_in_memory * 4) as nat)),
        w_add32(),
        w_set_local(p.aux_2_tag@),
        w_br("0"@),
        w_add_end(),
        w_add_end(),
    ]
}

/// The emission of a compute node: the result slot address, the operands,
/// then the operation.
pub open spec fn compute_wasm_spec(b: ComputeBucket, p: WASMProducer) -> Seq<Seq<char>>
    decreases b, 1int,
{
    comment_if(p, "compute bucket"@) + (match b.op {
        OperatorType::AddAddress => Seq::<Seq<char>>::empty(),
        OperatorType::MulAddress => Seq::<Seq<char>>::empty(),
        OperatorType::ToAddress => Seq::<Seq<char>>::empty(),
        _ => seq![
            w_get_local(p.expaux_tag@),
            w_set_constant(dec_str((b.op_aux_no * p.size_32_bits_in_memory * 4) as nat)),
            w_add32(),
        ],
    }) + instrs_wasm_spec(b.stack@, p) + comment_if(
        p,
        "OP("@ + op_to_string_spec(b.op) + ")"@,
    ) + (match b.op {
        OperatorType::AddAddress => seq![w_add32()],
        OperatorType::MulAddress => seq![w_mul32()],
        OperatorType::ToAddress => seq![w_call("$Fr_toInt"@)],
        _ => compute_op_call_wasm_spec(b.op, p) + seq![
            w_get_local(p.expaux_tag@),
            w_set_constant(dec_str((b.op_aux_no * p.size_32_bits_in_memory * 4) as nat)),
            w_add32(),
        ],
    }) + comment_if(p, "end of compute bucket"@)
}

/// The emission of a store node: destination address, source value, copy,
/// and for a subcomponent input the counter update and trigger.
pub open spec fn store_wasm_spec(b: StoreBucket, p: WASMProducer) -> Seq<Seq<char>>
    decreases b, 1int,
{
    if b.context.size == 0 {
        Seq::empty()
    } else {
        comment_if(p, "store bucket. Line "@ + dec_str(b.line as nat)) + comment_if(
            p,
            "getting dest"@,
        ) + (match b.dest {
            LocationRule::Indexed { location, .. } => instr_wasm_spec(*location, p) + seq![
                w_set_constant(dec_str((p.size_32_bits_in_memory * 4) as nat)),
                w_mul32(),
            ] + address_base_wasm_spec(b.dest_address_type, p) + seq![w_add32()],
            LocationRule::Mapped { signal_code, indexes } => match b.dest_address_type {
                AddressType::SubcmpSignal { .. } => comment_if(p, "is subcomponent"@)
                    + subcmp_prefix_wasm_spec(b.dest_address_type, p) + mapped_lookup_wasm_spec(
                    signal_code as nat,
                    p,
                ) + mapped_fold_wasm_spec(indexes@, p) + mapped_suffix_wasm_spec(p),
                _ => Seq::empty(),
            },
        }) + comment_if(p, "getting src"@) + (if b.context.size > 1 {
            seq![w_set_local(p.store_aux_1_tag@)]
        } else {
            Seq::<Seq<char>>::empty()
        }) + instr_wasm_spec(*b.src, p) + (if b.context.size == 1 {
            seq![w_call("$Fr_copy"@)]
        } else {
            copy_loop_wasm_spec(b.context.size as nat, p)
        }) + (match b.dest_address_type {
            AddressType::SubcmpSignal { .. } => trigger_wasm_spec(
                b.dest,
                b.message_id as nat,
                b.line as nat,
                b.context.size as nat,
                p,
            ),
            _ => Seq::<Seq<char>>::empty(),
        }) + comment_if(p, "end of store bucket"@)
    }
}

/// The linear-memory offset of the `i`th call argument: the sizes of the
/// arguments before it, in bytes.
pub open spec fn args_offset(types: Seq<InstrContext>, i: int, p: WASMProducer) -> nat
    decreases i,
{
    if i <= 0 {
        0
    } else {
        (args_offset(types, i - 1, p) + types[i - 1].size * 4 * p.size_32_bits_in_memory) as nat
    }
}

/// The emission of the argument copies of a call: each argument lands at
/// its offset in the callee's arena.
pub open spec fn call_args_wasm_spec(
    args: Seq<Box<Instruction>>,
    types: Seq<InstrContext>,
    p: WASMProducer,
) -> Seq<Seq<char>>
    decreases args, 1int,
{
    if args.len() == 0 {
        Seq::empty()
    } else {
        let i = args.len() - 1;
        call_args_wasm_spec(args.drop_last(), types.drop_last(), p) + comment_if(
            p,
            "copying argument "@ + dec_str(i as nat),
        ) + seq![
            w_get_local(p.call_lvar_tag@),
            w_set_constant(dec_str(args_offset(types, i, p))),
            w_add32(),
        ] + (if types[i].size > 1 {
            seq![w_set_local(p.store_aux_1_tag@)]
        } else {
            Seq::<Seq<char>>::empty()
        }) + instr_wasm_spec(*args.last(), p) + (if types[i].size == 1 {
            seq![w_call("$Fr_copy"@)]
        } else {
            copy_loop_wasm_spec(types[i].size as nat, p)
        }) + comment_if(p, "end copying argument "@ + dec_str(i as nat))
    }
}

/// The emission of a call node: copy the arguments into the callee's arena,
/// call it, check its error code, and handle the result slot or final
/// destination with its trigger where the destination is a subcomponent.
pub open spec fn call_wasm_spec(b: CallBucket, p: WASMProducer) -> Seq<Seq<char>>
    decreases b, 1int,
{
    comment_if(p, "call bucket"@) + (if b.arguments@.len() > 0 {
        seq![w_set_constant("0"@), w_load32(Option::None)] + (if p.local_info_size_u32 != 0 {
            seq![w_set_constant(dec_str((p.local_info_size_u32 * 4) as nat)), w_add32()]
        } else {
            Seq::<Seq<char>>::empty()
        }) + seq![w_set_local(p.call_lvar_tag@)] + call_args_wasm_spec(
            b.arguments@,
            b.argument_types@,
            p,
        )
    } else {
        Seq::<Seq<char>>::empty()
    }) + (match b.return_info {
        ReturnType::Intermediate { op_aux_no } => seq![
            w_get_local(p.expaux_tag@),
            w_set_constant(dec_str(op_aux_no as nat)),
            w_add32(),
            w_set_constant("1"@),
            w_call("$"@ + b.symbol@),
            w_tee_local(p.merror_tag@),
            w_add_if(),
            w_call("$printErrorMessage"@),
            w_get_local(p.merror_tag@),
            w_add_return(),
            w_add_end(),
            w_get_local(p.expaux_tag@),
            w_set_constant(dec_str(op_aux_no as nat)),
            w_add32(),
        ],
        ReturnType::Final(data) => (match data.dest {
            LocationRule::Indexed { location, .. } => comment_if(p, "getting result address"@)
                + instr_wasm_spec(*location, p) + seq![
                w_set_constant(dec_str((p.size_32_bits_in_memory * 4) as nat)),
                w_mul32(),
            ] + address_base_wasm_spec(data.dest_address_type, p) + seq![w_add32()],
            LocationRule::Mapped { signal_code, indexes } => match data.dest_address_type {
                AddressType::SubcmpSignal { .. } => comment_if(p, "is subcomponent"@)
                    + subcmp_prefix_wasm_spec(data.dest_address_type, p)
                    + mapped_lookup_wasm_spec(signal_code as nat, p) + mapped_fold_wasm_spec(
                    indexes@,
                    p,
                ) + mapped_suffix_wasm_spec(p),
                _ => Seq::empty(),
            },
        }) + seq![
            w_set_constant(dec_str(data.context.size as nat)),
            w_call("$"@ + b.symbol@),
            w_tee_local(p.merror_tag@),
            w_add_if(),
            w_set_constant(dec_str(b.message_id as nat)),
            w_set_constant(dec_str(b.line as nat)),
            w_call("$buildBufferMessage"@),
            w_call("$printErrorMessage"@),
            w_get_local(p.merror_tag@),
            w_add_return(),
            w_add_end(),
        ] + (match data.dest_address_type {
            AddressType::SubcmpSignal { .. } => trigger_wasm_spec(
                data.dest,
                b.message_id as nat,
                b.line as nat,
                data.context.size as nat,
                p,
            ),
            _ => Seq::<Seq<char>>::empty(),
        }),
    }) + comment_if(p, "end call bucket"@)
}

/// The emission of an assert node: evaluate the condition and abort with
/// the assertion-failure code when it does not hold.
pub open spec fn assert_wasm_spec(b: AssertBucket, p: WASMProducer) -> Seq<Seq<char>>
    decreases b, 1int,
{
    comment_if(p, "assert bucket"@) + instr_wasm_spec(*b.evaluate, p) + seq![
        w_call("$Fr_isTrue"@),
        w_eqz32(),
        w_add_if(),
        w_set_constant(dec_str(b.message_id as nat)),
        w_set_constant(dec_str(b.line as nat)),
        w_call("$buildBufferMessage"@),
        w_call("$printErrorMessage"@),
        w_set_constant(dec_str(5)),
        w_add_return(),
        w_add_end(),
    ] + comment_if(p, "end of assert bucket"@)
}

/// The emission of the arguments of a log node: expression values are
/// shown through the shared memory, static strings by table lookup.
pub open spec fn log_args_wasm_spec(s: Seq<LogBucketArg>, p: WASMProducer) -> Seq<Seq<char>>
    decreases s, 1int,
{
    if s.len() == 0 {
        Seq::empty()
    } else {
        log_args_wasm_spec(s.drop_last(), p) + (match s.last() {
            LogBucketArg::LogExp(e) => instr_wasm_spec(*e, p) + seq![
                w_call("$copyFr2SharedRWMemory"@),
                w_call("$showSharedRWMemory"@),
            ],
            LogBucketArg::LogStr(id) => seq![
                w_set_constant(
                    dec_str((p.string_list_start + id * p.size_of_message_in_bytes) as nat),
                ),
                w_call("$buildLogMessage"@),
                w_call("$writeBufferMessage"@),
            ],
        })
    }
}

/// The emission of a log node: each argument in order, then the newline
/// marker and the buffer flush.
pub open spec fn log_wasm_spec(b: LogBucket, p: WASMProducer) -> Seq<Seq<char>>
    decreases b, 1int,
{
    comment_if(p, "log bucket"@) + log_args_wasm_spec(b.argsprint@, p) + seq![
        w_set_constant(dec_str(p.message_buffer_start as nat)),
        w_set_constant("0x0000000a"@),
        w_store32(Option::None),
        w_set_constant(dec_str(p.message_buffer_counter_position as nat)),
        w_set_constant("0"@),
        w_store32(Option::None),
        w_call("$writeBufferMessage"@),
    ] + comment_if(p, "end of log bucket"@)
}

/// The emission of one instruction.
pub open spec fn instr_wasm_spec(i: Instruction, p: WASMProducer) -> Seq<Seq<char>>
    decreases i, 0int,
{
    match i {
        Instruction::Value(b) => value_wasm_spec(b, p),
        Instruction::Load(b) => load_wasm_spec(b, p),
        Instruction::Store(b) => store_wasm_spec(b, p),
        Instruction::Compute(b) => compute_wasm_spec(b, p),
        Instruction::Call(b) => call_wasm_spec(b, p),
        Instruction::Assert(b) => assert_wasm_spec(b, p),
        Instruction::Log(b) => log_wasm_spec(b, p),
    }
}


proof fn lemma_offset_bound(n: nat, s: nat)
    requires
        n < 0x10000,
        s <= 256,
    ensures
        n * s * 4 <= 0x4000000,
{
    assert(n * s <= 0x10000 * 256) by (nonlinear_arith)
        requires
            n <= 0x10000,
            s <= 256,
    ;
}

/// The scratch-slot byte offset of an expression slot.
fn expaux_offset(n: usize, p: &WASMProducer) -> (r: usize)
    requires
        n < 0x10000,
        p.wf(),
    ensures
        r == n * p.size_32_bits_in_memory * 4,
        r <= 0x4000000,
{
    proof {
        lemma_offset_bound(n as nat, p.size_32_bits_in_memory as nat);
    }
    n * p.size_32_bits_in_memory * 4
}

/// Append a comment line when the producer asks for comments.
fn emit_comment(instructions: &mut Vec<String>, p: &WASMProducer, text: &str)
    ensures
        views(final (instructions)@) == views(old(instructions)@) + comment_if(*p, text@),
{
    if p.needs_comments {
        instructions.push(comment(text));
    }
    proof {
        assert(views(instructions@) =~= views(old(instructions)@) + comment_if(*p, text@));
    }
}

/// Emit the copy loop that moves `size` field elements.
fn emit_copy_loop(p: &WASMProducer, size: usize) -> (r: Vec<String>)
    requires
        p.wf(),
    ensures
        views(r@) == copy_loop_wasm_spec(size as nat, *p),
{
    let mut v: Vec<String> = Vec::new();
    let s4: usize = p.size_32_bits_in_memory * 4;
    let size_str = usize_to_string(size);
    let s4_str = usize_to_string(s4);
    v.push(set_local(p.store_aux_2_tag.as_str()));
    v.push(set_constant(size_str.as_str()));
    v.push(set_local(p.copy_counter_tag.as_str()));
    v.push(add_block());
    v.push(add_loop());
    v.push(get_local(p.copy_counter_tag.as_str()));
    v.push(eqz32());
    v.push(br_if("1"));
    v.push(get_local(p.store_aux_1_tag.as_str()));
    v.push(get_local(p.store_aux_2_tag.as_str()));
    v.push(call("$Fr_copy"));
    v.push(get_local(p.copy_counter_tag.as_str()));
    v.push(set_constant("1"));
    v.push(sub32());
    v.push(set_local(p.copy_counter_tag.as_str()));
    v.push(get_local(p.store_aux_1_tag.as_str()));
    v.push(set_constant(s4_str.as_str()));
    v.push(add32());
    v.push(set_local(p.store_aux_1_tag.as_str()));
    v.push(get_local(p.store_aux_2_tag.as_str()));
    v.push(set_constant(s4_str.as_str()));
    v.push(add32());
    v.push(set_local(p.store_aux_2_tag.as_str()));
    v.push(br("0"));
    v.push(add_end());
    v.push(add_end());
    proof {
        assert(views(v@) =~= copy_loop_wasm_spec(size as nat, *p));
    }
    v
}

/// Emit the counter decrement and test-and-trigger block that follows a
/// write into a subcomponent's input region.
#[verifier::rlimit(60)]
fn emit_trigger(
    p: &WASMProducer,
    dest: &LocationRule,
    message_id: usize,
    line: usize,
    size: usize,
) -> (r: Vec<String>)
    requires
        p.wf(),
    ensures
        views(r@) == trigger_wasm_spec(*dest, message_id as nat, line as nat, size as nat, *p),
{
    let mut v: Vec<String> = Vec::new();
    let counter_str = usize_to_string(p.input_counter_address_in_component);
    let size_str = usize_to_string(size);
    emit_comment(&mut v, p, "decrease counter");
    v.push(get_local(p.sub_cmp_tag.as_str()));
    v.push(get_local(p.sub_cmp_tag.as_str()));
    v.push(load32(Some(counter_str.as_str())));
    v.push(set_constant(size_str.as_str()));
    v.push(sub32());
    v.push(store32(Some(counter_str.as_str())));
    emit_comment(&mut v, p, "check if run is needed");
    v.push(get_local(p.sub_cmp_tag.as_str()));
    v.push(load32(Some(counter_str.as_str())));
    v.push(eqz32());
    v.push(add_if());
    emit_comment(&mut v, p, "run sub component");
    v.push(get_local(p.sub_cmp_tag.as_str()));
    let ghost mid: Seq<Seq<char>> = views(v@);
    match dest {
        LocationRule::Indexed { template_header, .. } => {
            match template_header {
                Option::Some(name) => {
                    let mut f = String::from_str("$");
                    f.append(name.as_str());
                    f.append("_run");
                    v.push(call(f.as_str()));
                    v.push(tee_local(p.merror_tag.as_str()));
                    v.push(add_if());
                    let t1 = usize_to_string(message_id);
                    v.push(set_constant(t1.as_str()));
                    let t2 = usize_to_string(line);
                    v.push(set_constant(t2.as_str()));
                    v.push(call("$buildBufferMessage"));
                    v.push(call("$printErrorMessage"));
                    v.push(get_local(p.merror_tag.as_str()));
                    v.push(add_return());
                    v.push(add_end());
                    proof {
                        assert(f@ =~= "$"@ + name@ + "_run"@);
                    }
                },
                Option::None => {},
            }
        },
        LocationRule::Mapped { .. } => {
            v.push(get_local(p.sub_cmp_tag.as_str()));
            v.push(load32(None));
            v.push(call_indirect("$runsmap", "(type $_t_i32ri32)"));
            v.push(tee_local(p.merror_tag.as_str()));
            v.push(add_if());
            let t1 = usize_to_string(message_id);
            v.push(set_constant(t1.as_str()));
            let t2 = usize_to_string(line);
            v.push(set_constant(t2.as_str()));
            v.push(call("$buildBufferMessage"));
            v.push(call("$printErrorMessage"));
            v.push(get_local(p.merror_tag.as_str()));
            v.push(add_return());
            v.push(add_end());
        },
    }
    proof {
        assert(views(v@) =~= mid + (match *dest {
            LocationRule::Indexed { template_header, .. } => match template_header {
                Option::Some(name) => seq![
                    w_call("$"@ + name@ + "_run"@),
                    w_tee_local(p.merror_tag@),
                    w_add_if(),
                    w_set_constant(dec_str(message_id as nat)),
                    w_set_constant(dec_str(line as nat)),
                    w_call("$buildBufferMessage"@),
                    w_call("$printErrorMessage"@),
                    w_get_local(p.merror_tag@),
                    w_add_return(),
                    w_add_end(),
                ],
                Option::None => Seq::<Seq<char>>::empty(),
            },
            LocationRule::Mapped { .. } => seq![
                w_get_local(p.sub_cmp_tag@),
                w_load32(Option::None),
                w_call_indirect("$runsmap"@, "(type $_t_i32ri32)"@),
                w_tee_local(p.merror_tag@),
                w_add_if(),
                w_set_constant(dec_str(message_id as nat)),
                w_set_constant(dec_str(line as nat)),
                w_call("$buildBufferMessage"@),
                w_call("$printErrorMessage"@),
                w_get_local(p.merror_tag@),
                w_add_return(),
                w_add_end(),
            ],
        }));
    }
    emit_comment(&mut v, p, "end run sub component");
    v.push(add_end());
    proof {
        assert(views(v@) =~= trigger_wasm_spec(
            *dest,
            message_id as nat,
            line as nat,
            size as nat,
            *p,
        ));
    }
    v
}

/// Emit the base address of a storage region.
fn emit_address_base(at: &AddressType, p: &WASMProducer) -> (r: Vec<String>)
    requires
        p.wf(),
        address_wasm_wf(*at),
    ensures
        views(r@) == address_base_wasm_spec(*at, *p),
    decreases at, 1int,
{
    let mut v: Vec<String> = Vec::new();
    match at {
        AddressType::Variable => {
            v.push(get_local(p.lvar_tag.as_str()));
        },
        AddressType::Signal => {
            v.push(get_local(p.signal_start_tag.as_str()));
        },
        AddressType::SubcmpSignal { cmp_address, .. } => {
            v.push(get_local(p.offset_tag.as_str()));
            let t1 = usize_to_string(p.sub_component_start_in_component);
            v.push(set_constant(t1.as_str()));
            v.push(add32());
            let mut inner = cmp_address.produce_wasm(p);
            v.append(&mut inner);
            v.push(set_constant("4"));
            v.push(mul32());
            v.push(add32());
            v.push(load32(None));
            v.push(set_local(p.sub_cmp_tag.as_str()));
            v.push(get_local(p.sub_cmp_tag.as_str()));
            let t2 = usize_to_string(p.signal_start_address_in_component);
            v.push(set_constant(t2.as_str()));
            v.push(add32());
            v.push(load32(None));
        },
    }
    proof {
        assert(views(v@) =~= address_base_wasm_spec(*at, *p));
    }
    v
}

/// Emit the subcomponent selector of an address.
fn emit_subcmp_prefix(at: &AddressType, p: &WASMProducer) -> (r: Vec<String>)
    requires
        p.wf(),
        address_wasm_wf(*at),
    ensures
        views(r@) == subcmp_prefix_wasm_spec(*at, *p),
    decreases at, 1int,
{
    let mut v: Vec<String> = Vec::new();
    match at {
        AddressType::SubcmpSignal { cmp_address, .. } => {
            v.push(get_local(p.offset_tag.as_str()));
            let t1 = usize_to_string(p.sub_component_start_in_component);
            v.push(set_constant(t1.as_str()));
            v.push(add32());
            let mut inner = cmp_address.produce_wasm(p);
            v.append(&mut inner);
            v.push(set_constant("4"));
            v.push(mul32());
            v.push(add32());
            v.push(load32(None));
            v.push(set_local(p.sub_cmp_tag.as_str()));
        },
        _ => {},
    }
    proof {
        assert(views(v@) =~= subcmp_prefix_wasm_spec(*at, *p));
    }
    v
}

/// Emit the IO-table lookup of a mapped address.
fn emit_mapped_lookup(signal_code: usize, p: &WASMProducer) -> (r: Vec<String>)
    requires
        p.wf(),
        signal_code < 0x4000,
    ensures
        views(r@) == mapped_lookup_wasm_spec(signal_code as nat, *p),
{
    let mut v: Vec<String> = Vec::new();
    v.push(get_local(p.sub_cmp_tag.as_str()));
    v.push(load32(None));
    v.push(set_constant("4"));
    v.push(mul32());
    let t1 = usize_to_string(p.template_instance_to_io_signal_start);
    v.push(load32(Some(t1.as_str())));
    let t2 = usize_to_string(4 * signal_code);
    v.push(load32(Some(t2.as_str())));
    proof {
        assert(views(v@) =~= mapped_lookup_wasm_spec(signal_code as nat, *p));
    }
    v
}

/// Emit the index fold of a mapped address.
fn emit_mapped_fold(indexes: &Vec<InstructionPointer>, p: &WASMProducer) -> (r: Vec<String>)
    requires
        p.wf(),
        indexes@.len() <= 32,
        forall|i: int| 0 <= i < indexes@.len() ==> instr_wasm_wf(*#[trigger] indexes@[i]),
    ensures
        views(r@) == mapped_fold_wasm_spec(indexes@, *p),
    decreases indexes@, 1int,
{
    let mut v: Vec<String> = Vec::new();
    let n: usize = indexes.len();
    let s4_str = usize_to_string(p.size_32_bits_in_memory * 4);
    if n <= 1 {
        v.push(load32(None));
        if n == 1 {
            let mut inner = indexes[0].produce_wasm(p);
            v.append(&mut inner);
            v.push(set_constant(s4_str.as_str()));
            v.push(mul32());
            v.push(add32());
        }
    } else {
        v.push(set_local(p.io_info_tag.as_str()));
        v.push(get_local(p.io_info_tag.as_str()));
        v.push(load32(None));
        let mut inner = indexes[0].produce_wasm(p);
        v.append(&mut inner);
        let ghost pre: Seq<Seq<char>> = views(v@);
        let mut i: usize = 1;
        proof {
            assert(mapped_dims_wasm_spec(indexes@.take(1int), *p) =~= Seq::<Seq<char>>::empty());
        }
        while i < n
            invariant
                1 <= i <= n,
                n == indexes@.len(),
                n <= 32,
                p.wf(),
                forall|j: int| 0 <= j < indexes@.len() ==> instr_wasm_wf(*#[trigger] indexes@[j]),
                views(v@) == pre + mapped_dims_wasm_spec(indexes@.take(i as int), *p),
            decreases n - i,
        {
            v.push(get_local(p.io_info_tag.as_str()));
            let t = usize_to_string(4 * i);
            v.push(load32(Some(t.as_str())));
            v.push(mul32());
            proof {
                assert(decreases_to!(indexes@ => indexes@[i as int]));
            }
            let mut inner2 = indexes[i].produce_wasm(p);
            v.append(&mut inner2);
            v.push(add32());
            proof {
                let taken: Seq<Box<Instruction>> = indexes@.take(i as int + 1);
                assert(taken.drop_last() =~= indexes@.take(i as int));
                assert(taken.last() == indexes@[i as int]);
                assert(taken.len() == i + 1);
                assert(views(v@) =~= pre + mapped_dims_wasm_spec(taken, *p));
            }
            i = i + 1;
        }
        proof {
            assert(indexes@.take(n as int) =~= indexes@);
        }
        v.push(set_constant(s4_str.as_str()));
        v.push(mul32());
        v.push(add32());
    }
    proof {
        assert(views(v@) =~= mapped_fold_wasm_spec(indexes@, *p));
    }
    v
}

/// Emit the tail of a mapped address.
fn emit_mapped_suffix(p: &WASMProducer) -> (r: Vec<String>)
    requires
        p.wf(),
    ensures
        views(r@) == mapped_suffix_wasm_spec(*p),
{
    let mut v: Vec<String> = Vec::new();
    v.push(get_local(p.sub_cmp_tag.as_str()));
    let t = usize_to_string(p.signal_start_address_in_component);
    v.push(set_constant(t.as_str()));
    v.push(add32());
    v.push(load32(None));
    v.push(add32());
    proof {
        assert(views(v@) =~= mapped_suffix_wasm_spec(*p));
    }
    v
}

impl ValueBucket {
    /// Emit the leaf: a direct constant or the address of a pool entry.
    pub fn produce_wasm(&self, producer: &WASMProducer) -> (r: Vec<String>)
        requires
            producer.wf(),
            instr_wasm_wf(Instruction::Value(*self)),
        ensures
            views(r@) == value_wasm_spec(*self, *producer),
    {
        let mut instructions: Vec<String> = Vec::new();
        match self.parse_as {
            ValueType::U32 => {
                let t = usize_to_string(self.value);
                instructions.push(set_constant(t.as_str()));
            },
            ValueType::BigInt => {
                proof {
                    lemma_offset_bound(self.value as nat, producer.size_32_bits_in_memory as nat);
                }
                let pos: usize = self.value * producer.size_32_bits_in_memory * 4
                    + producer.constant_memory_start;
                let t = usize_to_string(pos);
                instructions.push(set_constant(t.as_str()));
            },
        }
        proof {
            assert(views(instructions@) =~= value_wasm_spec(*self, *producer));
        }
        instructions
    }
}

impl LoadBucket {
    /// Emit the load: the source address is computed and left on the stack.
    pub fn produce_wasm(&self, producer: &WASMProducer) -> (r: Vec<String>)
        requires
            producer.wf(),
            instr_wasm_wf(Instruction::Load(*self)),
        ensures
            views(r@) == load_wasm_spec(*self, *producer),
        decreases self, 1int,
    {
        let mut instructions: Vec<String> = Vec::new();
        proof {
            assert(address_wasm_wf(self.address_type));
            assert(location_wasm_wf(self.src));
        }
        match &self.src {
            LocationRule::Indexed { location, .. } => {
                let mut loc = location.produce_wasm(producer);
                instructions.append(&mut loc);
                let t = usize_to_string(producer.size_32_bits_in_memory * 4);
                instructions.push(set_constant(t.as_str()));
                instructions.push(mul32());
                let mut base = emit_address_base(&self.address_type, producer);
                instructions.append(&mut base);
                instructions.push(add32());
            },
            LocationRule::Mapped { signal_code, indexes } => {
                match &self.address_type {
                    AddressType::SubcmpSignal { .. } => {
                        emit_comment(&mut instructions, producer, "is subcomponent");
                        let mut pre = emit_subcmp_prefix(&self.address_type, producer);
                        instructions.append(&mut pre);
                        let mut lk = emit_mapped_lookup(*signal_code, producer);
                        instructions.append(&mut lk);
                        let mut fold = emit_mapped_fold(indexes, producer);
                        instructions.append(&mut fold);
                        let mut suf = emit_mapped_suffix(producer);
                        instructions.append(&mut suf);
                    },
                    _ => {},
                }
            },
        }
        proof {
            assert(views(instructions@) =~= load_wasm_spec(*self, *producer));
        }
        instructions
    }
}

impl ComputeBucket {
    /// Emit the compute node: result slot address, operand sub-trees, then
    /// the field operation.
    #[verifier::rlimit(100)]
    pub fn produce_wasm(&self, producer: &WASMProducer) -> (r: Vec<String>)
        requires
            producer.wf(),
            instr_wasm_wf(Instruction::Compute(*self)),
        ensures
            views(r@) == compute_wasm_spec(*self, *producer),
        decreases self, 1int,
    {
        let mut instructions: Vec<String> = Vec::new();
        emit_comment(&mut instructions, producer, "compute bucket");
        match self.op {
            OperatorType::AddAddress => {},
            OperatorType::MulAddress => {},
            OperatorType::ToAddress => {},
            _ => {
                instructions.push(get_local(producer.expaux_tag.as_str()));
                let size = expaux_offset(self.op_aux_no, producer);
                let t = usize_to_string(size);
                instructions.push(set_constant(t.as_str()));
                instructions.push(add32());
            },
        }
        let ghost g1: Seq<Seq<char>> = views(instructions@);
        proof {
            assert(g1 =~= comment_if(*producer, "compute bucket"@) + (match self.op {
                OperatorType::AddAddress => Seq::<Seq<char>>::empty(),
                OperatorType::MulAddress => Seq::<Seq<char>>::empty(),
                OperatorType::ToAddress => Seq::<Seq<char>>::empty(),
                _ => seq![
                    w_get_local(producer.expaux_tag@),
                    w_set_constant(
                        dec_str(
                            (self.op_aux_no * producer.size_32_bits_in_memory * 4) as nat,
                        ),
                    ),
                    w_add32(),
                ],
            }));
        }
        let n: usize = self.stack.len();
        let mut i: usize = 0;
        proof {
            assert(instrs_wasm_spec(self.stack@.take(0int), *producer) =~= Seq::<
                Seq<char>,
            >::empty());
        }
        while i < n
            invariant
                0 <= i <= n,
                n == self.stack@.len(),
                producer.wf(),
                instr_wasm_wf(Instruction::Compute(*self)),
                views(instructions@) == g1 + instrs_wasm_spec(
                    self.stack@.take(i as int),
                    *producer,
                ),
            decreases n - i,
        {
            let mut inner = self.stack[i].produce_wasm(producer);
            instructions.append(&mut inner);
            proof {
                let taken: Seq<Box<Instruction>> = self.stack@.take(i as int + 1);
                assert(taken.drop_last() =~= self.stack@.take(i as int));
                assert(taken.last() == self.stack@[i as int]);
                assert(views(instructions@) =~= g1 + instrs_wasm_spec(taken, *producer));
            }
            i = i + 1;
        }
        proof {
            assert(self.stack@.take(n as int) =~= self.stack@);
        }
        let ghost g2: Seq<Seq<char>> = views(instructions@);
        if producer.needs_comments {
            let mut c = String::from_str("OP(");
            let t = self.op.to_string();
            c.append(t.as_str());
            c.append(")");
            instructions.push(comment(c.as_str()));
            proof {
                assert(c@ =~= "OP("@ + op_to_string_spec(self.op) + ")"@);
            }
        }
        proof {
            assert(views(instructions@) =~= g2 + comment_if(
                *producer,
                "OP("@ + op_to_string_spec(self.op) + ")"@,
            ));
        }
        let mut op_code = compute_emit_op(self, producer);
        instructions.append(&mut op_code);
        emit_comment(&mut instructions, producer, "end of compute bucket");
        proof {
            assert(views(instructions@) =~= compute_wasm_spec(*self, *producer));
        }
        instructions
    }
}



/// Emit the destination-address section of a store.
fn store_emit_dest(b: &StoreBucket, producer: &WASMProducer) -> (r: Vec<String>)
    requires
        producer.wf(),
        address_wasm_wf(b.dest_address_type),
        location_wasm_wf(b.dest),
    ensures
        views(r@) == (match b.dest {
            LocationRule::Indexed { location, .. } => instr_wasm_spec(*location, *producer)
                + seq![
                w_set_constant(dec_str((producer.size_32_bits_in_memory * 4) as nat)),
                w_mul32(),
            ] + address_base_wasm_spec(b.dest_address_type, *producer) + seq![w_add32()],
            LocationRule::Mapped { signal_code, indexes } => match b.dest_address_type {
                AddressType::SubcmpSignal { .. } => comment_if(*producer, "is subcomponent"@)
                    + subcmp_prefix_wasm_spec(b.dest_address_type, *producer)
                    + mapped_lookup_wasm_spec(signal_code as nat, *producer)
                    + mapped_fold_wasm_spec(indexes@, *producer) + mapped_suffix_wasm_spec(
                    *producer,
                ),
                _ => Seq::empty(),
            },
        }),
    decreases b, 0int,
{
    let mut instructions: Vec<String> = Vec::new();
    match &b.dest {
        LocationRule::Indexed { location, .. } => {
            let mut loc = location.produce_wasm(producer);
            instructions.append(&mut loc);
            let t = usize_to_string(producer.size_32_bits_in_memory * 4);
            instructions.push(set_constant(t.as_str()));
            instructions.push(mul32());
            let mut base = emit_address_base(&b.dest_address_type, producer);
            instructions.append(&mut base);
            instructions.push(add32());
        },
        LocationRule::Mapped { signal_code, indexes } => {
            match &b.dest_address_type {
                AddressType::SubcmpSignal { .. } => {
                    emit_comment(&mut instructions, producer, "is subcomponent");
                    let mut pre = emit_subcmp_prefix(&b.dest_address_type, producer);
                    instructions.append(&mut pre);
                    let mut lk = emit_mapped_lookup(*signal_code, producer);
                    instructions.append(&mut lk);
                    let mut fold = emit_mapped_fold(indexes, producer);
                    instructions.append(&mut fold);
                    let mut suf = emit_mapped_suffix(producer);
                    instructions.append(&mut suf);
                },
                _ => {},
            }
        },
    }
    proof {
        assert(views(instructions@) =~= (match b.dest {
            LocationRule::Indexed { location, .. } => instr_wasm_spec(*location, *producer)
                + seq![
                w_set_constant(dec_str((producer.size_32_bits_in_memory * 4) as nat)),
                w_mul32(),
            ] + address_base_wasm_spec(b.dest_address_type, *producer) + seq![w_add32()],
            LocationRule::Mapped { signal_code, indexes } => match b.dest_address_type {
                AddressType::SubcmpSignal { .. } => comment_if(*producer, "is subcomponent"@)
                    + subcmp_prefix_wasm_spec(b.dest_address_type, *producer)
                    + mapped_lookup_wasm_spec(signal_code as nat, *producer)
                    + mapped_fold_wasm_spec(indexes@, *producer) + mapped_suffix_wasm_spec(
                    *producer,
                ),
                _ => Seq::empty(),
            },
        }));
    }
    instructions
}

/// Emit the result-destination section of a call with a final destination.
fn call_emit_final_dest(data: &FinalData, producer: &WASMProducer) -> (r: Vec<String>)
    requires
        producer.wf(),
        address_wasm_wf(data.dest_address_type),
        location_wasm_wf(data.dest),
    ensures
        views(r@) == (match data.dest {
            LocationRule::Indexed { location, .. } => comment_if(
                *producer,
                "getting result address"@,
            ) + instr_wasm_spec(*location, *producer) + seq![
                w_set_constant(dec_str((producer.size_32_bits_in_memory * 4) as nat)),
                w_mul32(),
            ] + address_base_wasm_spec(data.dest_address_type, *producer) + seq![w_add32()],
            LocationRule::Mapped { signal_code, indexes } => match data.dest_address_type {
                AddressType::SubcmpSignal { .. } => comment_if(*producer, "is subcomponent"@)
                    + subcmp_prefix_wasm_spec(data.dest_address_type, *producer)
                    + mapped_lookup_wasm_spec(signal_code as nat, *producer)
                    + mapped_fold_wasm_spec(indexes@, *producer) + mapped_suffix_wasm_spec(
                    *producer,
                ),
                _ => Seq::empty(),
            },
        }),
    decreases data, 0int,
{
    let mut instructions: Vec<String> = Vec::new();
    match &data.dest {
        LocationRule::Indexed { location, .. } => {
            emit_comment(&mut instructions, producer, "getting result address");
            let mut loc = location.produce_wasm(producer);
            instructions.append(&mut loc);
            let t = usize_to_string(producer.size_32_bits_in_memory * 4);
            instructions.push(set_constant(t.as_str()));
            instructions.push(mul32());
            let mut base = emit_address_base(&data.dest_address_type, producer);
            instructions.append(&mut base);
            instructions.push(add32());
        },
        LocationRule::Mapped { signal_code, indexes } => {
            match &data.dest_address_type {
                AddressType::SubcmpSignal { .. } => {
                    emit_comment(&mut instructions, producer, "is subcomponent");
                    let mut pre = emit_subcmp_prefix(&data.dest_address_type, producer);
                    instructions.append(&mut pre);
                    let mut lk = emit_mapped_lookup(*signal_code, producer);
                    instructions.append(&mut lk);
                    let mut fold = emit_mapped_fold(indexes, producer);
                    instructions.append(&mut fold);
                    let mut suf = emit_mapped_suffix(producer);
                    instructions.append(&mut suf);
                },
                _ => {},
            }
        },
    }
    proof {
        assert(views(instructions@) =~= (match data.dest {
            LocationRule::Indexed { location, .. } => comment_if(
                *producer,
                "getting result address"@,
            ) + instr_wasm_spec(*location, *producer) + seq![
                w_set_constant(dec_str((producer.size_32_bits_in_memory * 4) as nat)),
                w_mul32(),
            ] + address_base_wasm_spec(data.dest_address_type, *producer) + seq![w_add32()],
            LocationRule::Mapped { signal_code, indexes } => match data.dest_address_type {
                AddressType::SubcmpSignal { .. } => comment_if(*producer, "is subcomponent"@)
                    + subcmp_prefix_wasm_spec(data.dest_address_type, *producer)
                    + mapped_lookup_wasm_spec(signal_code as nat, *producer)
                    + mapped_fold_wasm_spec(indexes@, *producer) + mapped_suffix_wasm_spec(
                    *producer,
                ),
                _ => Seq::empty(),
            },
        }));
    }
    instructions
}


/// Emit the operation section of a compute node.
#[verifier::rlimit(100)]
fn compute_emit_op(b: &ComputeBucket, producer: &WASMProducer) -> (r: Vec<String>)
    requires
        producer.wf(),
        instr_wasm_wf(Instruction::Compute(*b)),
    ensures
        views(r@) == (match b.op {
            OperatorType::AddAddress => seq![w_add32()],
            OperatorType::MulAddress => seq![w_mul32()],
            OperatorType::ToAddress => seq![w_call("$Fr_toInt"@)],
            _ => compute_op_call_wasm_spec(b.op, *producer) + seq![
                w_get_local(producer.expaux_tag@),
                w_set_constant(
                    dec_str((b.op_aux_no * producer.size_32_bits_in_memory * 4) as nat),
                ),
                w_add32(),
            ],
        }),
{
    let mut v: Vec<String> = Vec::new();
        match b.op {
            OperatorType::AddAddress => {
                v.push(add32());
            },
            OperatorType::MulAddress => {
                v.push(mul32());
            },
            OperatorType::ToAddress => {
                v.push(call("$Fr_toInt"));
            },
            _ => {
                match b.op {
                    OperatorType::Add => v.push(call("$Fr_add")),
                    OperatorType::Div => v.push(call("$Fr_div")),
                    OperatorType::Mul => v.push(call("$Fr_mul")),
                    OperatorType::Sub => v.push(call("$Fr_sub")),
                    OperatorType::Pow => v.push(call("$Fr_pow")),
                    OperatorType::IntDiv => v.push(call("$Fr_idiv")),
                    OperatorType::Mod => v.push(call("$Fr_mod")),
                    OperatorType::ShiftL => v.push(call("$Fr_shl")),
                    OperatorType::ShiftR => v.push(call("$Fr_shr")),
                    OperatorType::LesserEq => v.push(call("$Fr_leq")),
                    OperatorType::GreaterEq => v.push(call("$Fr_geq")),
                    OperatorType::Lesser => v.push(call("$Fr_lt")),
                    OperatorType::Greater => v.push(call("$Fr_gt")),
                    OperatorType::Eq(n_eq) => {
                        if n_eq == 1 {
                            v.push(call("$Fr_eq"));
                        } else {
                            let n_str = usize_to_string(n_eq);
                            let s4_str = usize_to_string(producer.size_32_bits_in_memory * 4);
                            v.push(set_local(producer.aux_2_tag.as_str()));
                            v.push(set_local(producer.aux_1_tag.as_str()));
                            v.push(set_local(producer.aux_0_tag.as_str()));
                            v.push(set_constant(n_str.as_str()));
                            v.push(set_local(producer.counter_tag.as_str()));
                            v.push(add_block());
                            v.push(add_loop());
                            v.push(get_local(producer.aux_0_tag.as_str()));
                            v.push(get_local(producer.aux_1_tag.as_str()));
                            v.push(get_local(producer.aux_2_tag.as_str()));
                            v.push(call("$Fr_eq"));
                            v.push(get_local(producer.aux_0_tag.as_str()));
                            v.push(call("$Fr_isTrue"));
                            v.push(eqz32());
                            v.push(br_if("1"));
                            v.push(get_local(producer.counter_tag.as_str()));
                            v.push(set_constant("1"));
                            v.push(sub32());
                            v.push(tee_local(producer.counter_tag.as_str()));
                            v.push(eqz32());
                            v.push(br_if("1"));
                            v.push(get_local(producer.aux_1_tag.as_str()));
                            v.push(set_constant(s4_str.as_str()));
                            v.push(add32());
                            v.push(set_local(producer.aux_1_tag.as_str()));
                            v.push(get_local(producer.aux_2_tag.as_str()));
                            v.push(set_constant(s4_str.as_str()));
                            v.push(add32());
                            v.push(set_local(producer.aux_2_tag.as_str()));
                            v.push(br("0"));
                            v.push(add_end());
                            v.push(add_end());
                            proof {
                                assert(views(v@) =~= eq_loop_wasm_spec(
                                    n_eq as nat,
                                    *producer,
                                ));
                            }
                        }
                    },
                    OperatorType::NotEq => v.push(call("$Fr_neq")),
                    OperatorType::BoolOr => v.push(call("$Fr_lor")),
                    OperatorType::BoolAnd => v.push(call("$Fr_land")),
                    OperatorType::BitOr => v.push(call("$Fr_bor")),
                    OperatorType::BitAnd => v.push(call("$Fr_band")),
                    OperatorType::BitXor => v.push(call("$Fr_bxor")),
                    OperatorType::PrefixSub => v.push(call("$Fr_neg")),
                    OperatorType::BoolNot => v.push(call("$Fr_lnot")),
                    OperatorType::Complement => v.push(call("$Fr_bnot")),
                    _ => {},
                }
                proof {
                    assert(views(v@) =~= compute_op_call_wasm_spec(
                        b.op,
                        *producer,
                    ));
                }
                v.push(get_local(producer.expaux_tag.as_str()));
                let size = expaux_offset(b.op_aux_no, producer);
                let t = usize_to_string(size);
                v.push(set_constant(t.as_str()));
                v.push(add32());
            },
        }
        proof {
            assert(views(v@) =~= (match b.op {
                OperatorType::AddAddress => seq![w_add32()],
                OperatorType::MulAddress => seq![w_mul32()],
                OperatorType::ToAddress => seq![w_call("$Fr_toInt"@)],
                _ => compute_op_call_wasm_spec(b.op, *producer) + seq![
                    w_get_local(producer.expaux_tag@),
                    w_set_constant(
                        dec_str(
                            (b.op_aux_no * producer.size_32_bits_in_memory * 4) as nat,
                        ),
                    ),
                    w_add32(),
                ],
            }));
        }
        v
}

impl StoreBucket {
    /// Emit the store node: destination address, source value, the copy,
    /// and for a subcomponent destination the counter update and trigger.
    #[verifier::rlimit(100)]
    pub fn produce_wasm(&self, producer: &WASMProducer) -> (r: Vec<String>)
        requires
            producer.wf(),
            instr_wasm_wf(Instruction::Store(*self)),
        ensures
            views(r@) == store_wasm_spec(*self, *producer),
        decreases self, 1int,
    {
        let mut instructions: Vec<String> = Vec::new();
        proof {
            assert(address_wasm_wf(self.dest_address_type));
            assert(location_wasm_wf(self.dest));
            assert(instr_wasm_wf(*self.src));
        }
        if self.context.size == 0 {
            proof {
                assert(views(instructions@) =~= store_wasm_spec(*self, *producer));
            }
            return instructions;
        }
        if producer.needs_comments {
            let mut c = String::from_str("store bucket. Line ");
            let t = usize_to_string(self.line);
            c.append(t.as_str());
            instructions.push(comment(c.as_str()));
            proof {
                assert(c@ =~= "store bucket. Line "@ + dec_str(self.line as nat));
            }
        }
        proof {
            assert(views(instructions@) =~= comment_if(
                *producer,
                "store bucket. Line "@ + dec_str(self.line as nat),
            ));
        }
        emit_comment(&mut instructions, producer, "getting dest");
        let mut dest_code = store_emit_dest(self, producer);
        instructions.append(&mut dest_code);
        emit_comment(&mut instructions, producer, "getting src");
        if self.context.size > 1 {
            instructions.push(set_local(producer.store_aux_1_tag.as_str()));
        }
        let ghost g2: Seq<Seq<char>> = views(instructions@);
        let mut src_code = self.src.produce_wasm(producer);
        instructions.append(&mut src_code);
        if self.context.size == 1 {
            instructions.push(call("$Fr_copy"));
        } else {
            let mut cl = emit_copy_loop(producer, self.context.size);
            instructions.append(&mut cl);
        }
        proof {
            assert(views(instructions@) =~= g2 + instr_wasm_spec(*self.src, *producer) + (
            if self.context.size == 1 {
                seq![w_call("$Fr_copy"@)]
            } else {
                copy_loop_wasm_spec(self.context.size as nat, *producer)
            }));
        }
        match &self.dest_address_type {
            AddressType::SubcmpSignal { .. } => {
                let mut tr = emit_trigger(
                    producer,
                    &self.dest,
                    self.message_id,
                    self.line,
                    self.context.size,
                );
                instructions.append(&mut tr);
            },
            _ => {},
        }
        emit_comment(&mut instructions, producer, "end of store bucket");
        proof {
            assert(views(instructions@) =~= store_wasm_spec(*self, *producer));
        }
        instructions
    }
}


/// Emit the argument-copy section of a call.
fn call_emit_args(b: &CallBucket, producer: &WASMProducer) -> (r: Vec<String>)
    requires
        producer.wf(),
        instr_wasm_wf(Instruction::Call(*b)),
    ensures
        views(r@) == call_args_wasm_spec(b.arguments@, b.argument_types@, *producer),
    decreases b, 0int,
{
    let mut instructions: Vec<String> = Vec::new();
    let mut count: usize = 0;
    let mut i: usize = 0;
    let n: usize = b.arguments.len();
    proof {
        assert(call_args_wasm_spec(
            b.arguments@.take(0int),
            b.argument_types@.take(0int),
            *producer,
        ) =~= Seq::<Seq<char>>::empty());
    }
    while i < n
        invariant
            0 <= i <= n,
            n == b.arguments@.len(),
            producer.wf(),
            instr_wasm_wf(Instruction::Call(*b)),
            count == args_offset(b.argument_types@, i as int, *producer),
            count <= i * 0x400000,
            i <= 128,
            views(instructions@) == call_args_wasm_spec(
                b.arguments@.take(i as int),
                b.argument_types@.take(i as int),
                *producer,
            ),
        decreases n - i,
    {
        if producer.needs_comments {
            let mut c = String::from_str("copying argument ");
            let t = usize_to_string(i);
            c.append(t.as_str());
            instructions.push(comment(c.as_str()));
            proof {
                assert(c@ =~= "copying argument "@ + dec_str(i as nat));
            }
        }
        instructions.push(get_local(producer.call_lvar_tag.as_str()));
        let t = usize_to_string(count);
        instructions.push(set_constant(t.as_str()));
        instructions.push(add32());
        if b.argument_types[i].size > 1 {
            instructions.push(set_local(producer.store_aux_1_tag.as_str()));
        }
        let mut arg = b.arguments[i].produce_wasm(producer);
        instructions.append(&mut arg);
        if b.argument_types[i].size == 1 {
            instructions.push(call("$Fr_copy"));
        } else {
            let mut cl = emit_copy_loop(producer, b.argument_types[i].size);
            instructions.append(&mut cl);
        }
        if producer.needs_comments {
            let mut c = String::from_str("end copying argument ");
            let t2 = usize_to_string(i);
            c.append(t2.as_str());
            instructions.push(comment(c.as_str()));
            proof {
                assert(c@ =~= "end copying argument "@ + dec_str(i as nat));
            }
        }
        proof {
            let ta: Seq<Box<Instruction>> = b.arguments@.take(i as int + 1);
            let tt: Seq<InstrContext> = b.argument_types@.take(i as int + 1);
            assert(ta.drop_last() =~= b.arguments@.take(i as int));
            assert(tt.drop_last() =~= b.argument_types@.take(i as int));
            assert(ta.last() == b.arguments@[i as int]);
            assert(tt[i as int] == b.argument_types@[i as int]);
            assert(args_offset(tt, i as int, *producer) == args_offset(
                b.argument_types@,
                i as int,
                *producer,
            )) by {
                lemma_args_offset_prefix(b.argument_types@, i as int + 1, i as int, *producer);
            }
            assert(views(instructions@) =~= call_args_wasm_spec(ta, tt, *producer));
            assert(b.argument_types@[i as int].size * 4 * producer.size_32_bits_in_memory
                <= 0x400000) by (nonlinear_arith)
                requires
                    b.argument_types@[i as int].size < 0x1000,
                    producer.size_32_bits_in_memory <= 256,
            ;
        }
        count = count + b.argument_types[i].size * 4 * producer.size_32_bits_in_memory;
        i = i + 1;
    }
    proof {
        assert(b.arguments@.take(n as int) =~= b.arguments@);
        assert(b.argument_types@.take(n as int) =~= b.argument_types@);
    }
    instructions
}

impl CallBucket {
    /// Emit the call node: argument copies, the call, the error check, and
    /// the handling of the result slot or final destination.
    #[verifier::rlimit(100)]
    pub fn produce_wasm(&self, producer: &WASMProducer) -> (r: Vec<String>)
        requires
            producer.wf(),
            instr_wasm_wf(Instruction::Call(*self)),
        ensures
            views(r@) == call_wasm_spec(*self, *producer),
        decreases self, 1int,
    {
        let mut instructions: Vec<String> = Vec::new();
        proof {
            assert(forall|i: int|
                0 <= i < self.arguments@.len() ==> instr_wasm_wf(
                    *#[trigger] self.arguments@[i],
                ));
            assert(forall|i: int|
                0 <= i < self.argument_types@.len() ==> (#[trigger] self.argument_types@[i]).size
                    < 0x1000);
            match &self.return_info {
                ReturnType::Intermediate { op_aux_no } => {
                    assert(*op_aux_no < 0x10000);
                },
                ReturnType::Final(data) => {
                    assert(address_wasm_wf(data.dest_address_type));
                    assert(location_wasm_wf(data.dest));
                },
            }
        }
        emit_comment(&mut instructions, producer, "call bucket");
        let ghost g0: Seq<Seq<char>> = views(instructions@);
        if self.arguments.len() > 0 {
            instructions.push(set_constant("0"));
            instructions.push(load32(None));
            if producer.local_info_size_u32 != 0 {
                let t = usize_to_string(producer.local_info_size_u32 * 4);
                instructions.push(set_constant(t.as_str()));
                instructions.push(add32());
            }
            instructions.push(set_local(producer.call_lvar_tag.as_str()));
            let mut args_code = call_emit_args(self, producer);
            instructions.append(&mut args_code);
        }
        proof {
            assert(views(instructions@) =~= g0 + (if self.arguments@.len() > 0 {
                seq![w_set_constant("0"@), w_load32(Option::None)] + (
                if producer.local_info_size_u32 != 0 {
                    seq![
                        w_set_constant(dec_str((producer.local_info_size_u32 * 4) as nat)),
                        w_add32(),
                    ]
                } else {
                    Seq::<Seq<char>>::empty()
                }) + seq![w_set_local(producer.call_lvar_tag@)] + call_args_wasm_spec(
                    self.arguments@,
                    self.argument_types@,
                    *producer,
                )
            } else {
                Seq::<Seq<char>>::empty()
            }));
        }
        let mut ret_code = call_emit_return(self, producer);
        instructions.append(&mut ret_code);
        emit_comment(&mut instructions, producer, "end call bucket");
        proof {
            assert(views(instructions@) =~= call_wasm_spec(*self, *producer));
        }
        instructions
    }
}

/// The offset of a prefix of the arguments does not depend on the later
/// argument types.
proof fn lemma_args_offset_prefix(types: Seq<InstrContext>, k: int, i: int, p: WASMProducer)
    requires
        0 <= i <= k <= types.len(),
    ensures
        args_offset(types.take(k), i, p) == args_offset(types, i, p),
    decreases i,
{
    if i > 0 {
        lemma_args_offset_prefix(types, k, i - 1, p);
        assert(types.take(k)[i - 1] == types[i - 1]);
    }
}


/// Emit the result section of a call: an intermediate scratch slot, or a
/// final destination with its error check and trigger.
#[verifier::rlimit(100)]
fn call_emit_return(b: &CallBucket, producer: &WASMProducer) -> (r: Vec<String>)
    requires
        producer.wf(),
        instr_wasm_wf(Instruction::Call(*b)),
    ensures
        views(r@) == (match b.return_info {
            ReturnType::Intermediate { op_aux_no } => seq![
                w_get_local(producer.expaux_tag@),
                w_set_constant(dec_str(op_aux_no as nat)),
                w_add32(),
                w_set_constant("1"@),
                w_call("$"@ + b.symbol@),
                w_tee_local(producer.merror_tag@),
                w_add_if(),
                w_call("$printErrorMessage"@),
                w_get_local(producer.merror_tag@),
                w_add_return(),
                w_add_end(),
                w_get_local(producer.expaux_tag@),
                w_set_constant(dec_str(op_aux_no as nat)),
                w_add32(),
            ],
            ReturnType::Final(data) => (match data.dest {
                LocationRule::Indexed { location, .. } => comment_if(
                    *producer,
                    "getting result address"@,
                ) + instr_wasm_spec(*location, *producer) + seq![
                    w_set_constant(dec_str((producer.size_32_bits_in_memory * 4) as nat)),
                    w_mul32(),
                ] + address_base_wasm_spec(data.dest_address_type, *producer) + seq![
                    w_add32(),
                ],
                LocationRule::Mapped { signal_code, indexes } => match data
                    .dest_address_type {
                    AddressType::SubcmpSignal { .. } => comment_if(
                        *producer,
                        "is subcomponent"@,
                    ) + subcmp_prefix_wasm_spec(data.dest_address_type, *producer)
                        + mapped_lookup_wasm_spec(signal_code as nat, *producer)
                        + mapped_fold_wasm_spec(indexes@, *producer)
                        + mapped_suffix_wasm_spec(*producer),
                    _ => Seq::empty(),
                },
            }) + seq![
                w_set_constant(dec_str(data.context.size as nat)),
                w_call("$"@ + b.symbol@),
                w_tee_local(producer.merror_tag@),
                w_add_if(),
                w_set_constant(dec_str(b.message_id as nat)),
                w_set_constant(dec_str(b.line as nat)),
                w_call("$buildBufferMessage"@),
                w_call("$printErrorMessage"@),
                w_get_local(producer.merror_tag@),
                w_add_return(),
                w_add_end(),
            ] + (match data.dest_address_type {
                AddressType::SubcmpSignal { .. } => trigger_wasm_spec(
                    data.dest,
                    b.message_id as nat,
                    b.line as nat,
                    data.context.size as nat,
                    *producer,
                ),
                _ => Seq::<Seq<char>>::empty(),
            }),
        }),
    decreases b, 0int,
{
    let mut v: Vec<String> = Vec::new();
        match &b.return_info {
            ReturnType::Intermediate { op_aux_no } => {
                v.push(get_local(producer.expaux_tag.as_str()));
                let t = usize_to_string(*op_aux_no);
                v.push(set_constant(t.as_str()));
                v.push(add32());
                v.push(set_constant("1"));
                let mut f = String::from_str("$");
                f.append(b.symbol.as_str());
                v.push(call(f.as_str()));
                v.push(tee_local(producer.merror_tag.as_str()));
                v.push(add_if());
                v.push(call("$printErrorMessage"));
                v.push(get_local(producer.merror_tag.as_str()));
                v.push(add_return());
                v.push(add_end());
                v.push(get_local(producer.expaux_tag.as_str()));
                let t2 = usize_to_string(*op_aux_no);
                v.push(set_constant(t2.as_str()));
                v.push(add32());
                proof {
                    assert(f@ =~= "$"@ + b.symbol@);
                }
            },
            ReturnType::Final(data) => {
                let mut dest_code = call_emit_final_dest(data, producer);
                v.append(&mut dest_code);
                let t = usize_to_string(data.context.size);
                v.push(set_constant(t.as_str()));
                let mut f = String::from_str("$");
                f.append(b.symbol.as_str());
                v.push(call(f.as_str()));
                v.push(tee_local(producer.merror_tag.as_str()));
                v.push(add_if());
                let t1 = usize_to_string(b.message_id);
                v.push(set_constant(t1.as_str()));
                let t2 = usize_to_string(b.line);
                v.push(set_constant(t2.as_str()));
                v.push(call("$buildBufferMessage"));
                v.push(call("$printErrorMessage"));
                v.push(get_local(producer.merror_tag.as_str()));
                v.push(add_return());
                v.push(add_end());
                proof {
                    assert(f@ =~= "$"@ + b.symbol@);
                }
                match &data.dest_address_type {
                    AddressType::SubcmpSignal { .. } => {
                        let mut tr = emit_trigger(
                            producer,
                            &data.dest,
                            b.message_id,
                            b.line,
                            data.context.size,
                        );
                        v.append(&mut tr);
                    },
                    _ => {},
                }
            },
        }
        proof {
            assert(views(v@) =~= (match b.return_info {
                ReturnType::Intermediate { op_aux_no } => seq![
                    w_get_local(producer.expaux_tag@),
                    w_set_constant(dec_str(op_aux_no as nat)),
                    w_add32(),
                    w_set_constant("1"@),
                    w_call("$"@ + b.symbol@),
                    w_tee_local(producer.merror_tag@),
                    w_add_if(),
                    w_call("$printErrorMessage"@),
                    w_get_local(producer.merror_tag@),
                    w_add_return(),
                    w_add_end(),
                    w_get_local(producer.expaux_tag@),
                    w_set_constant(dec_str(op_aux_no as nat)),
                    w_add32(),
                ],
                ReturnType::Final(data) => (match data.dest {
                    LocationRule::Indexed { location, .. } => comment_if(
                        *producer,
                        "getting result address"@,
                    ) + instr_wasm_spec(*location, *producer) + seq![
                        w_set_constant(dec_str((producer.size_32_bits_in_memory * 4) as nat)),
                        w_mul32(),
                    ] + address_base_wasm_spec(data.dest_address_type, *producer) + seq![
                        w_add32(),
                    ],
                    LocationRule::Mapped { signal_code, indexes } => match data
                        .dest_address_type {
                        AddressType::SubcmpSignal { .. } => comment_if(
                            *producer,
                            "is subcomponent"@,
                        ) + subcmp_prefix_wasm_spec(data.dest_address_type, *producer)
                            + mapped_lookup_wasm_spec(signal_code as nat, *producer)
                            + mapped_fold_wasm_spec(indexes@, *producer)
                            + mapped_suffix_wasm_spec(*producer),
                        _ => Seq::empty(),
                    },
                }) + seq![
                    w_set_constant(dec_str(data.context.size as nat)),
                    w_call("$"@ + b.symbol@),
                    w_tee_local(producer.merror_tag@),
                    w_add_if(),
                    w_set_constant(dec_str(b.message_id as nat)),
                    w_set_constant(dec_str(b.line as nat)),
                    w_call("$buildBufferMessage"@),
                    w_call("$printErrorMessage"@),
                    w_get_local(producer.merror_tag@),
                    w_add_return(),
                    w_add_end(),
                ] + (match data.dest_address_type {
                    AddressType::SubcmpSignal { .. } => trigger_wasm_spec(
                        data.dest,
                        b.message_id as nat,
                        b.line as nat,
                        data.context.size as nat,
                        *producer,
                    ),
                    _ => Seq::<Seq<char>>::empty(),
                }),
            }));
        }
    v
}

impl AssertBucket {
    /// Emit the assert node: evaluate the condition; on failure print the
    /// diagnostic and abort with the assertion-failure code.
    pub fn produce_wasm(&self, producer: &WASMProducer) -> (r: Vec<String>)
        requires
            producer.wf(),
            instr_wasm_wf(Instruction::Assert(*self)),
        ensures
            views(r@) == assert_wasm_spec(*self, *producer),
        decreases self, 1int,
    {
        let mut instructions: Vec<String> = Vec::new();
        emit_comment(&mut instructions, producer, "assert bucket");
        let mut inner = self.evaluate.produce_wasm(producer);
        instructions.append(&mut inner);
        instructions.push(call("$Fr_isTrue"));
        instructions.push(eqz32());
        instructions.push(add_if());
        let t1 = usize_to_string(self.message_id);
        instructions.push(set_constant(t1.as_str()));
        let t2 = usize_to_string(self.line);
        instructions.push(set_constant(t2.as_str()));
        instructions.push(call("$buildBufferMessage"));
        instructions.push(call("$printErrorMessage"));
        let code = usize_to_string(exception_code_assert_fail());
        instructions.push(set_constant(code.as_str()));
        instructions.push(add_return());
        instructions.push(add_end());
        emit_comment(&mut instructions, producer, "end of assert bucket");
        proof {
            assert(views(instructions@) =~= assert_wasm_spec(*self, *producer));
        }
        instructions
    }
}

impl LogBucket {
    /// Emit the log node: each argument in order, then the newline marker
    /// and the buffer flush.
    pub fn produce_wasm(&self, producer: &WASMProducer) -> (r: Vec<String>)
        requires
            producer.wf(),
            instr_wasm_wf(Instruction::Log(*self)),
        ensures
            views(r@) == log_wasm_spec(*self, *producer),
        decreases self, 1int,
    {
        let mut instructions: Vec<String> = Vec::new();
        emit_comment(&mut instructions, producer, "log bucket");
        let ghost g0: Seq<Seq<char>> = views(instructions@);
        let n: usize = self.argsprint.len();
        let mut i: usize = 0;
        proof {
            assert(log_args_wasm_spec(self.argsprint@.take(0int), *producer) =~= Seq::<
                Seq<char>,
            >::empty());
        }
        while i < n
            invariant
                0 <= i <= n,
                n == self.argsprint@.len(),
                producer.wf(),
                instr_wasm_wf(Instruction::Log(*self)),
                views(instructions@) == g0 + log_args_wasm_spec(
                    self.argsprint@.take(i as int),
                    *producer,
                ),
            decreases n - i,
        {
            match &self.argsprint[i] {
                LogBucketArg::LogExp(e) => {
                    proof {
                        assert(decreases_to!(self.argsprint@ => self.argsprint@[i as int]));
                    }
                    let mut inner = e.produce_wasm(producer);
                    instructions.append(&mut inner);
                    instructions.push(call("$copyFr2SharedRWMemory"));
                    instructions.push(call("$showSharedRWMemory"));
                },
                LogBucketArg::LogStr(stringid) => {
                    proof {
                        assert(stringid * producer.size_of_message_in_bytes < 0x80000000)
                            by (nonlinear_arith)
                            requires
                                *stringid < 0x8000,
                                producer.size_of_message_in_bytes < 0x10000,
                        ;
                    }
                    let pos: usize = producer.string_list_start + stringid
                        * producer.size_of_message_in_bytes;
                    let t = usize_to_string(pos);
                    instructions.push(set_constant(t.as_str()));
                    instructions.push(call("$buildLogMessage"));
                    instructions.push(call("$writeBufferMessage"));
                },
            }
            proof {
                let ta: Seq<LogBucketArg> = self.argsprint@.take(i as int + 1);
                assert(ta.drop_last() =~= self.argsprint@.take(i as int));
                assert(ta.last() == self.argsprint@[i as int]);
                assert(views(instructions@) =~= g0 + log_args_wasm_spec(ta, *producer));
            }
            i = i + 1;
        }
        proof {
            assert(self.argsprint@.take(n as int) =~= self.argsprint@);
        }
        let t1 = usize_to_string(producer.message_buffer_start);
        instructions.push(set_constant(t1.as_str()));
        instructions.push(set_constant("0x0000000a"));
        instructions.push(store32(None));
        let t2 = usize_to_string(producer.message_buffer_counter_position);
        instructions.push(set_constant(t2.as_str()));
        instructions.push(set_constant("0"));
        instructions.push(store32(None));
        instructions.push(call("$writeBufferMessage"));
        emit_comment(&mut instructions, producer, "end of log bucket");
        proof {
            assert(views(instructions@) =~= log_wasm_spec(*self, *producer));
        }
        instructions
    }
}

impl Instruction {
    /// Emit one instruction of the lowered circuit.
    pub fn produce_wasm(&self, producer: &WASMProducer) -> (r: Vec<String>)
        requires
            producer.wf(),
            instr_wasm_wf(*self),
        ensures
            views(r@) == instr_wasm_spec(*self, *producer),
        decreases self, 0int,
    {
        match self {
            Instruction::Value(b) => b.produce_wasm(producer),
            Instruction::Load(b) => b.produce_wasm(producer),
            Instruction::Store(b) => b.produce_wasm(producer),
            Instruction::Compute(b) => b.produce_wasm(producer),
            Instruction::Call(b) => b.produce_wasm(producer),
            Instruction::Assert(b) => b.produce_wasm(producer),
            Instruction::Log(b) => b.produce_wasm(producer),
        }
    }
}


/// What the binary encoding of a WAT module is: a function of the text
/// alone.
pub uninterp spec fn wat_wasm_bytes(s: Seq<char>) -> Seq<u8>;

/// Whether a WAT text parses and encodes: a function of the text alone.
pub uninterp spec fn wat_ok(s: Seq<char>) -> bool;

/// Relies on `wast`: `ParseBuffer::new`, `parser::parse::<Wat>` and
/// `Wat::encode` read nothing but the given text, so both whether the
/// chain succeeds and the encoded module are functions of the text;
/// errors carry the stage and the parser's message.
#[verifier::external_body]
fn wast_encode(wat_text: &str) -> (r: Result<Vec<u8>, (bool, String)>)
    ensures
        r is Ok <==> wat_ok(wat_text@),
        r matches Ok(b) ==> b@ == wat_wasm_bytes(wat_text@),
{
    let buf = match wast::parser::ParseBuffer::new(wat_text) {
        Ok(b) => b,
        Err(e) => return Err((false, e.to_string())),
    };
    let mut wat = match wast::parser::parse::<wast::Wat>(&buf) {
        Ok(w) => w,
        Err(e) => return Err((false, e.to_string())),
    };
    match wat.encode() {
        Ok(bytes) => Ok(bytes),
        Err(e) => Err((true, e.to_string())),
    }
}

/// Re-encode emitted WAT text as a binary module: the call succeeds
/// exactly on the texts the encoder accepts. A failure reports the stage
/// that refused the text, with the underlying message.
pub fn wat_to_wasm(wat_contents: &str) -> (r: Result<Vec<u8>, String>)
    ensures
        r is Ok <==> wat_ok(wat_contents@),
        r matches Ok(b) ==> b@ == wat_wasm_bytes(wat_contents@),
        r matches Err(m) ==> (exists|d: Seq<char>|
            m@ == "Error translating the circuit from wat to wasm.\n\nException encountered when parsing WAT: "@
                + d || m@
                == "Error translating the circuit from wat to wasm.\n\nException encountered when encoding WASM: "@
                + d),
{
    match wast_encode(wat_contents) {
        Result::Ok(b) => Ok(b),
        Result::Err((enc_stage, msg)) => {
            let mut s = if enc_stage {
                String::from_str(
                    "Error translating the circuit from wat to wasm.\n\nException encountered when encoding WASM: ",
                )
            } else {
                String::from_str(
                    "Error translating the circuit from wat to wasm.\n\nException encountered when parsing WAT: ",
                )
            };
            s.append(msg.as_str());
            proof {
                let ghost d: Seq<char> = msg@;
                if enc_stage {
                    assert(s@
                        == "Error translating the circuit from wat to wasm.\n\nException encountered when encoding WASM: "@
                        + d);
                } else {
                    assert(s@
                        == "Error translating the circuit from wat to wasm.\n\nException encountered when parsing WAT: "@
                        + d);
                }
            }
            Err(s)
        },
    }
}

} // verus!
