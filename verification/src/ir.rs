//! The bucket intermediate representation: a closed set of instruction
//! variants forming trees, the addressing sub-model, and the textual
//! rendering of every node.

use vstd::prelude::*;
use crate::text::dec_str;
use crate::text::usize_to_string;

verus! {

/// A uniquely owned instruction sub-tree.
pub type InstructionPointer = Box<Instruction>;

/// The operators a `Compute` node may carry. `Eq(n)` with `n > 1` compares
/// `n` consecutive field-element pairs; the address variants operate on raw
/// array indices rather than field elements.
#[derive(Clone, Copy, PartialEq, Eq, Structural)]
pub enum OperatorType {
    Mul,
    Div,
    Add,
    Sub,
    Pow,
    IntDiv,
    Mod,
    ShiftL,
    ShiftR,
    LesserEq,
    GreaterEq,
    Lesser,
    Greater,
    Eq(usize),
    NotEq,
    BoolOr,
    BoolAnd,
    BitOr,
    BitAnd,
    BitXor,
    PrefixSub,
    BoolNot,
    Complement,
    ToAddress,
    MulAddress,
    AddAddress,
}

impl OperatorType {
    /// Whether the operator works on raw addresses instead of field values.
    pub fn is_address_op(&self) -> (r: bool)
        ensures
            r == (*self == OperatorType::ToAddress || *self == OperatorType::AddAddress || *self
                == OperatorType::MulAddress),
    {
        *self == OperatorType::ToAddress || *self == OperatorType::AddAddress || *self
            == OperatorType::MulAddress
    }

    /// Whether the operator is an equality over more than one pair.
    pub fn is_multiple_eq(&self) -> (r: bool)
        ensures
            r == (self matches OperatorType::Eq(n) && n > 1),
    {
        match self {
            OperatorType::Eq(n) => *n > 1,
            _ => false,
        }
    }
}

/// How a `Value` leaf is to be read.
#[derive(Clone, Copy, PartialEq, Eq, Structural)]
pub enum ValueType {
    BigInt,
    U32,
}

/// Per-instruction size context: how many field elements move at once.
#[derive(Clone, Copy, PartialEq, Eq, Structural)]
pub struct InstrContext {
    pub size: usize,
}

/// What is known at lowering time about whether a subcomponent input write
/// is the last one.
#[derive(Clone, Copy, PartialEq, Eq, Structural)]
pub enum StatusInput {
    Last,
    NoLast,
    Unknown,
}

/// Whether a subcomponent signal is an input, and if so what is known about
/// its position among the writes.
#[derive(Clone, Copy, PartialEq, Eq, Structural)]
pub enum InputInformation {
    NoInput,
    Input { status: StatusInput },
}

/// Which storage an address points into.
pub enum AddressType {
    Variable,
    Signal,
    SubcmpSignal {
        cmp_address: InstructionPointer,
        uniform_parallel_value: Option<bool>,
        input_information: InputInformation,
    },
}

/// How the concrete offset is found: `Indexed` is resolved at emission
/// time; `Mapped` goes through the target template's IO table at run time.
pub enum LocationRule {
    Indexed { location: InstructionPointer, template_header: Option<String> },
    Mapped { signal_code: usize, indexes: Vec<InstructionPointer> },
}

/// A constant or variable leaf.
#[derive(Clone)]
pub struct ValueBucket {
    pub line: usize,
    pub message_id: usize,
    pub parse_as: ValueType,
    pub op_aux_no: usize,
    pub value: usize,
}

/// A read of a signal, variable or subcomponent slot.
pub struct LoadBucket {
    pub line: usize,
    pub message_id: usize,
    pub address_type: AddressType,
    pub src: LocationRule,
}

/// A write of the value of a sub-tree into a destination address.
pub struct StoreBucket {
    pub line: usize,
    pub message_id: usize,
    pub context: InstrContext,
    pub dest_is_output: bool,
    pub dest_address_type: AddressType,
    pub dest: LocationRule,
    pub src: InstructionPointer,
}

/// An operator applied to operand sub-trees, with a scratch-slot index for
/// the result.
pub struct ComputeBucket {
    pub line: usize,
    pub message_id: usize,
    pub op: OperatorType,
    pub op_aux_no: usize,
    pub stack: Vec<InstructionPointer>,
}

/// The destination of a call that stores its result directly.
pub struct FinalData {
    pub context: InstrContext,
    pub dest_is_output: bool,
    pub dest_address_type: AddressType,
    pub dest: LocationRule,
}

/// Where a call's result goes: an intermediate scratch slot, or a final
/// store destination.
pub enum ReturnType {
    Intermediate { op_aux_no: usize },
    Final(FinalData),
}

/// A call of a lowered function by symbol name.
pub struct CallBucket {
    pub line: usize,
    pub message_id: usize,
    pub symbol: String,
    pub argument_types: Vec<InstrContext>,
    pub arguments: Vec<InstructionPointer>,
    pub arena_size: usize,
    pub return_info: ReturnType,
}

/// A boolean check that aborts the run when it fails.
pub struct AssertBucket {
    pub line: usize,
    pub message_id: usize,
    pub evaluate: InstructionPointer,
}

/// One argument of a log statement: an expression or a static string id.
pub enum LogBucketArg {
    LogExp(InstructionPointer),
    LogStr(usize),
}

impl LogBucketArg {
    /// The expression argument, for mutation in place.
    pub fn get_mut_arg_logexp(&mut self) -> (r: &mut InstructionPointer)
        requires
            *old(self) is LogExp,
        ensures
            *r == (*old(self))->LogExp_0,
            *final (self) == LogBucketArg::LogExp(*final (r)),
    {
        match self {
            LogBucketArg::LogExp(arg) => arg,
            LogBucketArg::LogStr(_) => vstd::pervasive::unreached(),
        }
    }
}

/// An ordered list of values and static strings to print.
pub struct LogBucket {
    pub line: usize,
    pub message_id: usize,
    pub argsprint: Vec<LogBucketArg>,
}

/// One instruction of the lowered circuit: a closed, tagged set of node
/// kinds forming a tree by exclusive ownership.
pub enum Instruction {
    Value(ValueBucket),
    Load(LoadBucket),
    Store(StoreBucket),
    Compute(ComputeBucket),
    Call(CallBucket),
    Assert(AssertBucket),
    Log(LogBucket),
}

impl ValueBucket {
    pub fn get_line(&self) -> (r: usize)
        ensures
            r == self.line,
    {
        self.line
    }

    pub fn get_message_id(&self) -> (r: usize)
        ensures
            r == self.message_id,
    {
        self.message_id
    }
}

impl LoadBucket {
    pub fn get_line(&self) -> (r: usize)
        ensures
            r == self.line,
    {
        self.line
    }

    pub fn get_message_id(&self) -> (r: usize)
        ensures
            r == self.message_id,
    {
        self.message_id
    }
}

impl StoreBucket {
    pub fn get_line(&self) -> (r: usize)
        ensures
            r == self.line,
    {
        self.line
    }

    pub fn get_message_id(&self) -> (r: usize)
        ensures
            r == self.message_id,
    {
        self.message_id
    }
}

impl ComputeBucket {
    pub fn get_line(&self) -> (r: usize)
        ensures
            r == self.line,
    {
        self.line
    }

    pub fn get_message_id(&self) -> (r: usize)
        ensures
            r == self.message_id,
    {
        self.message_id
    }
}

impl CallBucket {
    pub fn get_line(&self) -> (r: usize)
        ensures
            r == self.line,
    {
        self.line
    }

    pub fn get_message_id(&self) -> (r: usize)
        ensures
            r == self.message_id,
    {
        self.message_id
    }
}

impl AssertBucket {
    pub fn get_line(&self) -> (r: usize)
        ensures
            r == self.line,
    {
        self.line
    }

    pub fn get_message_id(&self) -> (r: usize)
        ensures
            r == self.message_id,
    {
        self.message_id
    }
}

impl LogBucket {
    pub fn get_line(&self) -> (r: usize)
        ensures
            r == self.line,
    {
        self.line
    }

    pub fn get_message_id(&self) -> (r: usize)
        ensures
            r == self.message_id,
    {
        self.message_id
    }
}


/// The rendering of an operator.
pub open spec fn op_to_string_spec(op: OperatorType) -> Seq<char> {
    match op {
        OperatorType::Mul => "MUL"@,
        OperatorType::Div => "DIV"@,
        OperatorType::Add => "ADD"@,
        OperatorType::Sub => "SUB"@,
        OperatorType::Pow => "POW"@,
        OperatorType::IntDiv => "INT_DIV"@,
        OperatorType::Mod => "MOD"@,
        OperatorType::ShiftL => "SHIFT_L"@,
        OperatorType::ShiftR => "SHIFT_R"@,
        OperatorType::LesserEq => "LESSER_EQ"@,
        OperatorType::GreaterEq => "GREATER_EQ"@,
        OperatorType::Lesser => "LESSER"@,
        OperatorType::Greater => "GREATER"@,
        OperatorType::Eq(n) => "EQ("@ + dec_str(n as nat) + ")"@,
        OperatorType::NotEq => "NOT_EQ"@,
        OperatorType::BoolOr => "BOOL_OR"@,
        OperatorType::BoolAnd => "BOOL_AND"@,
        OperatorType::BitOr => "BITOR"@,
        OperatorType::BitAnd => "BITAND"@,
        OperatorType::BitXor => "BITXOR"@,
        OperatorType::PrefixSub => "PREFIX_SUB"@,
        OperatorType::BoolNot => "BOOL_NOT"@,
        OperatorType::Complement => "COMPLEMENT"@,
        OperatorType::ToAddress => "TO_ADDRESS"@,
        OperatorType::MulAddress => "MUL_ADDRESS"@,
        OperatorType::AddAddress => "ADD_ADDRESS"@,
    }
}

/// The rendering of an address tag.
pub open spec fn address_type_to_string_spec(a: AddressType) -> Seq<char>
    decreases a,
{
    match a {
        AddressType::Variable => "VARIABLE"@,
        AddressType::Signal => "SIGNAL"@,
        AddressType::SubcmpSignal { cmp_address, .. } => "SUBCOMPONENT:"@
            + instr_to_string_spec(*cmp_address),
    }
}

/// The rendering of a list of sub-trees, each followed by a semicolon.
pub open spec fn stack_to_string_spec(s: Seq<Box<Instruction>>) -> Seq<char>
    decreases s,
{
    if s.len() == 0 {
        Seq::empty()
    } else {
        stack_to_string_spec(s.drop_last()) + instr_to_string_spec(*s.last()) + ";"@
    }
}

/// The rendering of a list of sub-trees, each followed by a comma.
pub open spec fn args_to_string_spec(s: Seq<Box<Instruction>>) -> Seq<char>
    decreases s,
{
    if s.len() == 0 {
        Seq::empty()
    } else {
        args_to_string_spec(s.drop_last()) + instr_to_string_spec(*s.last()) + ","@
    }
}

/// The rendering of a location rule.
pub open spec fn location_rule_to_string_spec(l: LocationRule) -> Seq<char>
    decreases l,
{
    match l {
        LocationRule::Indexed { location, .. } => "INDEXED:"@ + instr_to_string_spec(*location),
        LocationRule::Mapped { signal_code, indexes } => "MAPPED:"@ + dec_str(signal_code as nat)
            + ":"@ + stack_to_string_spec(indexes@),
    }
}

/// The rendering of a constant or variable leaf.
pub open spec fn value_to_string_spec(b: ValueBucket) -> Seq<char> {
    "VALUE(line:"@ + dec_str(b.line as nat) + ",template_id:"@ + dec_str(b.message_id as nat)
        + ",as:"@ + (match b.parse_as {
        ValueType::BigInt => "BIGINT"@,
        ValueType::U32 => "U32"@,
    }) + ",op_number:"@ + dec_str(b.op_aux_no as nat) + ",value:"@ + dec_str(b.value as nat)
        + ")"@
}

/// The rendering of a load node.
pub open spec fn load_to_string_spec(b: LoadBucket) -> Seq<char>
    decreases b,
{
    "LOAD(line:"@ + dec_str(b.line as nat) + ",template_id:"@ + dec_str(b.message_id as nat)
        + ",address_type:"@ + address_type_to_string_spec(b.address_type) + ",src:"@
        + location_rule_to_string_spec(b.src) + ")"@
}

/// The rendering of a store node.
pub open spec fn store_to_string_spec(b: StoreBucket) -> Seq<char>
    decreases b,
{
    "STORE(line:"@ + dec_str(b.line as nat) + ",template_id:"@ + dec_str(b.message_id as nat)
        + ",dest_type:"@ + address_type_to_string_spec(b.dest_address_type) + ",dest:"@
        + location_rule_to_string_spec(b.dest) + ",src:"@ + instr_to_string_spec(*b.src) + ")"@
}

/// The rendering of a compute node.
pub open spec fn compute_to_string_spec(b: ComputeBucket) -> Seq<char>
    decreases b,
{
    "COMPUTE(line:"@ + dec_str(b.line as nat) + ",template_id:"@ + dec_str(b.message_id as nat)
        + ",op_number:"@ + dec_str(b.op_aux_no as nat) + ",op:"@ + op_to_string_spec(b.op)
        + ",stack:"@ + stack_to_string_spec(b.stack@) + ")"@
}

/// The rendering of a call node.
pub open spec fn call_to_string_spec(b: CallBucket) -> Seq<char>
    decreases b,
{
    "CALL(line:"@ + dec_str(b.line as nat) + ",template_id:"@ + dec_str(b.message_id as nat)
        + ",id:"@ + b.symbol@ + ",return_type:"@ + (match b.return_info {
        ReturnType::Intermediate { op_aux_no } => "Intermediate("@ + dec_str(op_aux_no as nat)
            + ")"@,
        ReturnType::Final(_) => "Final"@,
    }) + ",args:"@ + args_to_string_spec(b.arguments@) + ")"@
}

/// The rendering of an assert node.
pub open spec fn assert_to_string_spec(b: AssertBucket) -> Seq<char>
    decreases b,
{
    "ASSERT(line: "@ + dec_str(b.line as nat) + ",template_id: "@ + dec_str(b.message_id as nat)
        + ",evaluate: "@ + instr_to_string_spec(*b.evaluate) + ")"@
}

/// The rendering of the expression arguments of a log node; static string
/// arguments render as nothing.
pub open spec fn log_args_to_string_spec(line: nat, mid: nat, s: Seq<LogBucketArg>) -> Seq<char>
    decreases s,
{
    if s.len() == 0 {
        Seq::empty()
    } else {
        log_args_to_string_spec(line, mid, s.drop_last()) + (match s.last() {
            LogBucketArg::LogExp(e) => "LOG(line: "@ + dec_str(line) + ",template_id: "@
                + dec_str(mid) + ",evaluate: "@ + instr_to_string_spec(*e) + ")"@,
            LogBucketArg::LogStr(_) => Seq::<char>::empty(),
        })
    }
}

/// The rendering of a log node.
pub open spec fn log_to_string_spec(b: LogBucket) -> Seq<char>
    decreases b,
{
    log_args_to_string_spec(b.line as nat, b.message_id as nat, b.argsprint@)
}

/// The rendering of an instruction.
pub open spec fn instr_to_string_spec(i: Instruction) -> Seq<char>
    decreases i,
{
    match i {
        Instruction::Value(b) => value_to_string_spec(b),
        Instruction::Load(b) => load_to_string_spec(b),
        Instruction::Store(b) => store_to_string_spec(b),
        Instruction::Compute(b) => compute_to_string_spec(b),
        Instruction::Call(b) => call_to_string_spec(b),
        Instruction::Assert(b) => assert_to_string_spec(b),
        Instruction::Log(b) => log_to_string_spec(b),
    }
}


impl OperatorType {
    /// Render the operator.
    pub fn to_string(&self) -> (r: String)
        ensures
            r@ == op_to_string_spec(*self),
    {
        match self {
            OperatorType::Mul => String::from_str("MUL"),
            OperatorType::Div => String::from_str("DIV"),
            OperatorType::Add => String::from_str("ADD"),
            OperatorType::Sub => String::from_str("SUB"),
            OperatorType::Pow => String::from_str("POW"),
            OperatorType::IntDiv => String::from_str("INT_DIV"),
            OperatorType::Mod => String::from_str("MOD"),
            OperatorType::ShiftL => String::from_str("SHIFT_L"),
            OperatorType::ShiftR => String::from_str("SHIFT_R"),
            OperatorType::LesserEq => String::from_str("LESSER_EQ"),
            OperatorType::GreaterEq => String::from_str("GREATER_EQ"),
            OperatorType::Lesser => String::from_str("LESSER"),
            OperatorType::Greater => String::from_str("GREATER"),
            OperatorType::Eq(n) => {
                let mut s = String::from_str("EQ(");
                let t = usize_to_string(*n);
                s.append(t.as_str());
                s.append(")");
                proof {
                    assert(s@ =~= op_to_string_spec(*self));
                }
                s
            },
            OperatorType::NotEq => String::from_str("NOT_EQ"),
            OperatorType::BoolOr => String::from_str("BOOL_OR"),
            OperatorType::BoolAnd => String::from_str("BOOL_AND"),
            OperatorType::BitOr => String::from_str("BITOR"),
            OperatorType::BitAnd => String::from_str("BITAND"),
            OperatorType::BitXor => String::from_str("BITXOR"),
            OperatorType::PrefixSub => String::from_str("PREFIX_SUB"),
            OperatorType::BoolNot => String::from_str("BOOL_NOT"),
            OperatorType::Complement => String::from_str("COMPLEMENT"),
            OperatorType::ToAddress => String::from_str("TO_ADDRESS"),
            OperatorType::MulAddress => String::from_str("MUL_ADDRESS"),
            OperatorType::AddAddress => String::from_str("ADD_ADDRESS"),
        }
    }
}

impl AddressType {
    /// Render the address tag.
    pub fn to_string(&self) -> (r: String)
        ensures
            r@ == address_type_to_string_spec(*self),
        decreases self,
    {
        match self {
            AddressType::Variable => String::from_str("VARIABLE"),
            AddressType::Signal => String::from_str("SIGNAL"),
            AddressType::SubcmpSignal { cmp_address, .. } => {
                let mut s = String::from_str("SUBCOMPONENT:");
                let t = cmp_address.to_string();
                s.append(t.as_str());
                proof {
                    assert(s@ =~= address_type_to_string_spec(*self));
                }
                s
            },
        }
    }
}

impl LocationRule {
    /// Render the location rule.
    pub fn to_string(&self) -> (r: String)
        ensures
            r@ == location_rule_to_string_spec(*self),
        decreases self,
    {
        match self {
            LocationRule::Indexed { location, .. } => {
                let mut s = String::from_str("INDEXED:");
                let t = location.to_string();
                s.append(t.as_str());
                proof {
                    assert(s@ =~= location_rule_to_string_spec(*self));
                }
                s
            },
            LocationRule::Mapped { signal_code, indexes } => {
                let mut s = String::from_str("MAPPED:");
                let t = usize_to_string(*signal_code);
                s.append(t.as_str());
                s.append(":");
                let n: usize = indexes.len();
                let mut i: usize = 0;
                let mut body = String::new();
                while i < n
                    invariant
                        0 <= i <= n,
                        n == indexes@.len(),
                        body@ == stack_to_string_spec(indexes@.take(i as int)),
                        *self == (LocationRule::Mapped {
                            signal_code: *signal_code,
                            indexes: *indexes,
                        }),
                    decreases n - i,
                {
                    proof {
                        let m = (*self)->Mapped_indexes;
                        assert(m == *indexes);
                        assert(decreases_to!(*self => m));
                        assert(decreases_to!(m => m@[i as int]));
                    }
                    let u = indexes[i].to_string();
                    body.append(u.as_str());
                    body.append(";");
                    proof {
                        assert(indexes@.take(i as int + 1).drop_last() =~= indexes@.take(
                            i as int,
                        ));
                        assert(indexes@.take(i as int + 1).last() == indexes@[i as int]);
                        assert(body@ =~= stack_to_string_spec(indexes@.take(i as int + 1)));
                    }
                    i = i + 1;
                }
                proof {
                    assert(indexes@.take(n as int) =~= indexes@);
                }
                s.append(body.as_str());
                proof {
                    assert(s@ =~= location_rule_to_string_spec(*self));
                }
                s
            },
        }
    }
}

impl ValueBucket {
    /// Render the leaf.
    pub fn to_string(&self) -> (r: String)
        ensures
            r@ == value_to_string_spec(*self),
    {
        let mut s = String::from_str("VALUE(line:");
        let t1 = usize_to_string(self.line);
        s.append(t1.as_str());
        s.append(",template_id:");
        let t2 = usize_to_string(self.message_id);
        s.append(t2.as_str());
        s.append(",as:");
        match self.parse_as {
            ValueType::BigInt => s.append("BIGINT"),
            ValueType::U32 => s.append("U32"),
        }
        s.append(",op_number:");
        let t3 = usize_to_string(self.op_aux_no);
        s.append(t3.as_str());
        s.append(",value:");
        let t4 = usize_to_string(self.value);
        s.append(t4.as_str());
        s.append(")");
        proof {
            assert(s@ =~= value_to_string_spec(*self));
        }
        s
    }
}

impl LoadBucket {
    /// Render the load node.
    pub fn to_string(&self) -> (r: String)
        ensures
            r@ == load_to_string_spec(*self),
        decreases self,
    {
        let mut s = String::from_str("LOAD(line:");
        let t1 = usize_to_string(self.line);
        s.append(t1.as_str());
        s.append(",template_id:");
        let t2 = usize_to_string(self.message_id);
        s.append(t2.as_str());
        s.append(",address_type:");
        let t3 = self.address_type.to_string();
        s.append(t3.as_str());
        s.append(",src:");
        let t4 = self.src.to_string();
        s.append(t4.as_str());
        s.append(")");
        proof {
            assert(s@ =~= load_to_string_spec(*self));
        }
        s
    }
}

impl StoreBucket {
    /// Render the store node.
    pub fn to_string(&self) -> (r: String)
        ensures
            r@ == store_to_string_spec(*self),
        decreases self,
    {
        let mut s = String::from_str("STORE(line:");
        let t1 = usize_to_string(self.line);
        s.append(t1.as_str());
        s.append(",template_id:");
        let t2 = usize_to_string(self.message_id);
        s.append(t2.as_str());
        s.append(",dest_type:");
        let t3 = self.dest_address_type.to_string();
        s.append(t3.as_str());
        s.append(",dest:");
        let t4 = self.dest.to_string();
        s.append(t4.as_str());
        s.append(",src:");
        let t5 = self.src.to_string();
        s.append(t5.as_str());
        s.append(")");
        proof {
            assert(s@ =~= store_to_string_spec(*self));
        }
        s
    }
}

impl ComputeBucket {
    /// Render the compute node.
    pub fn to_string(&self) -> (r: String)
        ensures
            r@ == compute_to_string_spec(*self),
        decreases self,
    {
        let mut stack = String::new();
        let n: usize = self.stack.len();
        let mut i: usize = 0;
        while i < n
            invariant
                0 <= i <= n,
                n == self.stack@.len(),
                stack@ == stack_to_string_spec(self.stack@.take(i as int)),
            decreases n - i,
        {
            let u = self.stack[i].to_string();
            stack.append(u.as_str());
            stack.append(";");
            proof {
                assert(self.stack@.take(i as int + 1).drop_last() =~= self.stack@.take(
                    i as int,
                ));
                assert(self.stack@.take(i as int + 1).last() == self.stack@[i as int]);
                assert(stack@ =~= stack_to_string_spec(self.stack@.take(i as int + 1)));
            }
            i = i + 1;
        }
        proof {
            assert(self.stack@.take(n as int) =~= self.stack@);
        }
        let mut s = String::from_str("COMPUTE(line:");
        let t1 = usize_to_string(self.line);
        s.append(t1.as_str());
        s.append(",template_id:");
        let t2 = usize_to_string(self.message_id);
        s.append(t2.as_str());
        s.append(",op_number:");
        let t3 = usize_to_string(self.op_aux_no);
        s.append(t3.as_str());
        s.append(",op:");
        let t4 = self.op.to_string();
        s.append(t4.as_str());
        s.append(",stack:");
        s.append(stack.as_str());
        s.append(")");
        proof {
            assert(s@ =~= compute_to_string_spec(*self));
        }
        s
    }
}

impl CallBucket {
    /// Render the call node.
    pub fn to_string(&self) -> (r: String)
        ensures
            r@ == call_to_string_spec(*self),
        decreases self,
    {
        let mut args = String::new();
        let n: usize = self.arguments.len();
        let mut i: usize = 0;
        while i < n
            invariant
                0 <= i <= n,
                n == self.arguments@.len(),
                args@ == args_to_string_spec(self.arguments@.take(i as int)),
            decreases n - i,
        {
            let u = self.arguments[i].to_string();
            args.append(u.as_str());
            args.append(",");
            proof {
                assert(self.arguments@.take(i as int + 1).drop_last() =~= self.arguments@.take(
                    i as int,
                ));
                assert(self.arguments@.take(i as int + 1).last() == self.arguments@[i as int]);
                assert(args@ =~= args_to_string_spec(self.arguments@.take(i as int + 1)));
            }
            i = i + 1;
        }
        proof {
            assert(self.arguments@.take(n as int) =~= self.arguments@);
        }
        let mut s = String::from_str("CALL(line:");
        let t1 = usize_to_string(self.line);
        s.append(t1.as_str());
        s.append(",template_id:");
        let t2 = usize_to_string(self.message_id);
        s.append(t2.as_str());
        s.append(",id:");
        s.append(self.symbol.as_str());
        s.append(",return_type:");
        match &self.return_info {
            ReturnType::Intermediate { op_aux_no } => {
                s.append("Intermediate(");
                let t3 = usize_to_string(*op_aux_no);
                s.append(t3.as_str());
                s.append(")");
            },
            ReturnType::Final(_) => {
                s.append("Final");
            },
        }
        s.append(",args:");
        s.append(args.as_str());
        s.append(")");
        proof {
            assert(s@ =~= call_to_string_spec(*self));
        }
        s
    }
}

impl AssertBucket {
    /// Render the assert node.
    pub fn to_string(&self) -> (r: String)
        ensures
            r@ == assert_to_string_spec(*self),
        decreases self,
    {
        let mut s = String::from_str("ASSERT(line: ");
        let t1 = usize_to_string(self.line);
        s.append(t1.as_str());
        s.append(",template_id: ");
        let t2 = usize_to_string(self.message_id);
        s.append(t2.as_str());
        s.append(",evaluate: ");
        let t3 = self.evaluate.to_string();
        s.append(t3.as_str());
        s.append(")");
        proof {
            assert(s@ =~= assert_to_string_spec(*self));
        }
        s
    }
}

impl LogBucket {
    /// Render the log node: one line per expression argument.
    pub fn to_string(&self) -> (r: String)
        ensures
            r@ == log_to_string_spec(*self),
        decreases self,
    {
        let mut s = String::new();
        let n: usize = self.argsprint.len();
        let mut i: usize = 0;
        while i < n
            invariant
                0 <= i <= n,
                n == self.argsprint@.len(),
                s@ == log_args_to_string_spec(
                    self.line as nat,
                    self.message_id as nat,
                    self.argsprint@.take(i as int),
                ),
            decreases n - i,
        {
            match &self.argsprint[i] {
                LogBucketArg::LogExp(e) => {
                    s.append("LOG(line: ");
                    let t1 = usize_to_string(self.line);
                    s.append(t1.as_str());
                    s.append(",template_id: ");
                    let t2 = usize_to_string(self.message_id);
                    s.append(t2.as_str());
                    s.append(",evaluate: ");
                    let t3 = e.to_string();
                    s.append(t3.as_str());
                    s.append(")");
                },
                LogBucketArg::LogStr(_) => {},
            }
            proof {
                assert(self.argsprint@.take(i as int + 1).drop_last() =~= self.argsprint@.take(
                    i as int,
                ));
                assert(self.argsprint@.take(i as int + 1).last() == self.argsprint@[i as int]);
                assert(s@ =~= log_args_to_string_spec(
                    self.line as nat,
                    self.message_id as nat,
                    self.argsprint@.take(i as int + 1),
                ));
            }
            i = i + 1;
        }
        proof {
            assert(self.argsprint@.take(n as int) =~= self.argsprint@);
        }
        s
    }
}

impl Instruction {
    /// Render the instruction tree.
    pub fn to_string(&self) -> (r: String)
        ensures
            r@ == instr_to_string_spec(*self),
        decreases self,
    {
        match self {
            Instruction::Value(b) => b.to_string(),
            Instruction::Load(b) => b.to_string(),
            Instruction::Store(b) => b.to_string(),
            Instruction::Compute(b) => b.to_string(),
            Instruction::Call(b) => b.to_string(),
            Instruction::Assert(b) => b.to_string(),
            Instruction::Log(b) => b.to_string(),
        }
    }

    /// The source line the node carries for diagnostics.
    pub fn get_line(&self) -> (r: usize)
        ensures
            r == match *self {
                Instruction::Value(b) => b.line,
                Instruction::Load(b) => b.line,
                Instruction::Store(b) => b.line,
                Instruction::Compute(b) => b.line,
                Instruction::Call(b) => b.line,
                Instruction::Assert(b) => b.line,
                Instruction::Log(b) => b.line,
            },
    {
        match self {
            Instruction::Value(b) => b.line,
            Instruction::Load(b) => b.line,
            Instruction::Store(b) => b.line,
            Instruction::Compute(b) => b.line,
            Instruction::Call(b) => b.line,
            Instruction::Assert(b) => b.line,
            Instruction::Log(b) => b.line,
        }
    }

    /// The message id the node carries for diagnostics.
    pub fn get_message_id(&self) -> (r: usize)
        ensures
            r == match *self {
                Instruction::Value(b) => b.message_id,
                Instruction::Load(b) => b.message_id,
                Instruction::Store(b) => b.message_id,
                Instruction::Compute(b) => b.message_id,
                Instruction::Call(b) => b.message_id,
                Instruction::Assert(b) => b.message_id,
                Instruction::Log(b) => b.message_id,
            },
    {
        match self {
            Instruction::Value(b) => b.message_id,
            Instruction::Load(b) => b.message_id,
            Instruction::Store(b) => b.message_id,
            Instruction::Compute(b) => b.message_id,
            Instruction::Call(b) => b.message_id,
            Instruction::Assert(b) => b.message_id,
            Instruction::Log(b) => b.message_id,
        }
    }

    /// Wrap the instruction for exclusive ownership by a parent node.
    pub fn allocate(self) -> (r: InstructionPointer)
        ensures
            *r == self,
    {
        Box::new(self)
    }
}

} // verus!
