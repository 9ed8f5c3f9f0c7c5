//! The native backend: walks the same bucket IR and emits imperative
//! source statements over resident arrays, plus the builders for the
//! supporting code and data files of a compiled circuit.

use vstd::prelude::*;
use crate::ir::AddressType;
use crate::ir::AssertBucket;
use crate::ir::ComputeBucket;
use crate::ir::InputInformation;
use crate::ir::Instruction;
use crate::ir::LoadBucket;
use crate::ir::LocationRule;
use crate::ir::OperatorType;
use crate::ir::StatusInput;
use crate::ir::StoreBucket;
use crate::ir::ValueBucket;
use crate::ir::ValueType;
use crate::components::HashSignalInfo;
use crate::components::IODef;
use crate::components::fnv1a_spec;
use crate::components::hasher;
use vstd::string::StringSliceAdditionalSpecFns;
use crate::witness::probe_pos;
use crate::components::InfoParallel;
use crate::components::TemplateInstanceIOMap;
use crate::field;
use crate::field::FieldElement;
use crate::field::mul_spec;
use crate::field::nat_le_bytes;
use crate::field::p;
use crate::field::parse_ok;
use crate::field::parse_val;
use vstd::arithmetic::power2::pow2;
use crate::text::dec_str;
use crate::text::usize_to_string;
use crate::text::views;

verus! {

broadcast use crate::text::lemma_views_push, crate::text::lemma_views_add;

/// One emitted statement or expression of the native backend.
pub type RustInstruction = String;

/// The number of slots of the open-addressed input hash table.
pub const SIZE_INPUT_HASHMAP: usize = 256;

fn lit(s: &str) -> (r: String)
    ensures
        r@ == s@,
{
    String::from_str(s)
}

fn cat2(a: &str, b: &str) -> (r: String)
    ensures
        r@ == a@ + b@,
{
    let mut s = String::from_str(a);
    s.append(b);
    s
}

fn cat3(a: &str, b: &str, c: &str) -> (r: String)
    ensures
        r@ == a@ + b@ + c@,
{
    let mut s = String::from_str(a);
    s.append(b);
    s.append(c);
    proof {
        assert(s@ =~= a@ + b@ + c@);
    }
    s
}

/// Declaration of the expression scratch array.
pub fn declare_expaux(size: usize) -> (r: RustInstruction)
    ensures
        r@ == "FrElement expaux["@ + dec_str(size as nat) + "]"@,
{
    let t = usize_to_string(size);
    cat3("FrElement expaux[", t.as_str(), "]")
}

/// A slot of the expression scratch array.
pub fn expaux(at: RustInstruction) -> (r: RustInstruction)
    ensures
        r@ == "expaux["@ + at@ + "]"@,
{
    cat3("expaux[", at.as_str(), "]")
}

/// A store into the expression scratch array.
pub fn store_expaux(at: RustInstruction, value: RustInstruction) -> (r: RustInstruction)
    ensures
        r@ == "expaux["@ + at@ + "] = "@ + value@,
{
    let mut s = String::from_str("expaux[");
    s.append(at.as_str());
    s.append("] = ");
    s.append(value.as_str());
    proof {
        assert(s@ =~= "expaux["@ + at@ + "] = "@ + value@);
    }
    s
}

/// Declaration of the local-variable arena of a called function.
pub fn declare_lvar_func_call(size: usize) -> (r: RustInstruction)
    ensures
        r@ == "FrElement lvarcall["@ + dec_str(size as nat) + "]"@,
{
    let t = usize_to_string(size);
    cat3("FrElement lvarcall[", t.as_str(), "]")
}

/// Declaration of the local-variable array.
pub fn declare_lvar(size: usize) -> (r: RustInstruction)
    ensures
        r@ == "FrElement lvar["@ + dec_str(size as nat) + "]"@,
{
    let t = usize_to_string(size);
    cat3("FrElement lvar[", t.as_str(), "]")
}

/// Declaration of a pointer to the local-variable array.
pub fn declare_lvar_pointer() -> (r: RustInstruction)
    ensures
        r@ == "FrElement* lvar"@,
{
    lit("FrElement* lvar")
}

/// A slot of the local-variable array.
pub fn lvar(at: RustInstruction) -> (r: RustInstruction)
    ensures
        r@ == "lvar["@ + at@ + "]"@,
{
    cat3("lvar[", at.as_str(), "]")
}

/// A store into the local-variable array.
pub fn store_lvar(at: RustInstruction, value: RustInstruction) -> (r: RustInstruction)
    ensures
        r@ == "lvar["@ + at@ + "] = "@ + value@,
{
    let mut s = String::from_str("lvar[");
    s.append(at.as_str());
    s.append("] = ");
    s.append(value.as_str());
    proof {
        assert(s@ =~= "lvar["@ + at@ + "] = "@ + value@);
    }
    s
}

/// Declaration of the subcomponent scratch index.
pub fn declare_sub_component_aux() -> (r: RustInstruction)
    ensures
        r@ == "uint sub_component_aux"@,
{
    lit("uint sub_component_aux")
}

/// Declaration of the long-equality index.
pub fn declare_index_multiple_eq() -> (r: RustInstruction)
    ensures
        r@ == "uint index_multiple_eq"@,
{
    lit("uint index_multiple_eq")
}

/// The long-equality index.
pub fn index_multiple_eq() -> (r: RustInstruction)
    ensures
        r@ == "index_multiple_eq"@,
{
    lit("index_multiple_eq")
}

/// Declaration of the destination pointer of a called function.
pub fn declare_dest_pointer() -> (r: RustInstruction)
    ensures
        r@ == "FrElement* destination"@,
{
    lit("FrElement* destination")
}

/// Declaration of the destination size of a called function.
pub fn declare_dest_size() -> (r: RustInstruction)
    ensures
        r@ == "int destination_size"@,
{
    lit("int destination_size")
}

/// Declaration of the component index parameter.
pub fn declare_ctx_index() -> (r: RustInstruction)
    ensures
        r@ == "uint ctx_index"@,
{
    lit("uint ctx_index")
}

/// The component index parameter.
pub fn ctx_index() -> (r: RustInstruction)
    ensures
        r@ == "ctx_index"@,
{
    lit("ctx_index")
}

/// A store into the component index.
pub fn store_ctx_index(value: RustInstruction) -> (r: RustInstruction)
    ensures
        r@ == "ctx_index = "@ + value@,
{
    cat2("ctx_index = ", value.as_str())
}

/// Declaration of the signal offset parameter.
pub fn declare_signal_offset() -> (r: RustInstruction)
    ensures
        r@ == "uint soffset"@,
{
    lit("uint soffset")
}

/// The signal offset parameter.
pub fn signal_offset() -> (r: RustInstruction)
    ensures
        r@ == "soffset"@,
{
    lit("soffset")
}

/// Declaration of the component offset parameter.
pub fn declare_component_offset() -> (r: RustInstruction)
    ensures
        r@ == "uint coffset"@,
{
    lit("uint coffset")
}

/// The component offset parameter.
pub fn component_offset() -> (r: RustInstruction)
    ensures
        r@ == "coffset"@,
{
    lit("coffset")
}

/// Declaration of the component name parameter.
pub fn declare_component_name() -> (r: RustInstruction)
    ensures
        r@ == "std::string componentName"@,
{
    lit("std::string componentName")
}

/// The component name parameter.
pub fn component_name() -> (r: RustInstruction)
    ensures
        r@ == "componentName"@,
{
    lit("componentName")
}

/// Declaration of the parent component parameter.
pub fn declare_component_father() -> (r: RustInstruction)
    ensures
        r@ == "uint componentFather"@,
{
    lit("uint componentFather")
}

/// The parent component parameter.
pub fn component_father() -> (r: RustInstruction)
    ensures
        r@ == "componentFather"@,
{
    lit("componentFather")
}

/// Declaration of the witness-calculator context parameter.
pub fn declare_circom_calc_wit() -> (r: RustInstruction)
    ensures
        r@ == "Circom_CalcWit* ctx"@,
{
    lit("Circom_CalcWit* ctx")
}

/// The witness-calculator context.
pub fn circom_calc_wit() -> (r: RustInstruction)
    ensures
        r@ == "ctx"@,
{
    lit("ctx")
}

/// The per-template IO table.
pub fn template_ins_2_io_info() -> (r: RustInstruction)
    ensures
        r@ == "templateInsId2IOSignalInfo"@,
{
    lit("templateInsId2IOSignalInfo")
}

/// The template id stored in a component-table entry.
pub fn template_id_in_component(idx: RustInstruction) -> (r: RustInstruction)
    ensures
        r@ == "ctx->componentMemory["@ + idx@ + "].templateId"@,
{
    cat3("ctx->componentMemory[", idx.as_str(), "].templateId")
}

/// Declaration of the running component's signal start.
pub fn declare_my_signal_start() -> (r: RustInstruction)
    ensures
        r@ == "u64 mySignalStart = ctx->componentMemory[ctx_index].signalStart"@,
{
    lit("u64 mySignalStart = ctx->componentMemory[ctx_index].signalStart")
}

/// The running component's signal start.
pub fn my_signal_start() -> (r: RustInstruction)
    ensures
        r@ == "mySignalStart"@,
{
    lit("mySignalStart")
}

/// Declaration of the running component's template name.
pub fn declare_my_template_name() -> (r: RustInstruction)
    ensures
        r@ == "std::string myTemplateName = ctx->componentMemory[ctx_index].templateName"@,
{
    lit("std::string myTemplateName = ctx->componentMemory[ctx_index].templateName")
}

/// Declaration of a lowered function's fixed template name.
pub fn declare_my_template_name_function(name: &String) -> (r: RustInstruction)
    ensures
        r@ == "std::string myTemplateName = \""@ + name@ + "\""@,
{
    cat3("std::string myTemplateName = \"", name.as_str(), "\"")
}

/// The running component's template name.
pub fn my_template_name() -> (r: RustInstruction)
    ensures
        r@ == "myTemplateName"@,
{
    lit("myTemplateName")
}

/// Declaration of the running component's instance name.
pub fn declare_my_component_name() -> (r: RustInstruction)
    ensures
        r@ == "std::string myComponentName = ctx->componentMemory[ctx_index].componentName"@,
{
    lit("std::string myComponentName = ctx->componentMemory[ctx_index].componentName")
}

/// The running component's instance name.
pub fn my_component_name() -> (r: RustInstruction)
    ensures
        r@ == "myComponentName"@,
{
    lit("myComponentName")
}

/// Declaration of the running component's parent id.
pub fn declare_my_father() -> (r: RustInstruction)
    ensures
        r@ == "u64 myFather = ctx->componentMemory[ctx_index].idFather"@,
{
    lit("u64 myFather = ctx->componentMemory[ctx_index].idFather")
}

/// The running component's parent id.
pub fn my_father() -> (r: RustInstruction)
    ensures
        r@ == "myFather"@,
{
    lit("myFather")
}

/// Declaration of the running component's own id.
pub fn declare_my_id() -> (r: RustInstruction)
    ensures
        r@ == "u64 myId = ctx_index"@,
{
    lit("u64 myId = ctx_index")
}

/// The running component's own id.
pub fn my_id() -> (r: RustInstruction)
    ensures
        r@ == "myId"@,
{
    lit("myId")
}

/// The per-template run-function table.
pub fn function_table() -> (r: RustInstruction)
    ensures
        r@ == "_functionTable"@,
{
    lit("_functionTable")
}

/// The per-template parallel run-function table.
pub fn function_table_parallel() -> (r: RustInstruction)
    ensures
        r@ == "_functionTableParallel"@,
{
    lit("_functionTableParallel")
}

/// Declaration of the signal array reference.
pub fn declare_signal_values() -> (r: RustInstruction)
    ensures
        r@ == "FrElement* signalValues = ctx->signalValues"@,
{
    lit("FrElement* signalValues = ctx->signalValues")
}

/// A slot of the signal array, relative to the component's segment.
pub fn signal_values(at: RustInstruction) -> (r: RustInstruction)
    ensures
        r@ == "signalValues[mySignalStart + "@ + at@ + "]"@,
{
    cat3("signalValues[mySignalStart + ", at.as_str(), "]")
}

/// A store into the signal array.
pub fn store_signal_values(at: RustInstruction, value: RustInstruction) -> (r: RustInstruction)
    ensures
        r@ == "signalValues[mySignalStart + "@ + at@ + "] = "@ + value@,
{
    let mut s = String::from_str("signalValues[mySignalStart + ");
    s.append(at.as_str());
    s.append("] = ");
    s.append(value.as_str());
    proof {
        assert(s@ =~= "signalValues[mySignalStart + "@ + at@ + "] = "@ + value@);
    }
    s
}

/// Declaration of the running component's subcomponent list.
pub fn declare_my_subcomponents() -> (r: RustInstruction)
    ensures
        r@ == "u32* mySubcomponents = ctx->componentMemory[ctx_index].subcomponents"@,
{
    lit("u32* mySubcomponents = ctx->componentMemory[ctx_index].subcomponents")
}

/// The running component's subcomponent list.
pub fn my_subcomponents() -> (r: RustInstruction)
    ensures
        r@ == "mySubcomponents"@,
{
    lit("mySubcomponents")
}

/// Declaration of the running component's parallel flags.
pub fn declare_my_subcomponents_parallel() -> (r: RustInstruction)
    ensures
        r@ == "bool* mySubcomponentsParallel = ctx->componentMemory[ctx_index].subcomponentsParallel"@,
{
    lit("bool* mySubcomponentsParallel = ctx->componentMemory[ctx_index].subcomponentsParallel")
}

/// The running component's parallel flags.
pub fn my_subcomponents_parallel() -> (r: RustInstruction)
    ensures
        r@ == "mySubcomponentsParallel"@,
{
    lit("mySubcomponentsParallel")
}

/// Declaration of the constant-pool reference.
pub fn declare_circuit_constants() -> (r: RustInstruction)
    ensures
        r@ == "FrElement* circuitConstants = ctx->circuitConstants"@,
{
    lit("FrElement* circuitConstants = ctx->circuitConstants")
}

/// A slot of the constant pool.
pub fn circuit_constants(at: RustInstruction) -> (r: RustInstruction)
    ensures
        r@ == "circuitConstants["@ + at@ + "]"@,
{
    cat3("circuitConstants[", at.as_str(), "]")
}

/// A store into the constant pool.
pub fn store_circuit_constants(at: RustInstruction, value: RustInstruction) -> (r:
    RustInstruction)
    ensures
        r@ == "circuitConstants["@ + at@ + "] = "@ + value@,
{
    let mut s = String::from_str("circuitConstants[");
    s.append(at.as_str());
    s.append("] = ");
    s.append(value.as_str());
    proof {
        assert(s@ =~= "circuitConstants["@ + at@ + "] = "@ + value@);
    }
    s
}

/// Declaration of the next free component-table position.
pub fn declare_free_position_in_component_memory() -> (r: RustInstruction)
    ensures
        r@ == "u32 freePositionInComponentMemory = ctx->freePositionInComponentMemory"@,
{
    lit("u32 freePositionInComponentMemory = ctx->freePositionInComponentMemory")
}

/// The next free component-table position.
pub fn free_position_in_component_memory() -> (r: RustInstruction)
    ensures
        r@ == "freePositionInComponentMemory"@,
{
    lit("freePositionInComponentMemory")
}

/// A store into the next free component-table position.
pub fn store_free_position_in_component_memory(value: String) -> (r: RustInstruction)
    ensures
        r@ == "freePositionInComponentMemory = "@ + value@,
{
    cat2("freePositionInComponentMemory = ", value.as_str())
}

/// Declaration of the template message list reference.
pub fn declare_list_of_template_messages_use() -> (r: RustInstruction)
    ensures
        r@ == "std::string* listOfTemplateMessages = ctx->listOfTemplateMessages"@,
{
    lit("std::string* listOfTemplateMessages = ctx->listOfTemplateMessages")
}

/// The template message list.
pub fn list_of_template_messages_use() -> (r: RustInstruction)
    ensures
        r@ == "listOfTemplateMessages"@,
{
    lit("listOfTemplateMessages")
}

/// The position of a multi-dimensional access, computed by the runtime.
pub fn generate_my_array_position(
    aux_dimensions: String,
    len_dimensions: String,
    param: String,
) -> (r: String)
    ensures
        r@ == "ctx->generate_position_array("@ + aux_dimensions@ + ", "@ + len_dimensions@
            + ", "@ + param@ + ")"@,
{
    let mut s = String::from_str("ctx->generate_position_array(");
    s.append(aux_dimensions.as_str());
    s.append(", ");
    s.append(len_dimensions.as_str());
    s.append(", ");
    s.append(param.as_str());
    s.append(")");
    proof {
        assert(s@ =~= "ctx->generate_position_array("@ + aux_dimensions@ + ", "@
            + len_dimensions@ + ", "@ + param@ + ")"@);
    }
    s
}

/// The causal component trace of the running component.
pub fn generate_my_trace() -> (r: String)
    ensures
        r@ == "ctx->getTrace(myId)"@,
{
    lit("ctx->getTrace(myId)")
}

/// The diagnostic printed when an emitted assertion fails.
pub fn build_failed_assert_message(line: usize) -> (r: String)
    ensures
        r@ == "std::cout << \"Failed assert in template/function \" << myTemplateName << \" line "@
            + dec_str(line as nat)
            + ". \" <<  \"Followed trace of components: \" << ctx->getTrace(myId) << std::endl"@,
{
    let mut s = String::from_str(
        "std::cout << \"Failed assert in template/function \" << myTemplateName << \" line ",
    );
    let t = usize_to_string(line);
    s.append(t.as_str());
    s.append(". \" <<  \"Followed trace of components: \" << ctx->getTrace(myId) << std::endl");
    proof {
        assert(s@ =~= "std::cout << \"Failed assert in template/function \" << myTemplateName << \" line "@
            + dec_str(line as nat)
            + ". \" <<  \"Followed trace of components: \" << ctx->getTrace(myId) << std::endl"@);
    }
    s
}

/// An emitted return statement.
pub fn add_return() -> (r: String)
    ensures
        r@ == "return;"@,
{
    lit("return;")
}

/// The comma-separated join of a list of texts.
pub open spec fn comma_join_spec(ss: Seq<Seq<char>>) -> Seq<char>
    decreases ss.len(),
{
    if ss.len() == 0 {
        Seq::empty()
    } else if ss.len() == 1 {
        ss[0]
    } else {
        comma_join_spec(ss.drop_last()) + ","@ + ss.last()
    }
}

/// Join arguments with commas.
pub fn argument_list(args: Vec<String>) -> (r: String)
    ensures
        r@ == comma_join_spec(views(args@)),
{
    let mut s = String::new();
    let n: usize = args.len();
    let mut i: usize = 0;
    while i < n
        invariant
            0 <= i <= n,
            n == args@.len(),
            s@ == comma_join_spec(views(args@.take(i as int))),
        decreases n - i,
    {
        if i > 0 {
            s.append(",");
        }
        s.append(args[i].as_str());
        proof {
            let ta: Seq<Seq<char>> = views(args@.take(i as int + 1));
            assert(ta.drop_last() =~= views(args@.take(i as int)));
            assert(ta.last() == args@[i as int]@);
            assert(s@ =~= comma_join_spec(ta));
        }
        i = i + 1;
    }
    proof {
        assert(args@.take(n as int) =~= args@);
    }
    s
}

/// An emitted call of a callable by name.
pub fn build_call(header: String, arguments: Vec<String>) -> (r: String)
    ensures
        r@ == header@ + "("@ + comma_join_spec(views(arguments@)) + ")"@,
{
    let mut s = String::new();
    s.append(header.as_str());
    s.append("(");
    let a = argument_list(arguments);
    s.append(a.as_str());
    s.append(")");
    proof {
        assert(s@ =~= header@ + "("@ + comma_join_spec(views(arguments@)) + ")"@);
    }
    s
}

/// An emitted callable definition: header, parameter list, body.
pub fn build_callable(header: String, params: Vec<String>, body: Vec<String>) -> (r: String)
    ensures
        r@ == header@ + "("@ + comma_join_spec(views(params@)) + "){\n"@ + crate::text::merge_spec(
            views(body@),
        ) + "}\n"@,
{
    let mut s = String::new();
    s.append(header.as_str());
    s.append("(");
    let a = argument_list(params);
    s.append(a.as_str());
    s.append("){\n");
    let m = crate::text::merge_code(body);
    s.append(m.as_str());
    s.append("}\n");
    proof {
        assert(s@ =~= header@ + "("@ + a@ + "){\n"@ + m@ + "}\n"@);
    }
    s
}

/// The emitted brace-list of integers.
pub open spec fn set_list_spec(elems: Seq<usize>) -> Seq<char>
    decreases elems.len(),
{
    if elems.len() == 0 {
        Seq::empty()
    } else if elems.len() == 1 {
        dec_str(elems[0] as nat)
    } else {
        set_list_spec(elems.drop_last()) + ","@ + dec_str(elems.last() as nat)
    }
}

/// An emitted initializer list of integers.
pub fn set_list(elems: Vec<usize>) -> (r: String)
    ensures
        r@ == "{"@ + set_list_spec(elems@) + "}"@,
{
    let mut s = String::from_str("{");
    let n: usize = elems.len();
    let mut i: usize = 0;
    while i < n
        invariant
            0 <= i <= n,
            n == elems@.len(),
            s@ == "{"@ + set_list_spec(elems@.take(i as int)),
        decreases n - i,
    {
        if i > 0 {
            s.append(",");
        }
        let t = usize_to_string(elems[i]);
        s.append(t.as_str());
        proof {
            let ta: Seq<usize> = elems@.take(i as int + 1);
            assert(ta.drop_last() =~= elems@.take(i as int));
            assert(ta.last() == elems@[i as int]);
            assert(s@ =~= "{"@ + set_list_spec(ta));
        }
        i = i + 1;
    }
    proof {
        assert(elems@.take(n as int) =~= elems@);
    }
    s.append("}");
    proof {
        assert(s@ =~= "{"@ + set_list_spec(elems@) + "}"@);
    }
    s
}

/// The rendering of a boolean.
pub open spec fn bool_str_spec(b: bool) -> Seq<char> {
    if b {
        "true"@
    } else {
        "false"@
    }
}

/// The emitted brace-list of booleans.
pub open spec fn set_list_bool_spec(elems: Seq<bool>) -> Seq<char>
    decreases elems.len(),
{
    if elems.len() == 0 {
        Seq::empty()
    } else if elems.len() == 1 {
        bool_str_spec(elems[0])
    } else {
        set_list_bool_spec(elems.drop_last()) + ","@ + bool_str_spec(elems.last())
    }
}

/// An emitted initializer list of booleans.
pub fn set_list_bool(elems: Vec<bool>) -> (r: String)
    ensures
        r@ == "{"@ + set_list_bool_spec(elems@) + "}"@,
{
    let mut s = String::from_str("{");
    let n: usize = elems.len();
    let mut i: usize = 0;
    while i < n
        invariant
            0 <= i <= n,
            n == elems@.len(),
            s@ == "{"@ + set_list_bool_spec(elems@.take(i as int)),
        decreases n - i,
    {
        if i > 0 {
            s.append(",");
        }
        if elems[i] {
            s.append("true");
        } else {
            s.append("false");
        }
        proof {
            let ta: Seq<bool> = elems@.take(i as int + 1);
            assert(ta.drop_last() =~= elems@.take(i as int));
            assert(ta.last() == elems@[i as int]);
            assert(s@ =~= "{"@ + set_list_bool_spec(ta));
        }
        i = i + 1;
    }
    proof {
        assert(elems@.take(n as int) =~= elems@);
    }
    s.append("}");
    proof {
        assert(s@ =~= "{"@ + set_list_bool_spec(elems@) + "}"@);
    }
    s
}

/// An emitted conditional statement around two bodies.
pub fn build_conditional(cond: String, if_body: Vec<String>, else_body: Vec<String>) -> (r:
    Vec<String>)
    ensures
        views(r@) == seq!["if "@ + cond@ + " {"@] + views(if_body@) + (if else_body@.len() > 0 {
            seq!["} else {"@] + views(else_body@)
        } else {
            Seq::<Seq<char>>::empty()
        }) + seq!["}"@],
{
    let ghost if_views: Seq<Seq<char>> = views(if_body@);
    let ghost else_views: Seq<Seq<char>> = views(else_body@);
    let mut conditional: Vec<String> = Vec::new();
    let mut head = String::from_str("if ");
    head.append(cond.as_str());
    head.append(" {");
    proof {
        assert(head@ =~= "if "@ + cond@ + " {"@);
    }
    conditional.push(head);
    let mut if_body = if_body;
    conditional.append(&mut if_body);
    let nonempty_else: bool = else_body.len() > 0;
    if nonempty_else {
        conditional.push(String::from_str("} else {"));
        let mut else_body = else_body;
        conditional.append(&mut else_body);
    }
    conditional.push(String::from_str("}"));
    proof {
        assert(views(conditional@) =~= seq!["if "@ + cond@ + " {"@] + if_views + (
        if else_views.len() > 0 {
            seq!["} else {"@] + else_views
        } else {
            Seq::<Seq<char>>::empty()
        }) + seq!["}"@]);
    }
    conditional
}


/// The operators the native backend covers; it is a strict subset of the
/// bytecode backend's coverage, never an approximation.
pub open spec fn rust_op_supported(op: OperatorType) -> bool {
    match op {
        OperatorType::Add => true,
        OperatorType::Sub => true,
        OperatorType::Mul => true,
        OperatorType::Div => true,
        OperatorType::ShiftL => true,
        OperatorType::ShiftR => true,
        OperatorType::Lesser => true,
        OperatorType::Eq(_) => true,
        OperatorType::BitAnd => true,
        OperatorType::ToAddress => true,
        OperatorType::AddAddress => true,
        OperatorType::MulAddress => true,
        _ => false,
    }
}

/// What the native backend accepts of an address.
pub open spec fn address_rust_wf(a: AddressType) -> bool
    decreases a, 1int,
{
    match a {
        AddressType::Variable => true,
        AddressType::Signal => true,
        AddressType::SubcmpSignal { cmp_address, .. } => instr_rust_wf(*cmp_address),
    }
}

/// What the native backend accepts of an instruction tree. The call and
/// log nodes, and the operators it does not yet cover, are left to the
/// bytecode backend.
pub open spec fn instr_rust_wf(i: Instruction) -> bool
    decreases i, 2int,
{
    match i {
        Instruction::Value(_) => true,
        Instruction::Load(b) => address_rust_wf(b.address_type) && (match b.src {
            LocationRule::Indexed { location, .. } => instr_rust_wf(*location),
            LocationRule::Mapped { .. } => false,
        }),
        Instruction::Store(b) => {
            &&& instr_rust_wf(*b.src)
            &&& address_rust_wf(b.dest_address_type)
            &&& (match b.dest {
                LocationRule::Indexed { location, template_header } => instr_rust_wf(*location)
                    && (b.dest_address_type is SubcmpSignal ==> template_header is Some),
                LocationRule::Mapped { indexes, .. } => b.dest_address_type is SubcmpSignal
                    && indexes@.len() >= 1 && forall|k: int|
                    0 <= k < indexes@.len() ==> instr_rust_wf(*#[trigger] indexes@[k]),
            })
            &&& (match b.dest_address_type {
                AddressType::SubcmpSignal { uniform_parallel_value, input_information, .. } => {
                    &&& uniform_parallel_value != Option::Some(true)
                    &&& input_information is Input
                },
                AddressType::Signal => !b.dest_is_output,
                _ => true,
            })
        },
        Instruction::Compute(b) => rust_op_supported(b.op) && (forall|k: int|
            0 <= k < b.stack@.len() ==> instr_rust_wf(*#[trigger] b.stack@[k])) && (match b.op {
            OperatorType::ToAddress => b.stack@.len() == 1,
            _ => b.stack@.len() == 2,
        }),
        Instruction::Call(_) => false,
        Instruction::Assert(b) => instr_rust_wf(*b.evaluate),
        Instruction::Log(_) => false,
    }
}

/// The expression the native backend reads a node's value from.
pub open spec fn instr_rust_expr_spec(i: Instruction) -> Seq<char>
    decreases i, 2int,
{
    match i {
        Instruction::Value(b) => match b.parse_as {
            ValueType::U32 => dec_str(b.value as nat),
            ValueType::BigInt => "constants["@ + dec_str(b.value as nat) + "]"@,
        },
        Instruction::Load(b) => load_rust_expr_spec(b),
        Instruction::Compute(b) => compute_rust_expr_spec(b),
        _ => Seq::empty(),
    }
}

/// The expression of a load: the slot the address resolves to.
pub open spec fn load_rust_expr_spec(b: LoadBucket) -> Seq<char>
    decreases b, 1int,
{
    match b.src {
        LocationRule::Indexed { location, .. } => (match b.address_type {
            AddressType::Variable => "lvar["@ + instr_rust_expr_spec(*location) + "]"@,
            AddressType::Signal => "ctx.signals[signal_start + "@ + instr_rust_expr_spec(
                *location,
            ) + "]"@,
            AddressType::SubcmpSignal { cmp_address, .. } => "ctx.signals[ctx.components[subcomponents["@
                + instr_rust_expr_spec(*cmp_address) + "]].signal_start + "@
                + instr_rust_expr_spec(*location) + "]"@,
        }),
        LocationRule::Mapped { .. } => Seq::empty(),
    }
}

/// The first operand's expression.
pub open spec fn operand0_expr_spec(s: Seq<Box<Instruction>>) -> Seq<char>
    decreases s, 0int,
{
    if s.len() >= 1 {
        instr_rust_expr_spec(*s[0])
    } else {
        Seq::empty()
    }
}

/// The second operand's expression.
pub open spec fn operand1_expr_spec(s: Seq<Box<Instruction>>) -> Seq<char>
    decreases s, 0int,
{
    if s.len() >= 2 {
        instr_rust_expr_spec(*s[1])
    } else {
        Seq::empty()
    }
}

/// The expression of a compute node: a scratch slot for field operations,
/// a direct expression for address arithmetic.
pub open spec fn compute_rust_expr_spec(b: ComputeBucket) -> Seq<char>
    decreases b, 1int,
{
    match b.op {
        OperatorType::AddAddress => "("@ + operand0_expr_spec(b.stack@) + " + "@
            + operand1_expr_spec(b.stack@) + ")"@,
        OperatorType::MulAddress => "("@ + operand0_expr_spec(b.stack@) + " * "@
            + operand1_expr_spec(b.stack@) + ")"@,
        OperatorType::ToAddress => "(field::to_u64("@ + operand0_expr_spec(b.stack@)
            + ").unwrap() as usize)"@,
        _ => "expaux["@ + dec_str(b.op_aux_no as nat) + "]"@,
    }
}

/// The statement computing a supported binary operation into its slot.
pub open spec fn build_op_spec(op: OperatorType, a: Seq<char>, b: Seq<char>) -> Seq<char> {
    match op {
        OperatorType::Add => "("@ + a + " + "@ + b + ")"@,
        OperatorType::Sub => "("@ + a + " - "@ + b + ")"@,
        OperatorType::Mul => "("@ + a + " * "@ + b + ")"@,
        OperatorType::Div => "("@ + a + " / "@ + b + ")"@,
        OperatorType::ShiftL => "field::shl("@ + a + ", "@ + b + ")"@,
        OperatorType::ShiftR => "field::shr("@ + a + ", "@ + b + ")"@,
        OperatorType::Lesser => "field::from_bool(field::lt("@ + a + ", "@ + b + "))"@,
        OperatorType::Eq(_) => "field::from_bool("@ + a + " == "@ + b + ")"@,
        OperatorType::BitAnd => "field::bit_and("@ + a + ", "@ + b + ")"@,
        _ => Seq::empty(),
    }
}

/// The statements the native backend runs before reading a node's value.
pub open spec fn instr_rust_code_spec(i: Instruction, parallel: Option<bool>) -> Seq<Seq<char>>
    decreases i, 2int,
{
    match i {
        Instruction::Value(_) => Seq::empty(),
        Instruction::Load(b) => load_rust_code_spec(b, parallel),
        Instruction::Compute(b) => compute_rust_code_spec(b, parallel),
        Instruction::Store(b) => store_rust_spec(b, parallel),
        Instruction::Assert(b) => assert_rust_code_spec(b, parallel),
        _ => Seq::empty(),
    }
}

/// The statements of a load: whatever its address sub-trees need.
pub open spec fn load_rust_code_spec(b: LoadBucket, parallel: Option<bool>) -> Seq<Seq<char>>
    decreases b, 1int,
{
    match b.src {
        LocationRule::Indexed { location, .. } => (match b.address_type {
            AddressType::SubcmpSignal { cmp_address, .. } => instr_rust_code_spec(
                *cmp_address,
                parallel,
            ),
            _ => Seq::<Seq<char>>::empty(),
        }) + instr_rust_code_spec(*location, parallel),
        LocationRule::Mapped { .. } => Seq::empty(),
    }
}

/// The statements of a compute node: its operands' statements, then the
/// store into its scratch slot.
pub open spec fn compute_rust_code_spec(b: ComputeBucket, parallel: Option<bool>) -> Seq<
    Seq<char>,
>
    decreases b, 1int,
{
    stack_rust_code_spec(b.stack@, parallel) + (match b.op {
        OperatorType::AddAddress => Seq::<Seq<char>>::empty(),
        OperatorType::MulAddress => Seq::<Seq<char>>::empty(),
        OperatorType::ToAddress => Seq::<Seq<char>>::empty(),
        _ => seq![
            "expaux["@ + dec_str(b.op_aux_no as nat) + "] = "@ + build_op_spec(
                b.op,
                operand0_expr_spec(b.stack@),
                operand1_expr_spec(b.stack@),
            ) + "; // circom line "@ + dec_str(b.line as nat),
        ],
    })
}

/// The statements of an assert node: evaluate, then check.
pub open spec fn assert_rust_code_spec(b: AssertBucket, parallel: Option<bool>) -> Seq<Seq<char>>
    decreases b, 1int,
{
    instr_rust_code_spec(*b.evaluate, parallel) + seq![
        "assert!(field::is_true("@ + instr_rust_expr_spec(*b.evaluate) + "));"@,
    ]
}

/// The statements of a list of operand sub-trees, in order.
pub open spec fn stack_rust_code_spec(s: Seq<Box<Instruction>>, parallel: Option<bool>) -> Seq<
    Seq<char>,
>
    decreases s, 3int,
{
    if s.len() == 0 {
        Seq::empty()
    } else {
        stack_rust_code_spec(s.drop_last(), parallel) + instr_rust_code_spec(*s.last(), parallel)
    }
}

/// The IO-table access of a mapped destination, up to the offset field.
pub open spec fn io_access_prefix_spec(signal_code: nat) -> Seq<char> {
    "ctx.circuit.template_to_io_signal[&ctx.components[subcomponents[cmp_index_ref]].template_id]["@
        + dec_str(signal_code) + "]"@
}

/// The statements filling the auxiliary index array of a mapped
/// destination.
pub open spec fn map_index_lines_spec(indexes: Seq<Box<Instruction>>, parallel: Option<
    bool,
>) -> Seq<Seq<char>>
    decreases indexes, 3int,
{
    if indexes.len() == 0 {
        Seq::empty()
    } else {
        map_index_lines_spec(indexes.drop_last(), parallel) + instr_rust_code_spec(
            *indexes.last(),
            parallel,
        ) + seq![
            "map_index_aux["@ + dec_str((indexes.len() - 1) as nat) + "] = "@
                + instr_rust_expr_spec(*indexes.last()) + ";"@,
        ]
    }
}

/// The folded index expression of a mapped destination: each index term is
/// multiplied by the declared size of the next dimension, left to right.
pub open spec fn map_index_expr_spec(indexes: Seq<Box<Instruction>>, signal_code: nat) -> Seq<
    char,
>
    decreases indexes.len(),
{
    if indexes.len() <= 1 {
        "map_index_aux[0]"@
    } else {
        "("@ + map_index_expr_spec(indexes.drop_last(), signal_code) + " * "@
            + io_access_prefix_spec(signal_code) + ".lengths["@ + dec_str(
            (indexes.len() - 2) as nat,
        ) + "] + map_index_aux["@ + dec_str((indexes.len() - 1) as nat) + "])"@
    }
}


proof fn lemma_map_index_step(s: Seq<Box<Instruction>>, k: int, code: nat)
    requires
        1 <= k < s.len(),
    ensures
        map_index_expr_spec(s.take(k + 1), code) == "("@ + map_index_expr_spec(s.take(k), code)
            + " * "@ + io_access_prefix_spec(code) + ".lengths["@ + dec_str((k - 1) as nat)
            + "] + map_index_aux["@ + dec_str(k as nat) + "])"@,
{
    assert(s.take(k + 1).drop_last() =~= s.take(k));
    assert(s.take(k + 1).len() == k + 1);
    assert(map_index_expr_spec(s.take(k + 1), code) == "("@ + map_index_expr_spec(
        s.take(k + 1).drop_last(),
        code,
    ) + " * "@ + io_access_prefix_spec(code) + ".lengths["@ + dec_str(
        (s.take(k + 1).len() - 2) as nat,
    ) + "] + map_index_aux["@ + dec_str((s.take(k + 1).len() - 1) as nat) + "])"@);
}

/// The destination slot of a store in the native backend.
pub open spec fn store_dest_expr_spec(b: StoreBucket, dest_index: Seq<char>) -> Seq<char> {
    match b.dest_address_type {
        AddressType::Variable => "lvar["@ + dest_index + "]"@,
        AddressType::Signal => "ctx.signals[signal_start + "@ + dest_index + "]"@,
        AddressType::SubcmpSignal { .. } => "ctx.signals[ctx.components[subcomponents[cmp_index_ref]].signal_start + "@
            + dest_index + "]"@,
    }
}

/// The index text of a store destination.
pub open spec fn store_dest_index_spec(b: StoreBucket) -> Seq<char> {
    match b.dest {
        LocationRule::Indexed { location, .. } => instr_rust_expr_spec(*location),
        LocationRule::Mapped { signal_code, indexes } => io_access_prefix_spec(signal_code as nat)
            + ".offset"@ + (if indexes.len() > 0 {
            "+"@ + map_index_expr_spec(indexes@, signal_code as nat)
        } else {
            Seq::<char>::empty()
        }),
    }
}

/// The run call of a triggered subcomponent in the native backend.
pub open spec fn store_call_name_spec(b: StoreBucket, uniform: Option<bool>) -> Seq<char> {
    match b.dest {
        LocationRule::Indexed { template_header, .. } => (match template_header {
            Option::Some(h) => h@ + "_run"@,
            Option::None => Seq::<char>::empty(),
        }),
        LocationRule::Mapped { .. } => if uniform is Some {
            "(ctx.function_table[ctx.components[subcomponents[cmp_index_ref]].template_id])"@
        } else {
            "(*_functionTable[ctx.components[subcomponents[cmp_index_ref]].template_id])"@
        },
    }
}

/// The introduction of a store into a subcomponent: resolve which
/// subcomponent and bind its index.
pub open spec fn store_prefix_spec(b: StoreBucket, parallel: Option<bool>) -> Seq<Seq<char>>
    decreases b, 0int,
{
    match b.dest_address_type {
        AddressType::SubcmpSignal { cmp_address, .. } => instr_rust_code_spec(
            *cmp_address,
            parallel,
        ) + seq![
            "{"@,
            "let cmp_index_ref = "@ + instr_rust_expr_spec(*cmp_address) + ";"@,
        ],
        _ => Seq::<Seq<char>>::empty(),
    }
}

/// The statements resolving a store's destination index.
pub open spec fn store_destidx_lines_spec(b: StoreBucket, parallel: Option<bool>) -> Seq<
    Seq<char>,
>
    decreases b, 0int,
{
    match b.dest {
        LocationRule::Indexed { location, .. } => instr_rust_code_spec(*location, parallel),
        LocationRule::Mapped { signal_code, indexes } => if indexes.len() > 0 {
            seq![
                "{"@,
                "let mut map_index_aux = vec![0usize; "@ + dec_str(indexes@.len() as nat)
                    + "];"@,
            ] + map_index_lines_spec(indexes@, parallel)
        } else {
            Seq::<Seq<char>>::empty()
        },
    }
}

/// The statements moving the source value into the destination slot.
pub open spec fn store_move_lines_spec(b: StoreBucket, parallel: Option<bool>) -> Seq<Seq<char>>
    decreases b, 0int,
{
    seq!["{"@, "// load src"@] + instr_rust_code_spec(*b.src, parallel) + seq![
        "// end load src"@,
    ] + (if b.context.size > 1 {
        seq![
            "Fr_copyn("@ + store_dest_expr_spec(b, store_dest_index_spec(b)) + ","@
                + instr_rust_expr_spec(*b.src) + ","@ + dec_str(b.context.size as nat) + ");"@,
        ]
    } else {
        seq![
            store_dest_expr_spec(b, store_dest_index_spec(b)) + " = "@ + instr_rust_expr_spec(
                *b.src,
            ) + ";"@,
        ]
    }) + seq!["}"@]
}

/// The counter update and trigger of a store into a subcomponent input.
pub open spec fn store_trigger_lines_spec(b: StoreBucket) -> Seq<Seq<char>> {
    let counter: Seq<char> = "ctx.components[subcomponents[cmp_index_ref]].input_counter"@;
    match b.dest_address_type {
        AddressType::SubcmpSignal { uniform_parallel_value, input_information, .. } => (
        match input_information {
            InputInformation::Input { status } => (match status {
                StatusInput::NoLast => seq![
                    "// no need to run sub component"@,
                    counter + " -= "@ + dec_str(b.context.size as nat) + ";"@,
                    "assert!("@ + counter + " != 0);"@,
                ],
                StatusInput::Unknown => seq![
                    "// run sub component if needed"@,
                    counter + " -= "@ + dec_str(b.context.size as nat) + ";"@,
                    "if "@ + counter + " == 0 {"@,
                    store_call_name_spec(b, uniform_parallel_value)
                        + "(subcomponents[cmp_index_ref],ctx);"@,
                    "}"@,
                ],
                StatusInput::Last => seq![
                    "// need to run sub component"@,
                    counter + " -= "@ + dec_str(b.context.size as nat) + ";"@,
                    "assert!("@ + counter + " == 0);"@,
                    store_call_name_spec(b, uniform_parallel_value)
                        + "(subcomponents[cmp_index_ref],ctx);"@,
                ],
            }),
            InputInformation::NoInput => Seq::<Seq<char>>::empty(),
        }) + seq!["}"@],
        _ => Seq::<Seq<char>>::empty(),
    }
}

/// The closing brace of a mapped destination's index block.
pub open spec fn store_closer_spec(b: StoreBucket) -> Seq<Seq<char>> {
    match b.dest {
        LocationRule::Mapped { indexes, .. } => if indexes.len() > 0 {
            seq!["}"@]
        } else {
            Seq::<Seq<char>>::empty()
        },
        _ => Seq::<Seq<char>>::empty(),
    }
}

/// The statements of a store in the native backend: resolve the
/// destination, move the source value, and for a subcomponent input update
/// the counter and trigger the run.
pub open spec fn store_rust_spec(b: StoreBucket, parallel: Option<bool>) -> Seq<Seq<char>>
    decreases b, 1int,
{
    store_prefix_spec(b, parallel) + store_destidx_lines_spec(b, parallel)
        + store_move_lines_spec(b, parallel) + store_trigger_lines_spec(b) + store_closer_spec(b)
}


/// State the native backend's emission reads: the field prime and the
/// lowered circuit's tables.
pub struct RustProducer {
    pub prime: String,
    pub size_32_bit: usize,
    pub main_input_list: crate::components::InputList,
    pub witness_to_signal_list: crate::components::SignalList,
    pub field_constant_list: Vec<String>,
    pub io_map: crate::components::TemplateInstanceIOMap,
    pub template_instance_list: crate::components::TemplateListParallel,
    pub number_of_template_instances: usize,
}

impl ValueBucket {
    /// Emit the leaf for the native backend: no statements, one expression.
    pub fn produce_rust(&self, _producer: &RustProducer, _parallel: Option<bool>) -> (r: (
        Vec<String>,
        String,
    ))
        ensures
            views(r.0@) == instr_rust_code_spec(Instruction::Value(*self), _parallel),
            r.1@ == instr_rust_expr_spec(Instruction::Value(*self)),
    {
        let expr: String = match self.parse_as {
            ValueType::U32 => usize_to_string(self.value),
            ValueType::BigInt => {
                let t = usize_to_string(self.value);
                cat3("constants[", t.as_str(), "]")
            },
        };
        let lines: Vec<String> = Vec::new();
        proof {
            assert(views(lines@) =~= instr_rust_code_spec(Instruction::Value(*self), _parallel));
        }
        (lines, expr)
    }
}

impl LoadBucket {
    /// Emit the load for the native backend: the address sub-trees'
    /// statements, and the resolved slot as the expression.
    pub fn produce_rust(&self, producer: &RustProducer, parallel: Option<bool>) -> (r: (
        Vec<String>,
        String,
    ))
        requires
            instr_rust_wf(Instruction::Load(*self)),
        ensures
            views(r.0@) == instr_rust_code_spec(Instruction::Load(*self), parallel),
            r.1@ == instr_rust_expr_spec(Instruction::Load(*self)),
        decreases self, 1int,
    {
        let mut lines: Vec<String> = Vec::new();
        proof {
            assert(address_rust_wf(self.address_type));
        }
        match &self.src {
            LocationRule::Indexed { location, .. } => {
                let expr: String;
                match &self.address_type {
                    AddressType::Variable => {
                        let (mut loc_lines, loc_expr) = location.produce_rust(
                            producer,
                            parallel,
                        );
                        lines.append(&mut loc_lines);
                        expr = cat3("lvar[", loc_expr.as_str(), "]");
                    },
                    AddressType::Signal => {
                        let (mut loc_lines, loc_expr) = location.produce_rust(
                            producer,
                            parallel,
                        );
                        lines.append(&mut loc_lines);
                        expr = cat3("ctx.signals[signal_start + ", loc_expr.as_str(), "]");
                    },
                    AddressType::SubcmpSignal { cmp_address, .. } => {
                        let (mut cmp_lines, cmp_expr) = cmp_address.produce_rust(
                            producer,
                            parallel,
                        );
                        lines.append(&mut cmp_lines);
                        let (mut loc_lines, loc_expr) = location.produce_rust(
                            producer,
                            parallel,
                        );
                        lines.append(&mut loc_lines);
                        let mut e = String::from_str(
                            "ctx.signals[ctx.components[subcomponents[",
                        );
                        e.append(cmp_expr.as_str());
                        e.append("]].signal_start + ");
                        e.append(loc_expr.as_str());
                        e.append("]");
                        proof {
                            assert(e@ =~= "ctx.signals[ctx.components[subcomponents["@
                                + cmp_expr@ + "]].signal_start + "@ + loc_expr@ + "]"@);
                        }
                        expr = e;
                    },
                }
                proof {
                    assert(views(lines@) =~= instr_rust_code_spec(
                        Instruction::Load(*self),
                        parallel,
                    ));
                    assert(expr@ =~= instr_rust_expr_spec(Instruction::Load(*self)));
                }
                (lines, expr)
            },
            LocationRule::Mapped { .. } => {
                proof {
                    assert(false);
                }
                (lines, String::new())
            },
        }
    }
}

impl ComputeBucket {
    /// Emit the compute node for the native backend: the operand
    /// statements, then a single store into the scratch slot or a direct
    /// address expression.
    pub fn produce_rust(&self, producer: &RustProducer, parallel: Option<bool>) -> (r: (
        Vec<String>,
        String,
    ))
        requires
            instr_rust_wf(Instruction::Compute(*self)),
        ensures
            views(r.0@) == instr_rust_code_spec(Instruction::Compute(*self), parallel),
            r.1@ == instr_rust_expr_spec(Instruction::Compute(*self)),
        decreases self, 1int,
    {
        let mut compute_rust: Vec<String> = Vec::new();
        let mut operands: Vec<String> = Vec::new();
        let n: usize = self.stack.len();
        let mut i: usize = 0;
        proof {
            assert(stack_rust_code_spec(self.stack@.take(0int), parallel) =~= Seq::<
                Seq<char>,
            >::empty());
        }
        while i < n
            invariant
                0 <= i <= n,
                n == self.stack@.len(),
                instr_rust_wf(Instruction::Compute(*self)),
                views(compute_rust@) == stack_rust_code_spec(self.stack@.take(i as int), parallel),
                operands@.len() == i,
                forall|k: int|
                    0 <= k < i ==> (#[trigger] operands@[k])@ == instr_rust_expr_spec(
                        *self.stack@[k],
                    ),
            decreases n - i,
        {
            let (mut instr_lines, operand) = self.stack[i].produce_rust(producer, parallel);
            operands.push(operand);
            compute_rust.append(&mut instr_lines);
            proof {
                let ta: Seq<Box<Instruction>> = self.stack@.take(i as int + 1);
                assert(ta.drop_last() =~= self.stack@.take(i as int));
                assert(ta.last() == self.stack@[i as int]);
                assert(views(compute_rust@) =~= stack_rust_code_spec(ta, parallel));
            }
            i = i + 1;
        }
        proof {
            assert(self.stack@.take(n as int) =~= self.stack@);
        }
        let result: String;
        match self.op {
            OperatorType::AddAddress => {
                let mut e = String::from_str("(");
                e.append(operands[0].as_str());
                e.append(" + ");
                e.append(operands[1].as_str());
                e.append(")");
                proof {
                    assert(e@ =~= compute_rust_expr_spec(*self));
                }
                result = e;
            },
            OperatorType::MulAddress => {
                let mut e = String::from_str("(");
                e.append(operands[0].as_str());
                e.append(" * ");
                e.append(operands[1].as_str());
                e.append(")");
                proof {
                    assert(e@ =~= compute_rust_expr_spec(*self));
                }
                result = e;
            },
            OperatorType::ToAddress => {
                let mut e = String::from_str("(field::to_u64(");
                e.append(operands[0].as_str());
                e.append(").unwrap() as usize)");
                proof {
                    assert(e@ =~= compute_rust_expr_spec(*self));
                }
                result = e;
            },
            _ => {
                let t = usize_to_string(self.op_aux_no);
                let e = cat3("expaux[", t.as_str(), "]");
                let op_text: String = build_op_line(self.op, &operands[0], &operands[1]);
                let mut line = String::from_str("expaux[");
                line.append(t.as_str());
                line.append("] = ");
                line.append(op_text.as_str());
                line.append("; // circom line ");
                let lt = usize_to_string(self.line);
                line.append(lt.as_str());
                proof {
                    assert(operands@[0]@ == operand0_expr_spec(self.stack@));
                    assert(operands@[1]@ == operand1_expr_spec(self.stack@));
                    assert(line@ =~= "expaux["@ + dec_str(self.op_aux_no as nat) + "] = "@
                        + build_op_spec(
                        self.op,
                        operand0_expr_spec(self.stack@),
                        operand1_expr_spec(self.stack@),
                    ) + "; // circom line "@ + dec_str(self.line as nat));
                }
                compute_rust.push(line);
                proof {
                    assert(e@ =~= compute_rust_expr_spec(*self));
                    assert(views(compute_rust@) =~= instr_rust_code_spec(
                        Instruction::Compute(*self),
                        parallel,
                    ));
                }
                result = e;
            },
        }
        proof {
            assert(views(compute_rust@) =~= instr_rust_code_spec(
                Instruction::Compute(*self),
                parallel,
            ));
            assert(result@ =~= instr_rust_expr_spec(Instruction::Compute(*self)));
        }
        (compute_rust, result)
    }
}

/// Build the right-hand side of a supported binary operation.
fn build_op_line(op: OperatorType, a: &String, b: &String) -> (r: String)
    requires
        rust_op_supported(op),
        !(op is ToAddress),
        !(op is AddAddress),
        !(op is MulAddress),
    ensures
        r@ == build_op_spec(op, a@, b@),
{
    match op {
        OperatorType::Add => {
            let mut s = String::from_str("(");
            s.append(a.as_str());
            s.append(" + ");
            s.append(b.as_str());
            s.append(")");
            proof {
                assert(s@ =~= build_op_spec(op, a@, b@));
            }
            s
        },
        OperatorType::Sub => {
            let mut s = String::from_str("(");
            s.append(a.as_str());
            s.append(" - ");
            s.append(b.as_str());
            s.append(")");
            proof {
                assert(s@ =~= build_op_spec(op, a@, b@));
            }
            s
        },
        OperatorType::Mul => {
            let mut s = String::from_str("(");
            s.append(a.as_str());
            s.append(" * ");
            s.append(b.as_str());
            s.append(")");
            proof {
                assert(s@ =~= build_op_spec(op, a@, b@));
            }
            s
        },
        OperatorType::Div => {
            let mut s = String::from_str("(");
            s.append(a.as_str());
            s.append(" / ");
            s.append(b.as_str());
            s.append(")");
            proof {
                assert(s@ =~= build_op_spec(op, a@, b@));
            }
            s
        },
        OperatorType::ShiftL => {
            let mut s = String::from_str("field::shl(");
            s.append(a.as_str());
            s.append(", ");
            s.append(b.as_str());
            s.append(")");
            proof {
                assert(s@ =~= build_op_spec(op, a@, b@));
            }
            s
        },
        OperatorType::ShiftR => {
            let mut s = String::from_str("field::shr(");
            s.append(a.as_str());
            s.append(", ");
            s.append(b.as_str());
            s.append(")");
            proof {
                assert(s@ =~= build_op_spec(op, a@, b@));
            }
            s
        },
        OperatorType::Lesser => {
            let mut s = String::from_str("field::from_bool(field::lt(");
            s.append(a.as_str());
            s.append(", ");
            s.append(b.as_str());
            s.append("))");
            proof {
                assert(s@ =~= build_op_spec(op, a@, b@));
            }
            s
        },
        OperatorType::Eq(_) => {
            let mut s = String::from_str("field::from_bool(");
            s.append(a.as_str());
            s.append(" == ");
            s.append(b.as_str());
            s.append(")");
            proof {
                assert(s@ =~= build_op_spec(op, a@, b@));
            }
            s
        },
        OperatorType::BitAnd => {
            let mut s = String::from_str("field::bit_and(");
            s.append(a.as_str());
            s.append(", ");
            s.append(b.as_str());
            s.append(")");
            proof {
                assert(s@ =~= build_op_spec(op, a@, b@));
            }
            s
        },
        _ => vstd::pervasive::unreached(),
    }
}

impl AssertBucket {
    /// Emit the assert for the native backend: evaluate, then check.
    pub fn produce_rust(&self, producer: &RustProducer, parallel: Option<bool>) -> (r: (
        Vec<String>,
        String,
    ))
        requires
            instr_rust_wf(Instruction::Assert(*self)),
        ensures
            views(r.0@) == instr_rust_code_spec(Instruction::Assert(*self), parallel),
            r.1@ == instr_rust_expr_spec(Instruction::Assert(*self)),
        decreases self, 1int,
    {
        let mut code: Vec<String> = Vec::new();
        let (mut prologue, value) = self.evaluate.produce_rust(producer, parallel);
        code.append(&mut prologue);
        let line = cat3("assert!(field::is_true(", value.as_str(), "));");
        code.push(line);
        proof {
            assert(views(code@) =~= instr_rust_code_spec(Instruction::Assert(*self), parallel));
        }
        (code, String::new())
    }
}

impl Instruction {
    /// Emit one instruction for the native backend.
    pub fn produce_rust(&self, producer: &RustProducer, parallel: Option<bool>) -> (r: (
        Vec<String>,
        String,
    ))
        requires
            instr_rust_wf(*self),
        ensures
            views(r.0@) == instr_rust_code_spec(*self, parallel),
            r.1@ == instr_rust_expr_spec(*self),
        decreases self, 3int,
    {
        match self {
            Instruction::Value(b) => b.produce_rust(producer, parallel),
            Instruction::Load(b) => b.produce_rust(producer, parallel),
            Instruction::Store(b) => b.produce_rust(producer, parallel),
            Instruction::Compute(b) => b.produce_rust(producer, parallel),
            Instruction::Assert(b) => b.produce_rust(producer, parallel),
            _ => vstd::pervasive::unreached(),
        }
    }
}


/// The IO-table access of a mapped destination, up to the descriptor.
fn io_access_prefix(signal_code: usize) -> (r: String)
    ensures
        r@ == io_access_prefix_spec(signal_code as nat),
{
    let t = usize_to_string(signal_code);
    let s = cat3(
        "ctx.circuit.template_to_io_signal[&ctx.components[subcomponents[cmp_index_ref]].template_id][",
        t.as_str(),
        "]",
    );
    proof {
        assert(s@ =~= io_access_prefix_spec(signal_code as nat));
    }
    s
}

impl StoreBucket {
    /// Emit the store for the native backend: resolve the destination,
    /// move the source value, and for a subcomponent input update the
    /// counter and trigger the run.
    #[verifier::rlimit(100)]
    pub fn produce_rust(&self, producer: &RustProducer, parallel: Option<bool>) -> (r: (
        Vec<String>,
        String,
    ))
        requires
            instr_rust_wf(Instruction::Store(*self)),
        ensures
            views(r.0@) == instr_rust_code_spec(Instruction::Store(*self), parallel),
            r.1@ == instr_rust_expr_spec(Instruction::Store(*self)),
        decreases self, 1int,
    {
        proof {
            assert(instr_rust_wf(*self.src));
            assert(address_rust_wf(self.dest_address_type));
        }
        let mut prologue: Vec<String> = Vec::new();
        match &self.dest_address_type {
            AddressType::SubcmpSignal { cmp_address, .. } => {
                let (mut cmp_prologue, cmp_index) = cmp_address.produce_rust(
                    producer,
                    parallel,
                );
                prologue.append(&mut cmp_prologue);
                prologue.push(String::from_str("{"));
                let l = cat3("let cmp_index_ref = ", cmp_index.as_str(), ";");
                prologue.push(l);
            },
            _ => {},
        }
        let ghost g1: Seq<Seq<char>> = views(prologue@);
        proof {
            assert(g1 =~= store_prefix_spec(*self, parallel));
        }
        let dest_index: String;
        match &self.dest {
            LocationRule::Indexed { location, .. } => {
                let (mut dest_prologue, loc_expr) = location.produce_rust(producer, parallel);
                prologue.append(&mut dest_prologue);
                dest_index = loc_expr;
            },
            LocationRule::Mapped { signal_code, indexes } => {
                let mut map_index: String = String::from_str("map_index_aux[0]");
                proof {
                    reveal_strlit("map_index_aux[0]");
                    reveal_strlit("");
                }
                if indexes.len() > 0 {
                    prologue.push(String::from_str("{"));
                    let nstr = usize_to_string(indexes.len());
                    let decl = cat3("let mut map_index_aux = vec![0usize; ", nstr.as_str(), "];");
                    prologue.push(decl);
                    let ghost g2: Seq<Seq<char>> = views(prologue@);
                    let n: usize = indexes.len();
                    let mut i: usize = 0;
                    proof {
                        assert(map_index_lines_spec(indexes@.take(0int), parallel) =~= Seq::<
                            Seq<char>,
                        >::empty());
                    }
                    while i < n
                        invariant
                            0 <= i <= n,
                            n == indexes@.len(),
                            instr_rust_wf(Instruction::Store(*self)),
                            self.dest == (LocationRule::Mapped {
                                signal_code: *signal_code,
                                indexes: *indexes,
                            }),
                            views(prologue@) == g2 + map_index_lines_spec(
                                indexes@.take(i as int),
                                parallel,
                            ),
                            i == 0 ==> map_index@ == "map_index_aux[0]"@,
                            i >= 1 ==> map_index@ == map_index_expr_spec(
                                indexes@.take(i as int),
                                *signal_code as nat,
                            ),
                        decreases n - i,
                    {
                        proof {
                            let m = self.dest->Mapped_indexes;
                            assert(m == *indexes);
                            assert(decreases_to!(self => m));
                            assert(decreases_to!(m => m@[i as int]));
                        }
                        let (mut index_code, index_exp) = indexes[i].produce_rust(
                            producer,
                            parallel,
                        );
                        prologue.append(&mut index_code);
                        let it = usize_to_string(i);
                        let mut line = String::from_str("map_index_aux[");
                        line.append(it.as_str());
                        line.append("] = ");
                        line.append(index_exp.as_str());
                        line.append(";");
                        prologue.push(line);
                        let ghost prev_mi: Seq<char> = map_index@;
                        if i > 0 {
                            let pref = io_access_prefix(*signal_code);
                            let lt = usize_to_string(i - 1);
                            let mut m2 = String::from_str("(");
                            m2.append(map_index.as_str());
                            m2.append(" * ");
                            m2.append(pref.as_str());
                            m2.append(".lengths[");
                            m2.append(lt.as_str());
                            m2.append("] + map_index_aux[");
                            m2.append(it.as_str());
                            m2.append("])");
                            map_index = m2;
                        }
                        proof {
                            let ta: Seq<Box<Instruction>> = indexes@.take(i as int + 1);
                            assert(ta.drop_last() =~= indexes@.take(i as int));
                            assert(ta.last() == indexes@[i as int]);
                            assert(line@ =~= "map_index_aux["@ + dec_str(i as nat) + "] = "@
                                + instr_rust_expr_spec(*indexes@[i as int]) + ";"@);
                            assert(views(prologue@) =~= g2 + map_index_lines_spec(ta, parallel));
                            if i > 0 {
                                assert(prev_mi == map_index_expr_spec(
                                    indexes@.take(i as int),
                                    *signal_code as nat,
                                ));
                                lemma_map_index_step(indexes@, i as int, *signal_code as nat);
                                assert(map_index@ =~= "("@ + map_index_expr_spec(
                                    indexes@.take(i as int),
                                    *signal_code as nat,
                                ) + " * "@ + io_access_prefix_spec(*signal_code as nat)
                                    + ".lengths["@ + dec_str(((i as int) - 1) as nat)
                                    + "] + map_index_aux["@ + dec_str(i as nat) + "])"@);
                                assert(map_index@ == map_index_expr_spec(
                                    indexes@.take(i as int + 1),
                                    *signal_code as nat,
                                ));
                            } else {
                                assert(map_index@ =~= map_index_expr_spec(
                                    ta,
                                    *signal_code as nat,
                                ));
                            }
                        }
                        i = i + 1;
                    }
                    proof {
                        assert(indexes@.take(n as int) =~= indexes@);
                    }
                }
                let pref = io_access_prefix(*signal_code);
                let mut acc = String::new();
                acc.append(pref.as_str());
                acc.append(".offset");
                if indexes.len() > 0 {
                    acc.append("+");
                    acc.append(map_index.as_str());
                }
                proof {
                    assert(acc@ =~= store_dest_index_spec(*self));
                }
                dest_index = acc;
            },
        }
        proof {
            assert(dest_index@ =~= store_dest_index_spec(*self));
            assert(views(prologue@) =~= g1 + store_destidx_lines_spec(*self, parallel));
        }
        let dest: String = match &self.dest_address_type {
            AddressType::Variable => cat3("lvar[", dest_index.as_str(), "]"),
            AddressType::Signal => cat3(
                "ctx.signals[signal_start + ",
                dest_index.as_str(),
                "]",
            ),
            AddressType::SubcmpSignal { .. } => cat3(
                "ctx.signals[ctx.components[subcomponents[cmp_index_ref]].signal_start + ",
                dest_index.as_str(),
                "]",
            ),
        };
        proof {
            assert(dest@ =~= store_dest_expr_spec(*self, store_dest_index_spec(*self)));
        }
        prologue.push(String::from_str("{"));
        prologue.push(String::from_str("// load src"));
        let (mut src_prologue, src) = self.src.produce_rust(producer, parallel);
        prologue.append(&mut src_prologue);
        prologue.push(String::from_str("// end load src"));
        if self.context.size > 1 {
            let st = usize_to_string(self.context.size);
            let mut line = String::from_str("Fr_copyn(");
            line.append(dest.as_str());
            line.append(",");
            line.append(src.as_str());
            line.append(",");
            line.append(st.as_str());
            line.append(");");
            prologue.push(line);
        } else {
            let mut line = String::new();
            line.append(dest.as_str());
            line.append(" = ");
            line.append(src.as_str());
            line.append(";");
            prologue.push(line);
        }
        prologue.push(String::from_str("}"));
        let ghost g3: Seq<Seq<char>> = views(prologue@);
        proof {
            assert(g3 =~= g1 + store_destidx_lines_spec(*self, parallel)
                + store_move_lines_spec(*self, parallel));
        }
        let mut trig = store_emit_trigger(self);
        prologue.append(&mut trig);
        match &self.dest {
            LocationRule::Mapped { indexes, .. } => {
                if indexes.len() > 0 {
                    prologue.push(String::from_str("}"));
                }
            },
            _ => {},
        }
        proof {
            assert(views(prologue@) =~= g3 + store_trigger_lines_spec(*self)
                + store_closer_spec(*self));
            assert(views(prologue@) =~= instr_rust_code_spec(
                Instruction::Store(*self),
                parallel,
            ));
        }
        (prologue, String::new())
    }
}


/// Emit the counter update and trigger of a store into a subcomponent.
fn store_emit_trigger(b: &StoreBucket) -> (r: Vec<String>)
    requires
        instr_rust_wf(Instruction::Store(*b)),
    ensures
        views(r@) == store_trigger_lines_spec(*b),
{
    let mut v: Vec<String> = Vec::new();
        match &b.dest_address_type {
            AddressType::SubcmpSignal { uniform_parallel_value, input_information, .. } => {
                let counter = String::from_str(
                    "ctx.components[subcomponents[cmp_index_ref]].input_counter",
                );
                match input_information {
                    InputInformation::Input { status } => {
                        match status {
                            StatusInput::NoLast => {
                                v.push(
                                    String::from_str("// no need to run sub component"),
                                );
                                let st = usize_to_string(b.context.size);
                                let mut l1 = String::new();
                                l1.append(counter.as_str());
                                l1.append(" -= ");
                                l1.append(st.as_str());
                                l1.append(";");
                                v.push(l1);
                                let l2 = cat3("assert!(", counter.as_str(), " != 0);");
                                v.push(l2);
                            },
                            StatusInput::Unknown => {
                                v.push(
                                    String::from_str("// run sub component if needed"),
                                );
                                let st = usize_to_string(b.context.size);
                                let mut l1 = String::new();
                                l1.append(counter.as_str());
                                l1.append(" -= ");
                                l1.append(st.as_str());
                                l1.append(";");
                                v.push(l1);
                                let mut l2 = String::from_str("if ");
                                l2.append(counter.as_str());
                                l2.append(" == 0 {");
                                v.push(l2);
                                let name = store_call_name(b, uniform_parallel_value);
                                let l3 = cat2(
                                    name.as_str(),
                                    "(subcomponents[cmp_index_ref],ctx);",
                                );
                                v.push(l3);
                                v.push(String::from_str("}"));
                            },
                            StatusInput::Last => {
                                v.push(String::from_str("// need to run sub component"));
                                let st = usize_to_string(b.context.size);
                                let mut l1 = String::new();
                                l1.append(counter.as_str());
                                l1.append(" -= ");
                                l1.append(st.as_str());
                                l1.append(";");
                                v.push(l1);
                                let l2 = cat3("assert!(", counter.as_str(), " == 0);");
                                v.push(l2);
                                let name = store_call_name(b, uniform_parallel_value);
                                let l3 = cat2(
                                    name.as_str(),
                                    "(subcomponents[cmp_index_ref],ctx);",
                                );
                                v.push(l3);
                            },
                        }
                    },
                    InputInformation::NoInput => {},
                }
                v.push(String::from_str("}"));
            },
            _ => {},
        }
    proof {
        assert(views(v@) =~= store_trigger_lines_spec(*b));
    }
    v
}

/// The name the emitted code calls to run a triggered subcomponent.
fn store_call_name(b: &StoreBucket, uniform: &Option<bool>) -> (r: String)
    requires
        (match b.dest {
            LocationRule::Indexed { template_header, .. } => template_header is Some,
            LocationRule::Mapped { .. } => true,
        }),
    ensures
        r@ == store_call_name_spec(*b, *uniform),
{
    match &b.dest {
        LocationRule::Indexed { template_header, .. } => {
            match template_header {
                Option::Some(h) => {
                    let s = cat2(h.as_str(), "_run");
                    s
                },
                Option::None => vstd::pervasive::unreached(),
            }
        },
        LocationRule::Mapped { .. } => {
            if uniform.is_some() {
                String::from_str(
                    "(ctx.function_table[ctx.components[subcomponents[cmp_index_ref]].template_id])",
                )
            } else {
                String::from_str(
                    "(*_functionTable[ctx.components[subcomponents[cmp_index_ref]].template_id])",
                )
            }
        },
    }
}


/// Append the little-endian bytes of a 64-bit value.
pub(crate) fn push_u64_le(out: &mut Vec<u8>, n: u64)
    ensures
        final (out)@ == old(out)@ + nat_le_bytes(n as nat, 8),
{
    let mut cur: u64 = n;
    let mut i: usize = 0;
    proof {
        vstd::arithmetic::power2::lemma2_to64();
        assert(pow2(0) == 1);
        assert(n as nat / pow2(0) == n as nat) by (nonlinear_arith)
            requires
                pow2(0) == 1,
        ;
    }
    while i < 8
        invariant
            0 <= i <= 8,
            out@.len() == old(out)@.len() + i,
            cur as nat == (n as nat) / pow2((8 * i) as nat),
            forall|j: int| 0 <= j < old(out)@.len() ==> out@[j] == old(out)@[j],
            forall|j: int|
                0 <= j < i ==> out@[old(out)@.len() + j] == nat_le_bytes(n as nat, 8)[j],
        decreases 8 - i,
    {
        let b: u8 = (cur % 256) as u8;
        out.push(b);
        proof {
            vstd::arithmetic::power2::lemma_pow2_adds((8 * i) as nat, 8);
            vstd::arithmetic::power2::lemma2_to64();
            vstd::arithmetic::power2::lemma_pow2_pos((8 * i) as nat);
            vstd::arithmetic::div_mod::lemma_div_denominator(
                n as int,
                pow2((8 * i) as nat) as int,
                256,
            );
        }
        cur = cur / 256;
        i = i + 1;
    }
    proof {
        assert(out@ =~= old(out)@ + nat_le_bytes(n as nat, 8));
    }
}

/// Append the little-endian bytes of a 32-bit value.
pub(crate) fn push_u32_le(out: &mut Vec<u8>, n: u32)
    ensures
        final (out)@ == old(out)@ + nat_le_bytes(n as nat, 4),
{
    let mut cur: u32 = n;
    let mut i: usize = 0;
    proof {
        vstd::arithmetic::power2::lemma2_to64();
        assert(n as nat / pow2(0) == n as nat) by (nonlinear_arith)
            requires
                pow2(0) == 1,
        ;
    }
    while i < 4
        invariant
            0 <= i <= 4,
            out@.len() == old(out)@.len() + i,
            cur as nat == (n as nat) / pow2((8 * i) as nat),
            forall|j: int| 0 <= j < old(out)@.len() ==> out@[j] == old(out)@[j],
            forall|j: int|
                0 <= j < i ==> out@[old(out)@.len() + j] == nat_le_bytes(n as nat, 4)[j],
        decreases 4 - i,
    {
        let b: u8 = (cur % 256) as u8;
        out.push(b);
        proof {
            vstd::arithmetic::power2::lemma_pow2_adds((8 * i) as nat, 8);
            vstd::arithmetic::power2::lemma2_to64();
            vstd::arithmetic::power2::lemma_pow2_pos((8 * i) as nat);
            vstd::arithmetic::div_mod::lemma_div_denominator(
                n as int,
                pow2((8 * i) as nat) as int,
                256,
            );
        }
        cur = cur / 256;
        i = i + 1;
    }
    proof {
        assert(out@ =~= old(out)@ + nat_le_bytes(n as nat, 4));
    }
}

/// The serialized bytes of the named-signal table: hash, signal id and
/// size of every slot, 64 bits each, little endian.
pub open spec fn dat_hash_map_spec(m: Seq<(u64, u64, u64)>) -> Seq<u8>
    decreases m.len(),
{
    if m.len() == 0 {
        Seq::empty()
    } else {
        dat_hash_map_spec(m.drop_last()) + nat_le_bytes(m.last().0 as nat, 8) + nat_le_bytes(
            m.last().1 as nat,
            8,
        ) + nat_le_bytes(m.last().2 as nat, 8)
    }
}

/// Serialize the named-signal table.
pub fn generate_dat_from_hash_map(map: &Vec<(u64, u64, u64)>) -> (r: Vec<u8>)
    ensures
        r@ == dat_hash_map_spec(map@),
{
    let mut hash_map_data: Vec<u8> = Vec::new();
    let n: usize = map.len();
    let mut i: usize = 0;
    while i < n
        invariant
            0 <= i <= n,
            n == map@.len(),
            hash_map_data@ == dat_hash_map_spec(map@.take(i as int)),
        decreases n - i,
    {
        let (h, pslot, s) = map[i];
        push_u64_le(&mut hash_map_data, h);
        push_u64_le(&mut hash_map_data, pslot);
        push_u64_le(&mut hash_map_data, s);
        proof {
            let ta: Seq<(u64, u64, u64)> = map@.take(i as int + 1);
            assert(ta.drop_last() =~= map@.take(i as int));
            assert(ta.last() == map@[i as int]);
            assert(hash_map_data@ =~= dat_hash_map_spec(ta));
        }
        i = i + 1;
    }
    proof {
        assert(map@.take(n as int) =~= map@);
    }
    hash_map_data
}

/// The serialized bytes of the witness-index list: each signal id as 64
/// bits, little endian.
pub open spec fn dat_signal_list_spec(m: Seq<usize>) -> Seq<u8>
    decreases m.len(),
{
    if m.len() == 0 {
        Seq::empty()
    } else {
        dat_signal_list_spec(m.drop_last()) + nat_le_bytes(m.last() as nat, 8)
    }
}

/// Serialize the witness-index to signal-id list.
pub fn generate_dat_witness_to_signal_list(signal_list: &Vec<usize>) -> (r: Vec<u8>)
    requires
        forall|j: int| 0 <= j < signal_list@.len() ==> (#[trigger] signal_list@[j]) < 0x10000000000000000,
    ensures
        r@ == dat_signal_list_spec(signal_list@),
{
    let mut signal_list_data: Vec<u8> = Vec::new();
    let n: usize = signal_list.len();
    let mut i: usize = 0;
    while i < n
        invariant
            0 <= i <= n,
            n == signal_list@.len(),
            forall|j: int|
                0 <= j < signal_list@.len() ==> (#[trigger] signal_list@[j])
                    < 0x10000000000000000,
            signal_list_data@ == dat_signal_list_spec(signal_list@.take(i as int)),
        decreases n - i,
    {
        let s64: u64 = signal_list[i] as u64;
        push_u64_le(&mut signal_list_data, s64);
        proof {
            let ta: Seq<usize> = signal_list@.take(i as int + 1);
            assert(ta.drop_last() =~= signal_list@.take(i as int));
            assert(ta.last() == signal_list@[i as int]);
            assert(signal_list_data@ =~= dat_signal_list_spec(ta));
        }
        i = i + 1;
    }
    proof {
        assert(signal_list@.take(n as int) =~= signal_list@);
    }
    signal_list_data
}

/// The dual encoding of one field constant: a four-byte signed short slot
/// where the signed residue fits 32 bits, a four-byte marker, then the
/// Montgomery-domain representation in 32 bytes.
pub open spec fn dat_constant_entry_spec(n: nat) -> Seq<u8> {
    (if n <= 0x7FFFFFFF {
        nat_le_bytes(n, 4) + nat_le_bytes(0x40000000, 4)
    } else if n >= p() - 0x80000000 {
        nat_le_bytes((0x100000000 - (p() - n)) as nat, 4) + nat_le_bytes(0x40000000, 4)
    } else {
        nat_le_bytes(0, 4) + nat_le_bytes(0xC0000000, 4)
    }) + nat_le_bytes(mul_spec(n, pow2(256) % p()), 32)
}

/// The dual encodings of a list of decimal field constants, in order.
pub open spec fn dat_constants_spec(ss: Seq<Seq<char>>) -> Seq<u8>
    decreases ss.len(),
{
    if ss.len() == 0 {
        Seq::empty()
    } else {
        dat_constants_spec(ss.drop_last()) + dat_constant_entry_spec(parse_val(ss.last()))
    }
}

/// Serialize the field-constant pool in the dual short/Montgomery encoding.
pub fn generate_dat_constant_list(_producer: &RustProducer, constant_list: &Vec<String>) -> (r:
    Vec<u8>)
    requires
        forall|j: int| 0 <= j < constant_list@.len() ==> parse_ok((#[trigger] constant_list@[j])@),
    ensures
        r@ == dat_constants_spec(crate::text::views(constant_list@)),
{
    let mut constant_list_data: Vec<u8> = Vec::new();
    let r256 = field::pow2_mod_p(256);
    let zero_elem = field::zero();
    let n: usize = constant_list.len();
    let mut i: usize = 0;
    while i < n
        invariant
            0 <= i <= n,
            n == constant_list@.len(),
            r256.wf(),
            r256@ == pow2(256) % p(),
            zero_elem.wf(),
            zero_elem@ == 0,
            forall|j: int|
                0 <= j < constant_list@.len() ==> parse_ok((#[trigger] constant_list@[j])@),
            constant_list_data@ == dat_constants_spec(
                crate::text::views(constant_list@.take(i as int)),
            ),
        decreases n - i,
    {
        let fe: FieldElement = match field::parse_field_element(constant_list[i].as_str()) {
            Option::Some(v) => v,
            Option::None => vstd::pervasive::unreached(),
        };
        let short_pos: Option<u64> = match field::to_u64(&fe) {
            Option::Some(u) => if u <= 0x7FFFFFFF {
                Option::Some(u)
            } else {
                Option::None
            },
            Option::None => Option::None,
        };
        proof {
            vstd::arithmetic::power2::lemma2_to64();
        }
        match short_pos {
            Option::Some(u) => {
                push_u32_le(&mut constant_list_data, u as u32);
                push_u32_le(&mut constant_list_data, 0x40000000u32);
            },
            Option::None => {
                let neg = zero_elem.sub(&fe);
                proof {
                    assert(fe@ != 0);
                    vstd::arithmetic::div_mod::lemma_small_mod((p() - fe@) as nat, p());
                    assert(neg@ == p() - fe@);
                }
                let short_neg: Option<u64> = match field::to_u64(&neg) {
                    Option::Some(v) => if v <= 0x80000000 {
                        Option::Some(v)
                    } else {
                        Option::None
                    },
                    Option::None => Option::None,
                };
                match short_neg {
                    Option::Some(v) => {
                        proof {
                            assert(v >= 1);
                        }
                        let sv: u64 = 0x100000000u64 - v;
                        push_u32_le(&mut constant_list_data, sv as u32);
                        push_u32_le(&mut constant_list_data, 0x40000000u32);
                    },
                    Option::None => {
                        push_u32_le(&mut constant_list_data, 0u32);
                        push_u32_le(&mut constant_list_data, 0xC0000000u32);
                    },
                }
            },
        }
        let m = fe.mul(&r256);
        proof {
            field::lemma_canonical_bytes(m);
        }
        let mut mb: Vec<u8> = m.bytes;
        constant_list_data.append(&mut mb);
        proof {
            let ta: Seq<Seq<char>> = crate::text::views(constant_list@.take(i as int + 1));
            assert(ta.drop_last() =~= crate::text::views(constant_list@.take(i as int)));
            assert(ta.last() == constant_list@[i as int]@);
            assert(fe@ == parse_val(constant_list@[i as int]@));
            assert(constant_list_data@ =~= dat_constants_spec(ta));
        }
        i = i + 1;
    }
    proof {
        assert(constant_list@.take(n as int) =~= constant_list@);
        assert(crate::text::views(constant_list@.take(n as int)) =~= crate::text::views(
            constant_list@,
        ));
    }
    constant_list_data
}

/// Decode the Montgomery-domain representation of a field constant back to
/// its canonical value. Together with `field::lemma_mul_cancel` this is the
/// round trip of the dual encoding: the decoded value is the unique
/// canonical value whose Montgomery form is the given one.
pub fn montgomery_decode(m: &FieldElement) -> (r: FieldElement)
    requires
        m.wf(),
    ensures
        r.wf(),
        mul_spec(r@, pow2(256) % p()) == m@,
{
    let r256 = field::pow2_mod_p(256);
    proof {
        field::lemma_r_value();
    }
    match m.div(&r256) {
        Result::Ok(v) => v,
        Result::Err(_) => vstd::pervasive::unreached(),
    }
}


/// A 256-slot table of empty entries.
pub open spec fn blank_table() -> Seq<HashSignalInfo> {
    Seq::new(256, |i: int| HashSignalInfo { hash: 0, signal_id: 0, signal_size: 0 })
}

/// The first free slot for a hash, probing linearly from its home slot; a
/// negative answer when the whole table is occupied.
pub open spec fn probe_free(t: Seq<HashSignalInfo>, h: u64, k: int) -> int
    recommends
        t.len() == 256,
    decreases 256 - k,
{
    if k < 0 || k >= 256 {
        -1
    } else if t[((h as int) % 256 + k) % 256].hash == 0 {
        ((h as int) % 256 + k) % 256
    } else {
        probe_free(t, h, k + 1)
    }
}

/// The hash of a named signal.
pub open spec fn name_hash(name: String) -> u64 {
    fnv1a_spec(vstd::utf8::encode_utf8(name@))
}

/// The named-signal table a list of inputs builds: each name's entry lands
/// in the first free slot of its probe sequence.
pub open spec fn table_spec(names: Seq<(String, usize, usize)>) -> Seq<HashSignalInfo>
    decreases names.len(),
{
    if names.len() == 0 {
        blank_table()
    } else {
        let t = table_spec(names.drop_last());
        let h = name_hash(names.last().0);
        let pos = probe_free(t, h, 0);
        if pos < 0 {
            t
        } else {
            t.update(
                pos,
                HashSignalInfo {
                    hash: h,
                    signal_id: names.last().1,
                    signal_size: names.last().2,
                },
            )
        }
    }
}

/// Build the 256-slot open-addressed named-signal table.
pub fn generate_hash_map(signal_name_list: &Vec<(String, usize, usize)>) -> (r: Vec<
    HashSignalInfo,
>)
    requires
        signal_name_list@.len() <= 256,
    ensures
        r@ == table_spec(signal_name_list@),
{
    let mut hash_map: Vec<HashSignalInfo> = Vec::new();
    let mut j: usize = 0;
    while j < 256
        invariant
            0 <= j <= 256,
            hash_map@.len() == j,
            forall|k: int| 0 <= k < j ==> hash_map@[k] == blank_table()[k],
        decreases 256 - j,
    {
        hash_map.push(HashSignalInfo { hash: 0, signal_id: 0, signal_size: 0 });
        j = j + 1;
    }
    proof {
        assert(hash_map@ =~= blank_table());
        assert(table_spec(signal_name_list@.take(0int)) =~= blank_table());
    }
    let n: usize = signal_name_list.len();
    let mut i: usize = 0;
    while i < n
        invariant
            0 <= i <= n,
            n == signal_name_list@.len(),
            hash_map@.len() == 256,
            hash_map@ == table_spec(signal_name_list@.take(i as int)),
        decreases n - i,
    {
        let ghost t: Seq<HashSignalInfo> = hash_map@;
        let name_str: &str = signal_name_list[i].0.as_str();
        let h: u64 = hasher(name_str);
        proof {
            assert(name_str.spec_bytes() == vstd::utf8::encode_utf8(
                signal_name_list@[i as int].0@,
            ));
            assert(h == name_hash(signal_name_list@[i as int].0));
        }
        let start: usize = (h % 256) as usize;
        let mut k: usize = 0;
        let mut found: bool = false;
        let mut pos: usize = 0;
        while k < 256 && !found
            invariant
                0 <= k <= 256,
                hash_map@ == t,
                t.len() == 256,
                start == (h as int) % 256,
                !found ==> probe_free(t, h, 0) == probe_free(t, h, k as int),
                found ==> probe_free(t, h, 0) == pos as int && pos < 256,
            decreases 256 - k,
        {
            let q: usize = (start + k) % 256;
            if hash_map[q].hash == 0 {
                proof {
                    assert(probe_free(t, h, k as int) == q as int);
                }
                found = true;
                pos = q;
            } else {
                proof {
                    assert(probe_free(t, h, k as int) == probe_free(t, h, k as int + 1));
                }
            }
            k = k + 1;
        }
        if found {
            let entry = HashSignalInfo {
                hash: h,
                signal_id: signal_name_list[i].1,
                signal_size: signal_name_list[i].2,
            };
            hash_map[pos] = entry;
        } else {
            proof {
                assert(probe_free(t, h, 256) == -1);
            }
        }
        proof {
            let ta: Seq<(String, usize, usize)> = signal_name_list@.take(i as int + 1);
            assert(ta.drop_last() =~= signal_name_list@.take(i as int));
            assert(ta.last() == signal_name_list@[i as int]);
            assert(hash_map@ =~= table_spec(ta));
        }
        i = i + 1;
    }
    proof {
        assert(signal_name_list@.take(n as int) =~= signal_name_list@);
    }
    hash_map
}

/// The template ids of the IO table, 32 bits each.
pub open spec fn io_ids_spec(m: Seq<(usize, Vec<IODef>)>) -> Seq<u8>
    decreases m.len(),
{
    if m.len() == 0 {
        Seq::empty()
    } else {
        io_ids_spec(m.drop_last()) + nat_le_bytes(m.last().0 as nat, 4)
    }
}

/// The declared sizes of every dimension beyond the first, 32 bits each.
pub open spec fn io_lengths_tail_spec(l: Seq<usize>) -> Seq<u8>
    decreases l.len(),
{
    if l.len() <= 1 {
        Seq::empty()
    } else {
        io_lengths_tail_spec(l.drop_last()) + nat_le_bytes(l.last() as nat, 4)
    }
}

/// One IO descriptor: offset, dimension count beyond the first, then the
/// trailing dimension sizes.
pub open spec fn io_def_spec(d: IODef) -> Seq<u8> {
    nat_le_bytes(d.offset as nat, 4) + nat_le_bytes(
        if d.lengths@.len() > 0 {
            (d.lengths@.len() - 1) as nat
        } else {
            0nat
        },
        4,
    ) + io_lengths_tail_spec(d.lengths@)
}

/// The IO descriptors of one template, in order.
pub open spec fn io_defs_spec(ds: Seq<IODef>) -> Seq<u8>
    decreases ds.len(),
{
    if ds.len() == 0 {
        Seq::empty()
    } else {
        io_defs_spec(ds.drop_last()) + io_def_spec(ds.last())
    }
}

/// The per-template blocks of the IO table: descriptor count, then the
/// descriptors.
pub open spec fn io_entries_spec(m: Seq<(usize, Vec<IODef>)>) -> Seq<u8>
    decreases m.len(),
{
    if m.len() == 0 {
        Seq::empty()
    } else {
        io_entries_spec(m.drop_last()) + nat_le_bytes(m.last().1@.len() as nat, 4)
            + io_defs_spec(m.last().1@)
    }
}

/// Whether every number serialized from the IO table fits 32 bits.
pub open spec fn io_map_small(m: Seq<(usize, Vec<IODef>)>) -> bool {
    forall|j: int|
        0 <= j < m.len() ==> ((#[trigger] m[j]).0 < 0x100000000 && m[j].1@.len() < 0x100000000
            && (forall|d: int|
            0 <= d < m[j].1@.len() ==> ((#[trigger] m[j].1@[d]).offset < 0x100000000
                && m[j].1@[d].lengths@.len() < 0x100000000 && (forall|e: int|
                0 <= e < m[j].1@[d].lengths@.len() ==> (#[trigger] m[j].1@[d].lengths@[e])
                    < 0x100000000))))
}

/// Serialize the per-template IO table: first every template id, then the
/// descriptor lists.
pub fn generate_dat_io_signals_info(_producer: &RustProducer, io_map: &TemplateInstanceIOMap) -> (
    r: Vec<u8>)
    requires
        io_map_small(io_map@),
    ensures
        r@ == io_ids_spec(io_map@) + io_entries_spec(io_map@),
{
    let mut io_signals_info: Vec<u8> = Vec::new();
    let n: usize = io_map.len();
    let mut i: usize = 0;
    while i < n
        invariant
            0 <= i <= n,
            n == io_map@.len(),
            io_map_small(io_map@),
            io_signals_info@ == io_ids_spec(io_map@.take(i as int)),
        decreases n - i,
    {
        let t32: u32 = io_map[i].0 as u32;
        push_u32_le(&mut io_signals_info, t32);
        proof {
            let ta: Seq<(usize, Vec<IODef>)> = io_map@.take(i as int + 1);
            assert(ta.drop_last() =~= io_map@.take(i as int));
            assert(ta.last() == io_map@[i as int]);
            assert(io_signals_info@ =~= io_ids_spec(ta));
        }
        i = i + 1;
    }
    proof {
        assert(io_map@.take(n as int) =~= io_map@);
        assert(io_entries_spec(io_map@.take(0int)) =~= Seq::<u8>::empty());
    }
    let ghost ids: Seq<u8> = io_signals_info@;
    let mut i2: usize = 0;
    while i2 < n
        invariant
            0 <= i2 <= n,
            n == io_map@.len(),
            io_map_small(io_map@),
            io_signals_info@ == ids + io_entries_spec(io_map@.take(i2 as int)),
        decreases n - i2,
    {
        let defs_len: usize = io_map[i2].1.len();
        push_u32_le(&mut io_signals_info, defs_len as u32);
        let ghost pre: Seq<u8> = io_signals_info@;
        let mut d: usize = 0;
        proof {
            assert(io_defs_spec(io_map@[i2 as int].1@.take(0int)) =~= Seq::<u8>::empty());
        }
        while d < defs_len
            invariant
                0 <= d <= defs_len,
                i2 < n,
                n == io_map@.len(),
                io_map_small(io_map@),
                defs_len == io_map@[i2 as int].1@.len(),
                io_signals_info@ == pre + io_defs_spec(io_map@[i2 as int].1@.take(d as int)),
            decreases defs_len - d,
        {
            let off: u32 = io_map[i2].1[d].offset as u32;
            push_u32_le(&mut io_signals_info, off);
            let llen: usize = io_map[i2].1[d].lengths.len();
            let n32: u32 = if llen > 0 {
                (llen - 1) as u32
            } else {
                0u32
            };
            push_u32_le(&mut io_signals_info, n32);
            let ghost pre2: Seq<u8> = io_signals_info@;
            let mut e: usize = 1;
            proof {
                if llen > 0 {
                    assert(io_lengths_tail_spec(
                        io_map@[i2 as int].1@[d as int].lengths@.take(1int),
                    ) =~= Seq::<u8>::empty());
                } else {
                    assert(io_lengths_tail_spec(
                        io_map@[i2 as int].1@[d as int].lengths@.take(0int),
                    ) =~= Seq::<u8>::empty());
                }
            }
            while e < llen
                invariant
                    1 <= e <= llen || (llen == 0 && e == 1),
                    i2 < n,
                    d < defs_len,
                    n == io_map@.len(),
                    io_map_small(io_map@),
                    defs_len == io_map@[i2 as int].1@.len(),
                    llen == io_map@[i2 as int].1@[d as int].lengths@.len(),
                    llen == 0 ==> io_signals_info@ == pre2,
                    llen > 0 ==> io_signals_info@ == pre2 + io_lengths_tail_spec(
                        io_map@[i2 as int].1@[d as int].lengths@.take(e as int),
                    ),
                decreases llen - e,
            {
                let pos32: u32 = io_map[i2].1[d].lengths[e] as u32;
                push_u32_le(&mut io_signals_info, pos32);
                proof {
                    let lgs: Seq<usize> = io_map@[i2 as int].1@[d as int].lengths@;
                    let ta: Seq<usize> = lgs.take(e as int + 1);
                    assert(ta.drop_last() =~= lgs.take(e as int));
                    assert(ta.last() == lgs[e as int]);
                    assert(io_signals_info@ =~= pre2 + io_lengths_tail_spec(ta));
                }
                e = e + 1;
            }
            proof {
                let lgs: Seq<usize> = io_map@[i2 as int].1@[d as int].lengths@;
                if llen > 0 {
                    assert(lgs.take(llen as int) =~= lgs);
                } else {
                    assert(lgs =~= Seq::<usize>::empty());
                    assert(io_lengths_tail_spec(lgs) =~= Seq::<u8>::empty());
                }
                let tds: Seq<IODef> = io_map@[i2 as int].1@.take(d as int + 1);
                assert(tds.drop_last() =~= io_map@[i2 as int].1@.take(d as int));
                assert(tds.last() == io_map@[i2 as int].1@[d as int]);
                assert(io_signals_info@ =~= pre + io_defs_spec(tds));
            }
            d = d + 1;
        }
        proof {
            assert(io_map@[i2 as int].1@.take(defs_len as int) =~= io_map@[i2 as int].1@);
            let ta: Seq<(usize, Vec<IODef>)> = io_map@.take(i2 as int + 1);
            assert(ta.drop_last() =~= io_map@.take(i2 as int));
            assert(ta.last() == io_map@[i2 as int]);
            assert(io_signals_info@ =~= ids + io_entries_spec(ta));
        }
        i2 = i2 + 1;
    }
    proof {
        assert(io_map@.take(n as int) =~= io_map@);
    }
    io_signals_info
}


/// The run and create headers of a template instance, parallel form.
pub open spec fn parallel_headers_spec(name: Seq<char>) -> Seq<Seq<char>> {
    seq![
        "void "@ + name
            + "_create_parallel(uint soffset,uint coffset,Circom_CalcWit* ctx,std::string componentName,uint componentFather);"@,
        "void "@ + name + "_run_parallel(uint ctx_index,Circom_CalcWit* ctx);"@,
    ]
}

/// The run and create headers of a template instance, sequential form.
pub open spec fn sequential_headers_spec(name: Seq<char>) -> Seq<Seq<char>> {
    seq![
        "void "@ + name
            + "_create(uint soffset,uint coffset,Circom_CalcWit* ctx,std::string componentName,uint componentFather);"@,
        "void "@ + name + "_run(uint ctx_index,Circom_CalcWit* ctx);"@,
    ]
}

/// The headers of every template instance, in order.
pub open spec fn template_headers_spec(l: Seq<InfoParallel>) -> Seq<Seq<char>>
    decreases l.len(),
{
    if l.len() == 0 {
        Seq::empty()
    } else {
        template_headers_spec(l.drop_last()) + (if l.last().is_parallel {
            parallel_headers_spec(l.last().name@)
        } else {
            Seq::<Seq<char>>::empty()
        }) + (if l.last().is_not_parallel {
            sequential_headers_spec(l.last().name@)
        } else {
            Seq::<Seq<char>>::empty()
        })
    }
}

/// Collect the create and run headers of every template instance.
pub fn collect_template_headers(instances: &Vec<InfoParallel>) -> (r: Vec<String>)
    ensures
        views(r@) == template_headers_spec(instances@),
{
    let mut template_headers: Vec<String> = Vec::new();
    let n: usize = instances.len();
    let mut i: usize = 0;
    while i < n
        invariant
            0 <= i <= n,
            n == instances@.len(),
            views(template_headers@) == template_headers_spec(instances@.take(i as int)),
        decreases n - i,
    {
        if instances[i].is_parallel {
            let mut c = String::from_str("void ");
            c.append(instances[i].name.as_str());
            c.append(
                "_create_parallel(uint soffset,uint coffset,Circom_CalcWit* ctx,std::string componentName,uint componentFather);",
            );
            template_headers.push(c);
            let mut rn = String::from_str("void ");
            rn.append(instances[i].name.as_str());
            rn.append("_run_parallel(uint ctx_index,Circom_CalcWit* ctx);");
            template_headers.push(rn);
        }
        if instances[i].is_not_parallel {
            let mut c = String::from_str("void ");
            c.append(instances[i].name.as_str());
            c.append(
                "_create(uint soffset,uint coffset,Circom_CalcWit* ctx,std::string componentName,uint componentFather);",
            );
            template_headers.push(c);
            let mut rn = String::from_str("void ");
            rn.append(instances[i].name.as_str());
            rn.append("_run(uint ctx_index,Circom_CalcWit* ctx);");
            template_headers.push(rn);
        }
        proof {
            let ta: Seq<InfoParallel> = instances@.take(i as int + 1);
            assert(ta.drop_last() =~= instances@.take(i as int));
            assert(ta.last() == instances@[i as int]);
            assert(views(template_headers@) =~= template_headers_spec(ta));
        }
        i = i + 1;
    }
    proof {
        assert(instances@.take(n as int) =~= instances@);
    }
    template_headers
}

/// The headers of the lowered functions, in order.
pub open spec fn function_headers_spec(l: Seq<String>) -> Seq<Seq<char>>
    decreases l.len(),
{
    if l.len() == 0 {
        Seq::empty()
    } else {
        function_headers_spec(l.drop_last()) + seq![
            "void "@ + l.last()@
                + "(Circom_CalcWit* ctx,FrElement* lvar,uint componentFather,FrElement* destination,int destination_size);"@,
        ]
    }
}

/// Collect the headers of the lowered functions.
pub fn collect_function_headers(functions: Vec<String>) -> (r: Vec<String>)
    ensures
        views(r@) == function_headers_spec(functions@),
{
    let mut function_headers: Vec<String> = Vec::new();
    let n: usize = functions.len();
    let mut i: usize = 0;
    while i < n
        invariant
            0 <= i <= n,
            n == functions@.len(),
            views(function_headers@) == function_headers_spec(functions@.take(i as int)),
        decreases n - i,
    {
        let mut h = String::from_str("void ");
        h.append(functions[i].as_str());
        h.append(
            "(Circom_CalcWit* ctx,FrElement* lvar,uint componentFather,FrElement* destination,int destination_size);",
        );
        function_headers.push(h);
        proof {
            let ta: Seq<String> = functions@.take(i as int + 1);
            assert(ta.drop_last() =~= functions@.take(i as int));
            assert(ta.last() == functions@[i as int]);
            assert(views(function_headers@) =~= function_headers_spec(ta));
        }
        i = i + 1;
    }
    proof {
        assert(functions@.take(n as int) =~= functions@);
    }
    function_headers
}

/// One entry of the sequential run-function table.
pub open spec fn func_entry_spec(inst: InfoParallel, first: bool) -> Seq<char> {
    (if first {
        "\n"@
    } else {
        ",\n"@
    }) + (if inst.is_not_parallel {
        inst.name@ + "_run"@
    } else {
        "NULL"@
    })
}

/// One entry of the parallel run-function table.
pub open spec fn func_entry_parallel_spec(inst: InfoParallel, first: bool) -> Seq<char> {
    (if first {
        "\n"@
    } else {
        ",\n"@
    }) + (if inst.is_parallel {
        inst.name@ + "_run_parallel"@
    } else {
        "NULL"@
    })
}

/// The sequential run-function table text.
pub open spec fn func_list_spec(l: Seq<InfoParallel>) -> Seq<char>
    decreases l.len(),
{
    if l.len() == 0 {
        Seq::empty()
    } else {
        func_list_spec(l.drop_last()) + func_entry_spec(l.last(), l.len() == 1)
    }
}

/// The parallel run-function table text.
pub open spec fn func_list_parallel_spec(l: Seq<InfoParallel>) -> Seq<char>
    decreases l.len(),
{
    if l.len() == 0 {
        Seq::empty()
    } else {
        func_list_parallel_spec(l.drop_last()) + func_entry_parallel_spec(l.last(), l.len() == 1)
    }
}

/// Build the two run-function tables: each instance's run entry or a null
/// slot, sequential and parallel.
pub fn generate_function_list(_producer: &RustProducer, list: &Vec<InfoParallel>) -> (r: (
    String,
    String,
))
    ensures
        r.0@ == func_list_spec(list@),
        r.1@ == func_list_parallel_spec(list@),
{
    let mut func_list = String::new();
    let mut func_list_parallel = String::new();
    let n: usize = list.len();
    let mut i: usize = 0;
    while i < n
        invariant
            0 <= i <= n,
            n == list@.len(),
            func_list@ == func_list_spec(list@.take(i as int)),
            func_list_parallel@ == func_list_parallel_spec(list@.take(i as int)),
        decreases n - i,
    {
        if i == 0 {
            func_list.append("\n");
            func_list_parallel.append("\n");
        } else {
            func_list.append(",\n");
            func_list_parallel.append(",\n");
        }
        if list[i].is_not_parallel {
            func_list.append(list[i].name.as_str());
            func_list.append("_run");
        } else {
            func_list.append("NULL");
        }
        if list[i].is_parallel {
            func_list_parallel.append(list[i].name.as_str());
            func_list_parallel.append("_run_parallel");
        } else {
            func_list_parallel.append("NULL");
        }
        proof {
            let ta: Seq<InfoParallel> = list@.take(i as int + 1);
            assert(ta.drop_last() =~= list@.take(i as int));
            assert(ta.last() == list@[i as int]);
            assert(func_list@ =~= func_list_spec(ta));
            assert(func_list_parallel@ =~= func_list_parallel_spec(ta));
        }
        i = i + 1;
    }
    proof {
        assert(list@.take(n as int) =~= list@);
    }
    (func_list, func_list_parallel)
}

/// The lines defining the template message list.
pub open spec fn message_defs_spec(l: Seq<String>) -> Seq<Seq<char>>
    decreases l.len(),
{
    if l.len() == 0 {
        Seq::empty()
    } else if l.len() == 1 {
        seq!["\""@ + l[0]@ + "\""@]
    } else {
        message_defs_spec(l.drop_last()) + seq![",\n\""@ + l.last()@ + "\""@]
    }
}

/// Build the template message list definition.
pub fn generate_message_list_def(_producer: &RustProducer, message_list: &Vec<String>) -> (r: Vec<
    String,
>)
    ensures
        views(r@) == seq!["std::string listOfTemplateMessages1 [] = {\n"@] + message_defs_spec(
            message_list@,
        ) + (if message_list@.len() > 0 {
            seq!["\n"@]
        } else {
            Seq::<Seq<char>>::empty()
        }) + seq!["};\n"@],
{
    let mut instructions: Vec<String> = Vec::new();
    instructions.push(String::from_str("std::string listOfTemplateMessages1 [] = {\n"));
    let ghost head: Seq<Seq<char>> = views(instructions@);
    let n: usize = message_list.len();
    let mut i: usize = 0;
    while i < n
        invariant
            0 <= i <= n,
            n == message_list@.len(),
            views(instructions@) == head + message_defs_spec(message_list@.take(i as int)),
        decreases n - i,
    {
        let mut line = if i == 0 {
            String::from_str("\"")
        } else {
            String::from_str(",\n\"")
        };
        line.append(message_list[i].as_str());
        line.append("\"");
        instructions.push(line);
        proof {
            let ta: Seq<String> = message_list@.take(i as int + 1);
            assert(ta.drop_last() =~= message_list@.take(i as int));
            assert(ta.last() == message_list@[i as int]);
            assert(ta[0] == message_list@[0int]);
            assert(views(instructions@) =~= head + message_defs_spec(ta));
        }
        i = i + 1;
    }
    proof {
        assert(message_list@.take(n as int) =~= message_list@);
    }
    if n > 0 {
        instructions.push(String::from_str("\n"));
    }
    instructions.push(String::from_str("};\n"));
    proof {
        assert(views(instructions@) =~= seq!["std::string listOfTemplateMessages1 [] = {\n"@]
            + message_defs_spec(message_list@) + (if message_list@.len() > 0 {
            seq!["\n"@]
        } else {
            Seq::<Seq<char>>::empty()
        }) + seq!["};\n"@]);
    }
    instructions
}

/// Build the component-memory release function of the native runtime.
pub fn generate_function_release_memory_component() -> (r: Vec<String>)
    ensures
        views(r@) == seq![
            "void release_memory_component(Circom_CalcWit* ctx, uint pos) {{\n"@,
            "if (pos != 0){{\n"@,
            "if(ctx->componentMemory[pos].subcomponents)"@,
            "delete []ctx->componentMemory[pos].subcomponents;\n"@,
            "if(ctx->componentMemory[pos].subcomponentsParallel)"@,
            "delete []ctx->componentMemory[pos].subcomponentsParallel;\n"@,
            "if(ctx->componentMemory[pos].outputIsSet)"@,
            "delete []ctx->componentMemory[pos].outputIsSet;\n"@,
            "if(ctx->componentMemory[pos].mutexes)"@,
            "delete []ctx->componentMemory[pos].mutexes;\n"@,
            "if(ctx->componentMemory[pos].cvs)"@,
            "delete []ctx->componentMemory[pos].cvs;\n"@,
            "if(ctx->componentMemory[pos].sbct)"@,
            "delete []ctx->componentMemory[pos].sbct;\n"@,
            "}}\n\n"@,
            "}}\n\n"@,
        ],
{
    let mut instructions: Vec<String> = Vec::new();
    instructions.push(
        String::from_str("void release_memory_component(Circom_CalcWit* ctx, uint pos) {{\n"),
    );
    instructions.push(String::from_str("if (pos != 0){{\n"));
    instructions.push(String::from_str("if(ctx->componentMemory[pos].subcomponents)"));
    instructions.push(String::from_str("delete []ctx->componentMemory[pos].subcomponents;\n"));
    instructions.push(String::from_str("if(ctx->componentMemory[pos].subcomponentsParallel)"));
    instructions.push(
        String::from_str("delete []ctx->componentMemory[pos].subcomponentsParallel;\n"),
    );
    instructions.push(String::from_str("if(ctx->componentMemory[pos].outputIsSet)"));
    instructions.push(String::from_str("delete []ctx->componentMemory[pos].outputIsSet;\n"));
    instructions.push(String::from_str("if(ctx->componentMemory[pos].mutexes)"));
    instructions.push(String::from_str("delete []ctx->componentMemory[pos].mutexes;\n"));
    instructions.push(String::from_str("if(ctx->componentMemory[pos].cvs)"));
    instructions.push(String::from_str("delete []ctx->componentMemory[pos].cvs;\n"));
    instructions.push(String::from_str("if(ctx->componentMemory[pos].sbct)"));
    instructions.push(String::from_str("delete []ctx->componentMemory[pos].sbct;\n"));
    instructions.push(String::from_str("}}\n\n"));
    instructions.push(String::from_str("}}\n\n"));
    proof {
        assert(views(instructions@) =~= seq![
            "void release_memory_component(Circom_CalcWit* ctx, uint pos) {{\n"@,
            "if (pos != 0){{\n"@,
            "if(ctx->componentMemory[pos].subcomponents)"@,
            "delete []ctx->componentMemory[pos].subcomponents;\n"@,
            "if(ctx->componentMemory[pos].subcomponentsParallel)"@,
            "delete []ctx->componentMemory[pos].subcomponentsParallel;\n"@,
            "if(ctx->componentMemory[pos].outputIsSet)"@,
            "delete []ctx->componentMemory[pos].outputIsSet;\n"@,
            "if(ctx->componentMemory[pos].mutexes)"@,
            "delete []ctx->componentMemory[pos].mutexes;\n"@,
            "if(ctx->componentMemory[pos].cvs)"@,
            "delete []ctx->componentMemory[pos].cvs;\n"@,
            "if(ctx->componentMemory[pos].sbct)"@,
            "delete []ctx->componentMemory[pos].sbct;\n"@,
            "}}\n\n"@,
            "}}\n\n"@,
        ]);
    }
    instructions
}

/// Build the whole-circuit memory release function of the native runtime.
pub fn generate_function_release_memory_circuit() -> (r: Vec<String>)
    ensures
        views(r@) == seq![
            "void release_memory(Circom_CalcWit* ctx) {{\n"@,
            "for (int i = 0; i < get_number_of_components(); i++) {{\n"@,
            "release_memory_component(ctx, i);\n"@,
            "}}\n"@,
            "}}\n"@,
        ],
{
    let mut instructions: Vec<String> = Vec::new();
    instructions.push(String::from_str("void release_memory(Circom_CalcWit* ctx) {{\n"));
    instructions.push(
        String::from_str("for (int i = 0; i < get_number_of_components(); i++) {{\n"),
    );
    instructions.push(String::from_str("release_memory_component(ctx, i);\n"));
    instructions.push(String::from_str("}}\n"));
    instructions.push(String::from_str("}}\n"));
    proof {
        assert(views(instructions@) =~= seq![
            "void release_memory(Circom_CalcWit* ctx) {{\n"@,
            "for (int i = 0; i < get_number_of_components(); i++) {{\n"@,
            "release_memory_component(ctx, i);\n"@,
            "}}\n"@,
            "}}\n"@,
        ]);
    }
    instructions
}


/// The entry a named input contributes to the table.
pub open spec fn entry_of(nm: (String, usize, usize)) -> HashSignalInfo {
    HashSignalInfo { hash: name_hash(nm.0), signal_id: nm.1, signal_size: nm.2 }
}

/// How many slots of a table are occupied.
spec fn occ(t: Seq<HashSignalInfo>) -> nat
    decreases t.len(),
{
    if t.len() == 0 {
        0
    } else {
        occ(t.drop_last()) + (if t.last().hash != 0 {
            1nat
        } else {
            0nat
        })
    }
}

proof fn lemma_occ_update(t: Seq<HashSignalInfo>, pos: int, e: HashSignalInfo)
    requires
        0 <= pos < t.len(),
        t[pos].hash == 0,
        e.hash != 0,
    ensures
        occ(t.update(pos, e)) == occ(t) + 1,
    decreases t.len(),
{
    if pos == t.len() - 1 {
        assert(t.update(pos, e).drop_last() =~= t.drop_last());
    } else {
        assert(t.update(pos, e).drop_last() =~= t.drop_last().update(pos, e));
        lemma_occ_update(t.drop_last(), pos, e);
    }
}

proof fn lemma_occ_all_zero(t: Seq<HashSignalInfo>)
    requires
        forall|s: int| 0 <= s < t.len() ==> (#[trigger] t[s]).hash == 0,
    ensures
        occ(t) == 0,
    decreases t.len(),
{
    if t.len() > 0 {
        assert(forall|s: int| 0 <= s < t.len() - 1 ==> t.drop_last()[s] == t[s]);
        lemma_occ_all_zero(t.drop_last());
    }
}

proof fn lemma_occ_all_full(t: Seq<HashSignalInfo>)
    requires
        forall|s: int| 0 <= s < t.len() ==> (#[trigger] t[s]).hash != 0,
    ensures
        occ(t) == t.len(),
    decreases t.len(),
{
    if t.len() > 0 {
        assert(forall|s: int| 0 <= s < t.len() - 1 ==> t.drop_last()[s] == t[s]);
        lemma_occ_all_full(t.drop_last());
    }
}

proof fn lemma_probe_free_props(t: Seq<HashSignalInfo>, h: u64, k: int)
    requires
        t.len() == 256,
        0 <= k,
    ensures
        probe_free(t, h, k) >= 0 ==> 0 <= probe_free(t, h, k) < 256 && t[probe_free(
            t,
            h,
            k,
        )].hash == 0,
    decreases 256 - k,
{
    if k < 256 {
        if t[((h as int) % 256 + k) % 256].hash == 0 {
        } else {
            lemma_probe_free_props(t, h, k + 1);
        }
    }
}

proof fn lemma_probe_free_none(t: Seq<HashSignalInfo>, h: u64, k: int, j: int)
    requires
        t.len() == 256,
        0 <= k <= j < 256,
        probe_free(t, h, k) == -1,
    ensures
        t[((h as int) % 256 + j) % 256].hash != 0,
    decreases j - k,
{
    if k < j {
        lemma_probe_free_none(t, h, k + 1, j);
    }
}

proof fn lemma_ring_covers(h: u64, s: int)
    requires
        0 <= s < 256,
    ensures
        exists|j: int|
            0 <= j < 256 && ((h as int) % 256 + #[trigger] spec_id(j)) % 256 == s,
{
    let base: int = (h as int) % 256;
    vstd::arithmetic::div_mod::lemma_mod_division_less_than_divisor(h as int, 256);
    if s >= base {
        let j: int = s - base;
        vstd::arithmetic::div_mod::lemma_small_mod(s as nat, 256);
        assert(spec_id(j) == j);
        assert((base + j) % 256 == s);
    } else {
        let j: int = s + 256 - base;
        vstd::arithmetic::div_mod::lemma_mod_multiples_vanish(1, s, 256);
        vstd::arithmetic::div_mod::lemma_small_mod(s as nat, 256);
        assert(spec_id(j) == j);
        assert(base + j == s + 256);
        assert((base + j) % 256 == s);
    }
}

/// The identity, kept as a named function to give quantifiers a handle.
pub open spec fn spec_id(j: int) -> int {
    j
}

proof fn lemma_probe_free_range(t: Seq<HashSignalInfo>, h: u64, k: int)
    ensures
        probe_free(t, h, k) >= 0 || probe_free(t, h, k) == -1,
    decreases 256 - k,
{
    if 0 <= k < 256 {
        if t[((h as int) % 256 + k) % 256].hash == 0 {
        } else {
            lemma_probe_free_range(t, h, k + 1);
        }
    }
}

proof fn lemma_probe_free_finds(t: Seq<HashSignalInfo>, h: u64)
    requires
        t.len() == 256,
        occ(t) < 256,
    ensures
        probe_free(t, h, 0) >= 0,
{
    lemma_probe_free_range(t, h, 0);
    if probe_free(t, h, 0) == -1 {
        assert forall|s: int| 0 <= s < 256 implies (#[trigger] t[s]).hash != 0 by {
            lemma_ring_covers(h, s);
            let j: int = choose|j: int|
                0 <= j < 256 && ((h as int) % 256 + #[trigger] spec_id(j)) % 256 == s;
            lemma_probe_free_none(t, h, 0, j);
        }
        lemma_occ_all_full(t);
    }
}

proof fn lemma_probe_pos_props(t: Seq<HashSignalInfo>, h: u64, k: int)
    requires
        t.len() == 256,
        0 <= k,
    ensures
        probe_pos(t, h, k) >= 0 ==> 0 <= probe_pos(t, h, k) < 256 && t[probe_pos(t, h, k)].hash
            == h,
    decreases 256 - k,
{
    if k < 256 {
        if t[((h as int) % 256 + k) % 256].hash == h {
        } else {
            lemma_probe_pos_props(t, h, k + 1);
        }
    }
}

proof fn lemma_probe_pos_from(t: Seq<HashSignalInfo>, h: u64, k: int, j: int)
    requires
        t.len() == 256,
        0 <= k <= j < 256,
        t[((h as int) % 256 + j) % 256].hash == h,
    ensures
        probe_pos(t, h, k) >= 0,
    decreases j - k,
{
    if t[((h as int) % 256 + k) % 256].hash == h {
    } else {
        assert(k < j);
        lemma_probe_pos_from(t, h, k + 1, j);
    }
}

proof fn lemma_probe_pos_finds(t: Seq<HashSignalInfo>, h: u64, s: int)
    requires
        t.len() == 256,
        0 <= s < 256,
        t[s].hash == h,
    ensures
        probe_pos(t, h, 0) >= 0,
{
    lemma_ring_covers(h, s);
    let j: int = choose|j: int|
        0 <= j < 256 && ((h as int) % 256 + #[trigger] spec_id(j)) % 256 == s;
    lemma_probe_pos_from(t, h, 0, j);
}

/// Whether the names carry pairwise distinct, nonzero hashes.
pub open spec fn distinct_hashes(names: Seq<(String, usize, usize)>) -> bool {
    &&& (forall|a: int| 0 <= a < names.len() ==> name_hash((#[trigger] names[a]).0) != 0)
    &&& (forall|a: int, b: int|
        0 <= a < b < names.len() ==> name_hash((#[trigger] names[a]).0) != name_hash(
            (#[trigger] names[b]).0,
        ))
}

/// Every occupied slot of the built table holds the entry of one of the
/// inserted names, the table has exactly 256 slots, and every name's entry
/// stands in some slot.
proof fn lemma_table_built(names: Seq<(String, usize, usize)>)
    requires
        names.len() <= 256,
        distinct_hashes(names),
    ensures
        table_spec(names).len() == 256,
        occ(table_spec(names)) <= names.len(),
        forall|s: int|
            0 <= s < 256 ==> ((#[trigger] table_spec(names)[s]).hash != 0 ==> exists|j: int|
                0 <= j < names.len() && table_spec(names)[s] == entry_of(#[trigger] names[j])),
        forall|j: int|
            0 <= j < names.len() ==> exists|s: int|
                0 <= s < 256 && table_spec(names)[s] == entry_of(#[trigger] names[j]),
    decreases names.len(),
{
    if names.len() == 0 {
        lemma_occ_all_zero(blank_table());
    } else {
        let prev = names.drop_last();
        assert(distinct_hashes(prev)) by {
            assert(forall|a: int| 0 <= a < prev.len() ==> prev[a] == names[a]);
        }
        lemma_table_built(prev);
        let t = table_spec(prev);
        let h = name_hash(names.last().0);
        lemma_probe_free_finds(t, h);
        let pos = probe_free(t, h, 0);
        lemma_probe_free_props(t, h, 0);
        assert(0 <= pos < 256 && t[pos].hash == 0);
        let e = entry_of(names.last());
        assert(e.hash == h);
        assert(h != 0);
        assert(table_spec(names) == t.update(pos, HashSignalInfo {
            hash: h,
            signal_id: names.last().1,
            signal_size: names.last().2,
        }));
        assert(table_spec(names) == t.update(pos, e));
        lemma_occ_update(t, pos, e);
        assert forall|j: int|
            0 <= j < names.len() implies exists|s: int|
            0 <= s < 256 && table_spec(names)[s] == entry_of(#[trigger] names[j]) by {
            if j == names.len() - 1 {
                assert(table_spec(names)[pos] == entry_of(names[j]));
            } else {
                assert(names[j] == prev[j]);
                let s = choose|s: int| 0 <= s < 256 && t[s] == entry_of(prev[j]);
                assert(t[s].hash == name_hash(prev[j].0));
                assert(t[s].hash != 0);
                assert(s != pos);
                assert(table_spec(names)[s] == entry_of(names[j]));
            }
        }
        assert forall|s: int|
            0 <= s < 256 implies ((#[trigger] table_spec(names)[s]).hash != 0 ==> exists|j: int|
            0 <= j < names.len() && table_spec(names)[s] == entry_of(#[trigger] names[j])) by {
            if table_spec(names)[s].hash != 0 {
                if s == pos {
                    assert(table_spec(names)[s] == entry_of(names[names.len() - 1]));
                } else {
                    assert(table_spec(names)[s] == t[s]);
                    if t[s].hash != 0 {
                        let j = choose|j: int| 0 <= j < prev.len() && t[s] == entry_of(prev[j]);
                        assert(names[j] == prev[j]);
                        assert(table_spec(names)[s] == entry_of(names[j]));
                    }
                }
            }
        }
    }
}

/// The named-signal table round-trips: with at most 256 names of pairwise
/// distinct nonzero hashes, every inserted name is independently resolvable
/// by hash probe to its original signal id and size.
pub proof fn lemma_named_signal_round_trip(names: Seq<(String, usize, usize)>, j: int)
    requires
        names.len() <= 256,
        distinct_hashes(names),
        0 <= j < names.len(),
    ensures
        probe_pos(table_spec(names), name_hash(names[j].0), 0) >= 0,
        table_spec(names)[probe_pos(table_spec(names), name_hash(names[j].0), 0)].signal_id
            == names[j].1,
        table_spec(names)[probe_pos(table_spec(names), name_hash(names[j].0), 0)].signal_size
            == names[j].2,
{
    lemma_table_built(names);
    let t = table_spec(names);
    let h = name_hash(names[j].0);
    let s = choose|s: int| 0 <= s < 256 && t[s] == entry_of(names[j]);
    assert(t[s].hash == h);
    lemma_probe_pos_finds(t, h, s);
    lemma_probe_pos_props(t, h, 0);
    let q = probe_pos(t, h, 0);
    assert(t[q].hash == h);
    assert(t[q].hash != 0);
    let jj = choose|jj: int| 0 <= jj < names.len() && t[q] == entry_of(names[jj]);
    assert(name_hash(names[jj].0) == h);
    if jj != j {
        if jj < j {
            assert(name_hash(names[jj].0) != name_hash(names[j].0));
        } else {
            assert(name_hash(names[j].0) != name_hash(names[jj].0));
        }
        assert(false);
    }
    assert(t[q] == entry_of(names[j]));
}


/// The dual encoding round-trips: a canonical value whose Montgomery form
/// equals another's is that value, so decoding the Montgomery form of an
/// encoded constant gives the constant back.
pub proof fn lemma_montgomery_round_trip(n: nat, d: nat, w: nat)
    requires
        n < p(),
        d < p(),
        mul_spec(pow2(256) % p(), w) == 1,
        mul_spec(d, pow2(256) % p()) == mul_spec(n, pow2(256) % p()),
    ensures
        d == n,
{
    crate::field::lemma_mul_cancel(n, d, pow2(256) % p(), w);
}

} // verus!
