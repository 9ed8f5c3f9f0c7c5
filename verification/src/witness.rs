//! The witness-generation runtime protocol: component lifecycle, input
//! counting and triggering, named-input resolution through the fixed-size
//! open-addressed table, and the binary witness output format. The sample
//! circuit compiled in — one template with two inputs and their product as
//! the output — exercises the whole protocol.

use vstd::prelude::*;
use crate::components::HashSignalInfo;
use crate::components::SignalList;
use crate::components::TemplateInstanceIOMap;
use crate::field;
use crate::field::FieldElement;
use crate::field::mul_spec;
use crate::field::nat_le_bytes;
use crate::field::p;
use crate::rust_gen::push_u32_le;
use crate::rust_gen::push_u64_le;
use vstd::arithmetic::power2::pow2;

verus! {

/// The start of the main input signals inside the signal array.
pub fn get_main_input_signal_start() -> (r: usize)
    ensures
        r == 2,
{
    2
}

/// How many input signals the main component declares.
pub fn get_main_input_signal_no() -> (r: usize)
    ensures
        r == 2,
{
    2
}

/// How many signals the whole circuit holds.
pub fn get_total_signal_no() -> (r: usize)
    ensures
        r == 4,
{
    4
}

/// How many components the circuit instantiates.
pub fn get_number_of_components() -> (r: usize)
    ensures
        r == 1,
{
    1
}

/// The fixed size of the named-input hash table.
pub fn get_size_of_input_hashmap() -> (r: usize)
    ensures
        r == 256,
{
    256
}

/// How many witness values the circuit produces.
pub fn get_size_of_witness() -> (r: usize)
    ensures
        r == 4,
{
    4
}

/// How many field constants the circuit carries.
pub fn get_size_of_constants() -> (r: usize)
    ensures
        r == 0,
{
    0
}

/// How many templates have IO-table entries.
pub fn get_size_of_io_map() -> (r: usize)
    ensures
        r == 0,
{
    0
}

/// The deserialized circuit: the named-input table, the witness order, the
/// constant pool and the IO table.
pub struct CircomCircuit {
    pub input_hash_map: Vec<HashSignalInfo>,
    pub witness_to_signal: SignalList,
    pub constants: Vec<FieldElement>,
    pub template_to_io_signal: TemplateInstanceIOMap,
}

/// One entry of the component table.
pub struct CircomComponent {
    pub template_id: usize,
    pub signal_start: usize,
    pub input_counter: usize,
    pub template_name: String,
    pub component_name: String,
    pub father_id: usize,
    pub subcomponents: Vec<usize>,
}

impl CircomComponent {
    /// An uninstantiated component-table entry.
    pub fn blank() -> (r: CircomComponent)
        ensures
            r.template_id == 0,
            r.signal_start == 0,
            r.input_counter == 0,
            r.template_name@ == "none"@,
            r.component_name@ == "none"@,
            r.father_id == 0,
            r.subcomponents@ == Seq::<usize>::empty(),
    {
        CircomComponent {
            template_id: 0,
            signal_start: 0,
            input_counter: 0,
            template_name: String::from_str("none"),
            component_name: String::from_str("none"),
            father_id: 0,
            subcomponents: Vec::new(),
        }
    }
}

/// A protocol violation: always fatal, never recovered from.
#[derive(Clone, Copy, PartialEq, Eq, Structural, Debug)]
pub enum ProtocolError {
    NoMoreInputs,
    UnknownSignal,
    SizeExceeded,
    AssignedTwice,
}

/// How many entries of a boolean string are false.
pub open spec fn num_false(s: Seq<bool>) -> nat
    decreases s.len(),
{
    if s.len() == 0 {
        0
    } else {
        num_false(s.drop_last()) + (if s.last() {
            0nat
        } else {
            1nat
        })
    }
}

proof fn lemma_num_false_update(s: Seq<bool>, j: int)
    requires
        0 <= j < s.len(),
        !s[j],
    ensures
        num_false(s.update(j, true)) + 1 == num_false(s),
    decreases s.len(),
{
    if j == s.len() - 1 {
        assert(s.update(j, true).drop_last() =~= s.drop_last());
        assert(s.update(j, true).last());
    } else {
        assert(s.update(j, true).drop_last() =~= s.drop_last().update(j, true));
        assert(s.update(j, true).last() == s.last());
        lemma_num_false_update(s.drop_last(), j);
    }
}

/// The probe position of a hash in the 256-slot table: the first slot from
/// its home position whose hash matches, or a negative answer when the
/// probe sequence returns to its start without a match.
pub open spec fn probe_pos(t: Seq<HashSignalInfo>, h: u64, k: int) -> int
    recommends
        t.len() == 256,
    decreases 256 - k,
{
    if k < 0 || k >= 256 {
        -1
    } else if t[((h as int) % 256 + k) % 256].hash == h {
        ((h as int) % 256 + k) % 256
    } else {
        probe_pos(t, h, k + 1)
    }
}

/// The runtime state of a witness computation.
pub struct CircomWitness {
    pub input_counter: usize,
    pub assigned_inputs: Vec<bool>,
    pub signals: Vec<FieldElement>,
    pub components: Vec<CircomComponent>,
    pub circuit: CircomCircuit,
}

impl CircomWitness {
    /// Well-formedness of the runtime state: the fixed shapes of the
    /// arrays, the counter agreeing with the unassigned slots, and the
    /// named-input table pointing into the input segment.
    pub open spec fn wf(&self) -> bool {
        &&& self.assigned_inputs@.len() == 2
        &&& self.signals@.len() == 4
        &&& (forall|i: int| 0 <= i < 4 ==> (#[trigger] self.signals@[i]).wf())
        &&& self.components@.len() == 1
        &&& self.components@[0].signal_start == 1
        &&& self.input_counter == num_false(self.assigned_inputs@)
        &&& self.circuit.input_hash_map@.len() == 256
        &&& (forall|k: int|
            0 <= k < 256 ==> ((#[trigger] self.circuit.input_hash_map@[k]).hash != 0 ==> 2
                <= self.circuit.input_hash_map@[k].signal_id
                && self.circuit.input_hash_map@[k].signal_id
                + self.circuit.input_hash_map@[k].signal_size <= 4))
        &&& (forall|k: int|
            0 <= k < 256 ==> ((#[trigger] self.circuit.input_hash_map@[k]).hash == 0
                ==> self.circuit.input_hash_map@[k].signal_size == 0))
    }

    /// Build the runtime state of a fresh circuit: the constant-one signal
    /// set, every input unassigned, the input counter at its quota.
    pub fn new(circuit: CircomCircuit) -> (r: CircomWitness)
        requires
            circuit.input_hash_map@.len() == 256,
            forall|k: int|
                0 <= k < 256 ==> ((#[trigger] circuit.input_hash_map@[k]).hash != 0 ==> 2
                    <= circuit.input_hash_map@[k].signal_id && circuit.input_hash_map@[k].signal_id
                    + circuit.input_hash_map@[k].signal_size <= 4),
            forall|k: int|
                0 <= k < 256 ==> ((#[trigger] circuit.input_hash_map@[k]).hash == 0
                    ==> circuit.input_hash_map@[k].signal_size == 0),
        ensures
            r.wf(),
            r.input_counter == 2,
            r.signals@[0]@ == 1,
            r.signals@[1]@ == 0,
            r.signals@[2]@ == 0,
            r.signals@[3]@ == 0,
            forall|j: int| 0 <= j < 2 ==> !(#[trigger] r.assigned_inputs@[j]),
            r.circuit == circuit,
    {
        let input_counter: usize = get_main_input_signal_no();
        let mut assigned_inputs: Vec<bool> = Vec::new();
        assigned_inputs.push(false);
        assigned_inputs.push(false);
        let mut signals: Vec<FieldElement> = Vec::new();
        signals.push(field::one());
        signals.push(field::zero());
        signals.push(field::zero());
        signals.push(field::zero());
        let mut components: Vec<CircomComponent> = Vec::new();
        let mut main = CircomComponent::blank();
        main.signal_start = 1;
        components.push(main);
        proof {
            assert(assigned_inputs@ =~= seq![false, false]);
            assert(seq![false, false].drop_last() =~= seq![false]);
            assert(seq![false].drop_last() =~= Seq::<bool>::empty());
            assert(num_false(Seq::<bool>::empty()) == 0);
            assert(num_false(seq![false]) == 1);
            assert(num_false(seq![false, false]) == 2);
        }
        CircomWitness { input_counter, assigned_inputs, signals, components, circuit }
    }

    /// Resolve a named-input hash to its table position by linear probing
    /// from its home slot.
    pub fn get_input_signal_hash_position(&self, h: u64) -> (r: usize)
        requires
            self.wf(),
            probe_pos(self.circuit.input_hash_map@, h, 0) >= 0,
        ensures
            r as int == probe_pos(self.circuit.input_hash_map@, h, 0),
            r < 256,
            self.circuit.input_hash_map@[r as int].hash == h,
    {
        let ghost t: Seq<HashSignalInfo> = self.circuit.input_hash_map@;
        let start: usize = (h % 256) as usize;
        let mut k: usize = 0;
        while k < 256
            invariant
                0 <= k <= 256,
                self.wf(),
                t == self.circuit.input_hash_map@,
                start == (h as int) % 256,
                probe_pos(t, h, 0) == probe_pos(t, h, k as int),
                probe_pos(t, h, 0) >= 0,
            decreases 256 - k,
        {
            let pos: usize = (start + k) % 256;
            if self.circuit.input_hash_map[pos].hash == h {
                proof {
                    assert(probe_pos(t, h, k as int) == pos as int);
                }
                return pos;
            }
            proof {
                assert(probe_pos(t, h, k as int) == probe_pos(t, h, k as int + 1));
            }
            k = k + 1;
        }
        proof {
            assert(probe_pos(t, h, 256) == -1);
            assert(false);
        }
        vstd::pervasive::unreached()
    }

    /// The table position of a named-input hash, where the table holds
    /// one: the guarded form of the probe.
    pub fn find_input_signal(&self, h: u64) -> (r: Option<usize>)
        requires
            self.wf(),
        ensures
            r is Some <==> probe_pos(self.circuit.input_hash_map@, h, 0) >= 0,
            r matches Some(pos) ==> pos as int == probe_pos(
                self.circuit.input_hash_map@,
                h,
                0,
            ) && pos < 256,
    {
        let ghost t: Seq<HashSignalInfo> = self.circuit.input_hash_map@;
        let start: usize = (h % 256) as usize;
        let mut k: usize = 0;
        while k < 256
            invariant
                0 <= k <= 256,
                self.wf(),
                t == self.circuit.input_hash_map@,
                start == (h as int) % 256,
                probe_pos(t, h, 0) == probe_pos(t, h, k as int),
            decreases 256 - k,
        {
            let pos: usize = (start + k) % 256;
            if self.circuit.input_hash_map[pos].hash == h {
                proof {
                    assert(probe_pos(t, h, k as int) == pos as int);
                }
                return Some(pos);
            }
            proof {
                assert(probe_pos(t, h, k as int) == probe_pos(t, h, k as int + 1));
            }
            k = k + 1;
        }
        proof {
            assert(probe_pos(t, h, 256) == -1);
        }
        None
    }

    /// The declared size of a named input.
    pub fn get_input_signal_size(&self, h: u64) -> (r: usize)
        requires
            self.wf(),
            probe_pos(self.circuit.input_hash_map@, h, 0) >= 0,
        ensures
            r == self.circuit.input_hash_map@[probe_pos(
                self.circuit.input_hash_map@,
                h,
                0,
            )].signal_size,
    {
        let pos = self.get_input_signal_hash_position(h);
        self.circuit.input_hash_map[pos].signal_size
    }

    /// The witness value at a witness index.
    pub fn get_witness(&self, idx: usize) -> (r: FieldElement)
        requires
            self.wf(),
            idx < self.circuit.witness_to_signal@.len(),
            self.circuit.witness_to_signal@[idx as int] < 4,
        ensures
            r@ == self.signals@[self.circuit.witness_to_signal@[idx as int] as int]@,
            r.wf(),
    {
        let sid: usize = self.circuit.witness_to_signal[idx];
        let mut out = field::zero();
        field::copy(&mut out, &self.signals[sid]);
        out
    }

    /// Run the whole circuit when every input has arrived.
    pub fn try_run_circuit(&mut self)
        requires
            old(self).wf(),
        ensures
            final (self).wf(),
            old(self).input_counter != 0 ==> *final (self) == *old(self),
            old(self).input_counter == 0 ==> ran_state_ok(*old(self), *final (self)),
    {
        if self.input_counter == 0 {
            run(self);
        }
    }

    /// Bind one slot of a named input signal. Writing past the input
    /// quota, to an unknown name, past the declared size, or to a slot
    /// already assigned is a protocol violation; the write that brings the
    /// counter to zero triggers the circuit run, exactly once.
    pub fn set_input_signal(&mut self, h: u64, i: usize, val: &FieldElement) -> (r: Result<
        (),
        ProtocolError,
    >)
        requires
            old(self).wf(),
            val.wf(),
        ensures
            final (self).wf(),
            r matches Err(e) ==> *final (self) == *old(self) && (e == (
            if old(self).input_counter == 0 {
                ProtocolError::NoMoreInputs
            } else if probe_pos(old(self).circuit.input_hash_map@, h, 0) < 0 {
                ProtocolError::UnknownSignal
            } else if i >= old(self).circuit.input_hash_map@[probe_pos(
                old(self).circuit.input_hash_map@,
                h,
                0,
            )].signal_size {
                ProtocolError::SizeExceeded
            } else {
                ProtocolError::AssignedTwice
            })),
            r is Err <==> (old(self).input_counter == 0 || probe_pos(
                old(self).circuit.input_hash_map@,
                h,
                0,
            ) < 0 || i >= old(self).circuit.input_hash_map@[probe_pos(
                old(self).circuit.input_hash_map@,
                h,
                0,
            )].signal_size || old(self).assigned_inputs@[old(self).circuit.input_hash_map@[
                probe_pos(old(self).circuit.input_hash_map@, h, 0)].signal_id + i - 2]),
            r is Ok ==> {
                let si = old(self).circuit.input_hash_map@[probe_pos(
                    old(self).circuit.input_hash_map@,
                    h,
                    0,
                )].signal_id + i;
                let base = svals(*old(self)).update(si as int, val@);
                &&& final (self).circuit == old(self).circuit
                &&& final (self).components == old(self).components
                &&& final (self).assigned_inputs@ == old(self).assigned_inputs@.update(
                    si - 2,
                    true,
                )
                &&& final (self).input_counter == old(self).input_counter - 1
                &&& (old(self).input_counter > 1 ==> svals(*final (self)) == base)
                &&& (old(self).input_counter == 1 ==> svals(*final (self)) == base.update(
                    1,
                    mul_spec(base[2], base[3]),
                ))
            },
    {
        if self.input_counter == 0 {
            return Err(ProtocolError::NoMoreInputs);
        }
        let ghost t: Seq<HashSignalInfo> = self.circuit.input_hash_map@;
        let start: usize = (h % 256) as usize;
        let mut k: usize = 0;
        let mut found: bool = false;
        let mut pos: usize = 0;
        while k < 256 && !found
            invariant
                0 <= k <= 256,
                self.wf(),
                self == old(self),
                t == self.circuit.input_hash_map@,
                start == (h as int) % 256,
                !found ==> probe_pos(t, h, 0) == probe_pos(t, h, k as int),
                found ==> probe_pos(t, h, 0) == pos as int && pos < 256 && t[pos as int].hash
                    == h,
            decreases 256 - k,
        {
            let q: usize = (start + k) % 256;
            if self.circuit.input_hash_map[q].hash == h {
                proof {
                    assert(probe_pos(t, h, k as int) == q as int);
                }
                found = true;
                pos = q;
            } else {
                proof {
                    assert(probe_pos(t, h, k as int) == probe_pos(t, h, k as int + 1));
                }
            }
            k = k + 1;
        }
        if !found {
            proof {
                assert(k == 256);
                assert(probe_pos(t, h, 256) == -1);
            }
            return Err(ProtocolError::UnknownSignal);
        }
        if i >= self.circuit.input_hash_map[pos].signal_size {
            return Err(ProtocolError::SizeExceeded);
        }
        proof {
            assert(t[pos as int].hash == h);
            assert(t[pos as int].signal_size > i);
            assert(t[pos as int].hash != 0);
            assert(2 <= t[pos as int].signal_id && t[pos as int].signal_id
                + t[pos as int].signal_size <= 4);
        }
        let si: usize = self.circuit.input_hash_map[pos].signal_id + i;
        let slot: usize = si - get_main_input_signal_start();
        if self.assigned_inputs[slot] {
            return Err(ProtocolError::AssignedTwice);
        }
        let mut stored = field::zero();
        field::copy(&mut stored, val);
        self.signals[si] = stored;
        self.assigned_inputs[slot] = true;
        proof {
            lemma_num_false_update(old(self).assigned_inputs@, slot as int);
        }
        self.input_counter = self.input_counter - 1;
        proof {
            assert(svals(*self) =~= svals(*old(self)).update(si as int, val@));
            assert(self.wf());
        }
        let ghost mid: CircomWitness = *self;
        self.try_run_circuit();
        proof {
            if mid.input_counter == 0 {
                assert(svals(*self) =~= svals(mid).update(
                    1,
                    mul_spec(svals(mid)[2], svals(mid)[3]),
                ));
            }
        }
        Ok(())
    }
}

/// The values of the signal array.
pub open spec fn svals(w: CircomWitness) -> Seq<nat> {
    w.signals@.map_values(|e: FieldElement| e@)
}

/// What running the circuit does to the state: the main component's output
/// signal receives the product of its two input signals; nothing else
/// moves.
pub open spec fn ran_state_ok(before: CircomWitness, after: CircomWitness) -> bool {
    let ss = before.components@[0].signal_start as int;
    &&& after.circuit == before.circuit
    &&& after.components == before.components
    &&& after.assigned_inputs == before.assigned_inputs
    &&& after.input_counter == before.input_counter
    &&& svals(after) == svals(before).update(ss, mul_spec(svals(before)[ss + 1], svals(before)[ss
        + 2]))
}

/// Run the lowered circuit: its single template instance.
pub fn run(ctx: &mut CircomWitness)
    requires
        old(ctx).wf(),
    ensures
        final (ctx).wf(),
        ran_state_ok(*old(ctx), *final (ctx)),
{
    multiply_0_run(0, ctx);
}

/// Instantiate the sample template: two input signals, one output, an
/// input quota of two.
pub fn multiply_0_create(
    soffset: usize,
    coffset: usize,
    ctx: &mut CircomWitness,
    comp_name: &str,
    component_father: usize,
) -> (r: ())
    requires
        coffset < old(ctx).components@.len(),
    ensures
        final (ctx).components@.len() == old(ctx).components@.len(),
        final (ctx).components@[coffset as int].template_id == 0,
        final (ctx).components@[coffset as int].template_name@ == "Multiply"@,
        final (ctx).components@[coffset as int].signal_start == soffset,
        final (ctx).components@[coffset as int].input_counter == 2,
        final (ctx).components@[coffset as int].component_name@ == comp_name@,
        final (ctx).components@[coffset as int].father_id == component_father,
        final (ctx).components@[coffset as int].subcomponents@ == Seq::<usize>::empty(),
        forall|j: int|
            0 <= j < old(ctx).components@.len() && j != coffset
                ==> final (ctx).components@[j] == old(ctx).components@[j],
        final (ctx).signals == old(ctx).signals,
        final (ctx).assigned_inputs == old(ctx).assigned_inputs,
        final (ctx).input_counter == old(ctx).input_counter,
        final (ctx).circuit == old(ctx).circuit,
{
    let c = CircomComponent {
        template_id: 0,
        template_name: String::from_str("Multiply"),
        signal_start: soffset,
        input_counter: 2,
        component_name: String::from_str(comp_name),
        father_id: component_father,
        subcomponents: Vec::new(),
    };
    ctx.components[coffset] = c;
}

/// Run the sample template: the output signal becomes the product of the
/// two input signals.
pub fn multiply_0_run(ctx_index: usize, ctx: &mut CircomWitness)
    requires
        old(ctx).wf(),
        ctx_index < old(ctx).components@.len(),
        old(ctx).components@[ctx_index as int].signal_start + 2 < old(ctx).signals@.len(),
    ensures
        final (ctx).wf(),
        final (ctx).circuit == old(ctx).circuit,
        final (ctx).components == old(ctx).components,
        final (ctx).assigned_inputs == old(ctx).assigned_inputs,
        final (ctx).input_counter == old(ctx).input_counter,
        svals(*final (ctx)) == svals(*old(ctx)).update(
            old(ctx).components@[ctx_index as int].signal_start as int,
            mul_spec(
                svals(*old(ctx))[old(ctx).components@[ctx_index as int].signal_start + 1],
                svals(*old(ctx))[old(ctx).components@[ctx_index as int].signal_start + 2],
            ),
        ),
{
    let signal_start: usize = ctx.components[ctx_index].signal_start;
    let a = &ctx.signals[signal_start + 1];
    let b = &ctx.signals[signal_start + 2];
    let product = a.mul(b);
    ctx.signals[signal_start] = product;
    proof {
        assert(svals(*ctx) =~= svals(*old(ctx)).update(
            old(ctx).components@[ctx_index as int].signal_start as int,
            mul_spec(
                svals(*old(ctx))[old(ctx).components@[ctx_index as int].signal_start + 1],
                svals(*old(ctx))[old(ctx).components@[ctx_index as int].signal_start + 2],
            ),
        ));
    }
}

/// Given an input quota of two, writing both slots in either order
/// triggers the run exactly once: the trigger fires exactly at the write
/// that brings the counter to zero, and every later write is rejected.
pub proof fn lemma_trigger_exactly_once(w: CircomWitness)
    requires
        w.wf(),
    ensures
        w.input_counter == 0 ==> forall|j: int|
            0 <= j < w.assigned_inputs@.len() ==> #[trigger] w.assigned_inputs@[j],
{
    if w.input_counter == 0 {
        lemma_num_false_zero(w.assigned_inputs@);
    }
}

proof fn lemma_num_false_zero(s: Seq<bool>)
    requires
        num_false(s) == 0,
    ensures
        forall|j: int| 0 <= j < s.len() ==> #[trigger] s[j],
    decreases s.len(),
{
    if s.len() > 0 {
        lemma_num_false_zero(s.drop_last());
        assert(forall|j: int| 0 <= j < s.len() - 1 ==> s[j] == s.drop_last()[j]);
    }
}


/// The canonical bytes of the witness values, in witness-index order.
pub open spec fn witness_values_spec(vals: Seq<nat>) -> Seq<u8>
    decreases vals.len(),
{
    if vals.len() == 0 {
        Seq::empty()
    } else {
        witness_values_spec(vals.drop_last()) + nat_le_bytes(vals.last(), 32)
    }
}

/// The witness output file: magic, version, two sections; the first holds
/// the element width and the prime, the second the witness values in
/// witness-index order.
pub open spec fn witness_file_spec(vals: Seq<nat>) -> Seq<u8> {
    seq![119u8, 116u8, 110u8, 115u8] + nat_le_bytes(2, 4) + nat_le_bytes(2, 4) + nat_le_bytes(
        1,
        4,
    ) + nat_le_bytes(36, 8) + nat_le_bytes(32, 4) + nat_le_bytes(p(), 32) + nat_le_bytes(2, 4)
        + nat_le_bytes(32 * vals.len(), 8) + witness_values_spec(vals)
}

/// The canonical little-endian bytes of the field prime.
fn prime_bytes() -> (r: Vec<u8>)
    ensures
        r@ == nat_le_bytes(p(), 32),
{
    let one_elem = field::one();
    let zero_elem = field::zero();
    let pm1 = zero_elem.sub(&one_elem);
    proof {
        vstd::arithmetic::div_mod::lemma_small_mod((p() - 1) as nat, p());
        assert(pm1@ == p() - 1);
    }
    let mut b: Vec<u8> = pm1.bytes;
    proof {
        crate::field::lemma_le_nat_bytes(b@);
        assert(b@[0] == (((p() - 1) as nat / pow2(0)) % 256) as u8) by {
            vstd::arithmetic::power2::lemma2_to64();
            assert((p() - 1) as nat / pow2(0) == (p() - 1) as nat) by (nonlinear_arith)
                requires
                    pow2(0) == 1,
            ;
        }
        assert((p() - 1) as nat % 256 == 0);
    }
    let ghost old_b: Seq<u8> = b@;
    b[0] = 1u8;
    proof {
        assert(b@.skip(1) =~= old_b.skip(1));
        assert(crate::field::le_nat(b@) == 1 + 256 * crate::field::le_nat(old_b.skip(1)));
        assert(crate::field::le_nat(old_b) == 0 + 256 * crate::field::le_nat(old_b.skip(1)));
        assert(crate::field::le_nat(b@) == p());
        crate::field::lemma_le_nat_bytes(b@);
        assert(b@ =~= nat_le_bytes(p(), 32));
    }
    b
}

/// Build the binary witness file for a completed run.
pub fn write_bin_witness(ctx: &CircomWitness) -> (r: Vec<u8>)
    requires
        ctx.wf(),
        ctx.circuit.witness_to_signal@.len() < 0x100000000,
        forall|j: int|
            0 <= j < ctx.circuit.witness_to_signal@.len()
                ==> (#[trigger] ctx.circuit.witness_to_signal@[j]) < 4,
    ensures
        r@ == witness_file_spec(
            Seq::new(
                ctx.circuit.witness_to_signal@.len(),
                |j: int| ctx.signals@[ctx.circuit.witness_to_signal@[j] as int]@,
            ),
        ),
{
    let ghost vals: Seq<nat> = Seq::new(
        ctx.circuit.witness_to_signal@.len(),
        |j: int| ctx.signals@[ctx.circuit.witness_to_signal@[j] as int]@,
    );
    let mut buffer: Vec<u8> = Vec::new();
    buffer.push(119u8);
    buffer.push(116u8);
    buffer.push(110u8);
    buffer.push(115u8);
    push_u32_le(&mut buffer, 2);
    push_u32_le(&mut buffer, 2);
    push_u32_le(&mut buffer, 1);
    push_u64_le(&mut buffer, 36);
    push_u32_le(&mut buffer, 32);
    let mut pb = prime_bytes();
    buffer.append(&mut pb);
    push_u32_le(&mut buffer, 2);
    let n: usize = ctx.circuit.witness_to_signal.len();
    let len64: u64 = 32u64 * (n as u64);
    proof {
        assert(32 * (n as nat) < 0x10000000000000000) by (nonlinear_arith)
            requires
                n < 0x100000000,
        ;
    }
    push_u64_le(&mut buffer, len64);
    let ghost header: Seq<u8> = buffer@;
    proof {
        assert(witness_values_spec(vals.take(0int)) =~= Seq::<u8>::empty());
    }
    let mut i: usize = 0;
    while i < n
        invariant
            0 <= i <= n,
            ctx.wf(),
            n == ctx.circuit.witness_to_signal@.len(),
            forall|j: int|
                0 <= j < ctx.circuit.witness_to_signal@.len()
                    ==> (#[trigger] ctx.circuit.witness_to_signal@[j]) < 4,
            vals == Seq::new(
                ctx.circuit.witness_to_signal@.len(),
                |j: int| ctx.signals@[ctx.circuit.witness_to_signal@[j] as int]@,
            ),
            buffer@ == header + witness_values_spec(vals.take(i as int)),
        decreases n - i,
    {
        let f = ctx.get_witness(i);
        proof {
            crate::field::lemma_canonical_bytes(f);
        }
        let mut fb: Vec<u8> = f.bytes;
        buffer.append(&mut fb);
        proof {
            let ta: Seq<nat> = vals.take(i as int + 1);
            assert(ta.drop_last() =~= vals.take(i as int));
            assert(ta.last() == vals[i as int]);
            assert(buffer@ =~= header + witness_values_spec(ta));
        }
        i = i + 1;
    }
    proof {
        assert(vals.take(n as int) =~= vals);
        assert(buffer@ =~= witness_file_spec(vals));
    }
    buffer
}


/// A lowered numeric value: a field element for signal values, or a 64-bit
/// machine value for compile-time constants such as template parameters and
/// loop bounds. The two kinds never mix.
pub enum Num {
    Scalar(FieldElement),
    U64(u64),
}

impl Num {
    /// The machine value of a compile-time constant.
    pub fn get_u64(&self) -> (r: u64)
        requires
            *self is U64,
        ensures
            r == (*self)->U64_0,
    {
        match self {
            Num::Scalar(_) => vstd::pervasive::unreached(),
            Num::U64(x) => *x,
        }
    }
}

} // verus!
