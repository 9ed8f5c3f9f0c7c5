//! The backend-agnostic circuit metadata: named-signal hash entries, IO
//! descriptors, and the serialized bundle both backends consume.

use vstd::prelude::*;
use vstd::string::StringSliceAdditionalSpecFns;

verus! {

/// One slot of the 256-entry open-addressed named-signal table. A hash of
/// zero denotes an empty slot.
pub struct HashSignalInfo {
    pub hash: u64,
    pub signal_id: usize,
    pub signal_size: usize,
}

impl HashSignalInfo {
    /// Build a slot.
    pub fn new(hash: u64, signal_id: usize, signal_size: usize) -> (r: HashSignalInfo)
        ensures
            r.hash == hash,
            r.signal_id == signal_id,
            r.signal_size == signal_size,
    {
        HashSignalInfo { hash, signal_id, signal_size }
    }
}

/// One IO descriptor of a template: the signal code's flattened base offset
/// and the size of every array dimension.
pub struct IODef {
    pub code: usize,
    pub offset: usize,
    pub lengths: Vec<usize>,
}

/// The input signals of the main component: name, start position, size.
pub type InputList = Vec<(String, usize, usize)>;

/// The template names of a lowered circuit.
pub type TemplateList = Vec<String>;

/// One template instance and how it may run.
pub struct InfoParallel {
    pub name: String,
    pub is_parallel: bool,
    pub is_not_parallel: bool,
}

/// The template instances of a lowered circuit.
pub type TemplateListParallel = Vec<InfoParallel>;

/// The witness-index to signal-id list.
pub type SignalList = Vec<usize>;

/// The IO descriptors of one template.
pub type InputOutputList = Vec<IODef>;

/// The per-template IO table: template id to IO descriptors, held as a list
/// ordered by strictly increasing template id.
pub type TemplateInstanceIOMap = Vec<(usize, InputOutputList)>;

/// The diagnostic messages of a lowered circuit.
pub type MessageList = Vec<String>;

/// The serialized, backend-agnostic summary of a lowered circuit.
pub struct Data {
    pub map: Vec<HashSignalInfo>,
    pub signal_list: SignalList,
    pub constants: Vec<String>,
    pub iomap: TemplateInstanceIOMap,
}

/// The 64-bit offset-basis of the name hash.
pub open spec fn fnv_offset_basis() -> u64 {
    14695981039346656037u64
}

/// One step of the name hash: fold a byte in, then multiply by the prime,
/// keeping the low 64 bits.
pub open spec fn fnv1a_step(h: u64, b: u8) -> u64 {
    ((((h ^ (b as u64)) as nat) * 1099511628211nat) % 0x10000000000000000nat) as u64
}

/// The name hash of a byte string.
pub open spec fn fnv1a_spec(s: Seq<u8>) -> u64
    decreases s.len(),
{
    if s.len() == 0 {
        fnv_offset_basis()
    } else {
        fnv1a_step(fnv1a_spec(s.drop_last()), s.last())
    }
}

/// Hash a signal name: a 64-bit fold of its bytes, one byte at a time.
pub fn hasher(value: &str) -> (r: u64)
    ensures
        r == fnv1a_spec(value.spec_bytes()),
{
    let bs = value.as_bytes();
    let mut h: u64 = 14695981039346656037u64;
    let n: usize = bs.len();
    let mut i: usize = 0;
    while i < n
        invariant
            0 <= i <= n,
            n == bs@.len(),
            bs@ == value.spec_bytes(),
            h == fnv1a_spec(bs@.take(i as int)),
        decreases n - i,
    {
        let x: u64 = h ^ (bs[i] as u64);
        let h2: u64 = x.wrapping_mul(1099511628211u64);
        proof {
            let ta: Seq<u8> = bs@.take(i as int + 1);
            assert(ta.drop_last() =~= bs@.take(i as int));
            assert(ta.last() == bs@[i as int]);
            assert(h2 == fnv1a_step(h, bs@[i as int]));
        }
        h = h2;
        i = i + 1;
    }
    proof {
        assert(bs@.take(n as int) =~= bs@);
    }
    h
}

} // verus!
