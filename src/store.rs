use vstd::prelude::*;
use vstd::string::StringExecFns;
use crate::bytes::push_all;
use crate::error::BootError;
use crate::text::str_equals;
use crate::variables::{VariableWrite, VendorScope};

verus! {

/// What a variable store holds: for each name and namespace, the attributes and bytes
/// last written.
pub type StoreModel = Map<(Seq<char>, VendorScope), (u32, Seq<u8>)>;

/// Reading a variable: its bytes, or `NotFound`.
pub open spec fn read_spec(m: StoreModel, name: Seq<char>, vendor: VendorScope) -> Result<
    Seq<u8>,
    BootError,
> {
    if m.contains_key((name, vendor)) {
        Ok(m[(name, vendor)].1)
    } else {
        Err(BootError::NotFound)
    }
}

/// Writing a variable replaces whatever it held.
pub open spec fn write_spec(
    m: StoreModel,
    name: Seq<char>,
    vendor: VendorScope,
    attributes: u32,
    data: Seq<u8>,
) -> StoreModel {
    m.insert((name, vendor), (attributes, data))
}

/// A write followed at once by a read of the same name and namespace returns the bytes
/// written; reads of every other variable are unchanged by it.
pub proof fn lemma_write_then_read(
    m: StoreModel,
    name: Seq<char>,
    vendor: VendorScope,
    attributes: u32,
    data: Seq<u8>,
    other_name: Seq<char>,
    other_vendor: VendorScope,
)
    ensures
        read_spec(write_spec(m, name, vendor, attributes, data), name, vendor) == Ok::<
            Seq<u8>,
            BootError,
        >(data),
        (other_name, other_vendor) != (name, vendor) ==> read_spec(
            write_spec(m, name, vendor, attributes, data),
            other_name,
            other_vendor,
        ) == read_spec(m, other_name, other_vendor),
{
}

/// One variable as the in-memory store keeps it.
pub struct StoredVariable {
    pub name: String,
    pub vendor: VendorScope,
    pub attributes: u32,
    pub data: Vec<u8>,
}

/// The model of a log of writes: later writes of a variable win.
pub open spec fn entries_model(s: Seq<StoredVariable>) -> StoreModel
    decreases s.len(),
{
    if s.len() == 0 {
        Map::empty()
    } else {
        let e = s.last();
        write_spec(entries_model(s.drop_last()), e.name@, e.vendor, e.attributes, e.data@)
    }
}

/// A variable store held in memory, standing in for the platform's variable service.
pub struct MemoryVariableStore {
    entries: Vec<StoredVariable>,
}

impl View for MemoryVariableStore {
    type V = StoreModel;

    closed spec fn view(&self) -> StoreModel {
        entries_model(self.entries@)
    }
}

/// The bytes a read hands back, as a model.
pub open spec fn read_view(r: Result<Vec<u8>, BootError>) -> Result<Seq<u8>, BootError> {
    match r {
        Ok(d) => Ok(d@),
        Err(e) => Err(e),
    }
}

impl MemoryVariableStore {
    /// An empty store.
    pub fn new() -> (r: MemoryVariableStore)
        ensures
            r@ == Map::<(Seq<char>, VendorScope), (u32, Seq<u8>)>::empty(),
    {
        MemoryVariableStore { entries: Vec::new() }
    }

    /// Writes `data` under `name` in `vendor`, replacing what was there.
    pub fn write(&mut self, name: &str, vendor: VendorScope, attributes: u32, data: &[u8])
        ensures
            final(self)@ == write_spec(old(self)@, name@, vendor, attributes, data@),
    {
        let mut bytes: Vec<u8> = Vec::new();
        push_all(&mut bytes, data);
        let e = StoredVariable { name: String::from_str(name), vendor, attributes, data: bytes };
        self.entries.push(e);
        assert(self.entries@.drop_last() =~= old(self).entries@);
    }

    /// Performs a write built elsewhere.
    pub fn apply(&mut self, w: VariableWrite)
        ensures
            final(self)@ == write_spec(old(self)@, w.name@, w.vendor, w.attributes, w.data@),
    {
        let e = StoredVariable { name: w.name, vendor: w.vendor, attributes: w.attributes, data: w.data };
        self.entries.push(e);
        assert(self.entries@.drop_last() =~= old(self).entries@);
    }

    /// Reads the bytes of `name` in `vendor`; `NotFound` when it was never written.
    pub fn read(&self, name: &str, vendor: VendorScope) -> (r: Result<Vec<u8>, BootError>)
        ensures
            read_view(r) == read_spec(self@, name@, vendor),
    {
        let mut i: usize = self.entries.len();
        assert(self.entries@.subrange(0, i as int) =~= self.entries@);
        while i > 0
            invariant
                i <= self.entries@.len(),
                read_spec(self@, name@, vendor) == read_spec(
                    entries_model(self.entries@.subrange(0, i as int)),
                    name@,
                    vendor,
                ),
            decreases i,
        {
            i = i - 1;
            let ghost prefix = self.entries@.subrange(0, i + 1);
            assert(prefix.drop_last() =~= self.entries@.subrange(0, i as int));
            let e = &self.entries[i];
            if str_equals(e.name.as_str(), name) && e.vendor == vendor {
                let mut bytes: Vec<u8> = Vec::new();
                push_all(&mut bytes, e.data.as_slice());
                return Ok(bytes);
            }
        }
        Err(BootError::NotFound)
    }
}

} // verus!
