use vstd::prelude::*;
use std::collections::HashMap;
use crate::config::Config;
use crate::text::spec_contains_new;
use vstd::utf8::encode_utf8;

verus! {

/// One fragment of the textual reproduction of an argument: a source-text
/// prefix positioned at a byte offset inside the argument.
pub struct SerializationInfo {
    pub offset: usize,
    pub prefix: String,
}

impl View for SerializationInfo {
    type V = (int, Seq<char>);

    open spec fn view(&self) -> (int, Seq<char>) {
        (self.offset as int, self.prefix@)
    }
}

/// Fragment list as a sequence of (offset, prefix) pairs.
pub open spec fn frags_view(s: Seq<SerializationInfo>) -> Seq<(int, Seq<char>)> {
    s.map_values(|f: SerializationInfo| f@)
}

/// The same fragments with every offset moved up by `off`.
pub open spec fn shift_frags(s: Seq<(int, Seq<char>)>, off: int) -> Seq<(int, Seq<char>)> {
    s.map_values(|p: (int, Seq<char>)| (p.0 + off, p.1))
}

/// All prefixes of the fragments, joined in order.
pub open spec fn concat_prefixes(s: Seq<(int, Seq<char>)>) -> Seq<char>
    decreases s.len(),
{
    if s.len() == 0 {
        Seq::empty()
    } else {
        concat_prefixes(s.drop_last()) + s.last().1
    }
}

/// Some fragment's prefix holds the substring "new": the mark of a
/// heap-allocation fragment in the reproduction text.
pub open spec fn any_new_frag(s: Seq<(int, Seq<char>)>) -> bool {
    exists|i: int| 0 <= i < s.len() && spec_contains_new(encode_utf8(#[trigger] s[i].1))
}

/// The serialization capability every generator offers: reproduction-text
/// fragments, a raw byte snapshot, and reconstruction from a prior snapshot.
/// `load` returns how many bytes it consumed from the auxiliary stream
/// `data`; the generators of this crate consume none.
pub trait ISerializableArg {
    /// The byte width the implementing generator governs.
    spec fn arg_size(&self) -> usize;

    /// Well-formedness of the implementing generator.
    spec fn arg_inv(&self) -> bool;

    /// The fragments the implementing generator yields on given bytes.
    spec fn arg_frags(&self, mem: Seq<u8>, fd: Seq<u8>) -> Seq<(int, Seq<char>)>;

    /// How a reload relates the reloaded bytes `out` to the dump window
    /// they came from.
    spec fn arg_loaded(&self, out: Seq<u8>, dump: Seq<u8>) -> bool;

    fn serialize(&self, mem: &[u8], fd: &[u8]) -> (r: Vec<SerializationInfo>)
        requires
            self.arg_inv(),
            mem@.len() == self.arg_size(),
        ensures
            frags_view(r@) == self.arg_frags(mem@, fd@),
    ;

    fn dump(&self, mem: &[u8]) -> (r: Vec<u8>)
        requires
            self.arg_inv(),
            mem@.len() == self.arg_size(),
        ensures
            r@ == mem@,
    ;

    fn load(
        &self,
        mem: &mut Vec<u8>,
        off: usize,
        dump: &[u8],
        data: &[u8],
        fd_lookup: &HashMap<Vec<u8>, Vec<u8>>,
        cfg: &Config,
    ) -> (used: usize)
        requires
            self.arg_inv(),
            cfg.inv(),
            off + self.arg_size() <= old(mem)@.len(),
            self.arg_size() <= dump@.len(),
        ensures
            used == 0,
            final(mem)@.len() == old(mem)@.len(),
            forall|i: int|
                0 <= i < old(mem)@.len() && !(off <= i < off + self.arg_size()) ==> final(mem)@[i] == old(mem)@[i],
            self.arg_loaded(final(mem)@.subrange(off as int, off + self.arg_size()), dump@),
    ;
}

/// The default serialization: one fragment at offset zero with an empty
/// prefix; the caller fills in the literal bytes.
pub fn default_serialize() -> (r: Vec<SerializationInfo>)
    ensures
        frags_view(r@) =~= seq![(0int, Seq::<char>::empty())],
{
    let mut v: Vec<SerializationInfo> = Vec::new();
    v.push(SerializationInfo { offset: 0, prefix: String::new() });
    v
}

/// The default dump: a verbatim copy of the governed bytes.
pub fn default_dump(mem: &[u8]) -> (r: Vec<u8>)
    ensures
        r@ == mem@,
{
    let mut r: Vec<u8> = Vec::new();
    let mut i: usize = 0;
    while i < mem.len()
        invariant
            i <= mem@.len(),
            r@ == mem@.subrange(0, i as int),
        decreases mem@.len() - i,
    {
        r.push(mem[i]);
        proof {
            assert(mem@.subrange(0, i + 1) =~= mem@.subrange(0, i as int).push(mem@[i as int]));
        }
        i += 1;
    }
    proof {
        assert(mem@.subrange(0, mem@.len() as int) =~= mem@);
    }
    r
}

/// The default load: copy `len` bytes of the dump verbatim into the
/// governed range, consuming nothing from the auxiliary stream.
pub fn default_load(mem: &mut Vec<u8>, off: usize, len: usize, dump: &[u8]) -> (used: usize)
    requires
        off + len <= old(mem)@.len(),
        len <= dump@.len(),
    ensures
        used == 0,
        final(mem)@.len() == old(mem)@.len(),
        forall|i: int|
            0 <= i < old(mem)@.len() && !(off <= i < off + len) ==> final(mem)@[i] == old(mem)@[i],
        forall|i: int| 0 <= i < len ==> final(mem)@[off + i] == dump@[i],
{
    let mut i: usize = 0;
    while i < len
        invariant
            off + len <= mem.len(),
            i <= len,
            len <= dump@.len(),
            mem@.len() == old(mem)@.len(),
            forall|j: int|
                0 <= j < old(mem)@.len() && !(off <= j < off + len) ==> mem@[j] == old(mem)@[j],
            forall|j: int| 0 <= j < i ==> mem@[off + j] == dump@[j],
        decreases len - i,
    {
        let b = dump[i];
        mem[off + i] = b;
        i += 1;
    }
    0
}

} // verus!
