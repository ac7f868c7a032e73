use vstd::prelude::*;
use std::collections::HashMap;
use crate::config::Config;
use crate::rng::{rnd_fill, rnd_ratio, rnd_u64};
use crate::serialize::{
    default_dump, default_load, default_serialize, ISerializableArg, SerializationInfo,
};

verus! {

/// Byte `i` of the little-endian encoding of `v`.
pub open spec fn le_byte(v: u64, i: int) -> u8 {
    ((v >> ((8 * i) as u64)) & 0xff) as u8
}

/// The value read little-endian from `w` bytes of `s` starting at `off`.
pub open spec fn le_read(s: Seq<u8>, off: int, w: int) -> u64
    decreases w,
{
    if w <= 0 {
        0
    } else {
        le_read(s, off, w - 1) | ((s[off + w - 1] as u64) << ((8 * (w - 1)) as u64))
    }
}

/// All-ones mask of a field width of 1, 2, 4 or 8 bytes.
pub open spec fn spec_width_mask(w: usize) -> u64 {
    if w == 1 {
        0xff
    } else if w == 2 {
        0xffff
    } else if w == 4 {
        0xffff_ffff
    } else {
        0xffff_ffff_ffff_ffff
    }
}

/// Write the `width` low bytes of `v` little-endian at `off`.
pub(crate) fn store_le(mem: &mut Vec<u8>, off: usize, width: usize, v: u64)
    requires
        off + width <= old(mem)@.len(),
        width <= 8,
    ensures
        final(mem)@.len() == old(mem)@.len(),
        forall|i: int|
            0 <= i < old(mem)@.len() && !(off <= i < off + width) ==> final(mem)@[i] == old(mem)@[i],
        forall|i: int| 0 <= i < width ==> final(mem)@[off + i] == le_byte(v, i),
{
    let mut i: usize = 0;
    while i < width
        invariant
            off + width <= mem.len(),
            width <= 8,
            i <= width,
            mem@.len() == old(mem)@.len(),
            forall|j: int|
                0 <= j < old(mem)@.len() && !(off <= j < off + width) ==> mem@[j] == old(mem)@[j],
            forall|j: int| 0 <= j < i ==> mem@[off + j] == le_byte(v, j),
        decreases width - i,
    {
        let b: u8 = ((v >> ((8 * i) as u64)) & 0xff) as u8;
        mem[off + i] = b;
        i += 1;
    }
}

/// Read `width` bytes little-endian starting at `off`.
pub(crate) fn load_le(bytes: &[u8], off: usize, width: usize) -> (v: u64)
    requires
        off + width <= bytes@.len(),
        width <= 8,
    ensures
        v == le_read(bytes@, off as int, width as int),
{
    let mut v: u64 = 0;
    let mut i: usize = 0;
    while i < width
        invariant
            off + width <= bytes.len(),
            width <= 8,
            i <= width,
            v == le_read(bytes@, off as int, i as int),
        decreases width - i,
    {
        v = v | ((bytes[off + i] as u64) << ((8 * i) as u64));
        i += 1;
    }
    v
}

/// Generator for a bit-flag field: `always` bits are forced on every time,
/// `flag` bits may vary, all other bits stay clear in the constrained
/// branch.  `width` is the byte width of the field.
pub struct Flag {
    pub always: u64,
    pub flag: u64,
    pub width: usize,
}

impl Flag {
    pub open spec fn inv(&self) -> bool {
        &&& (self.width == 1 || self.width == 2 || self.width == 4 || self.width == 8)
        &&& self.always & !spec_width_mask(self.width) == 0
        &&& self.flag & !spec_width_mask(self.width) == 0
    }

    pub open spec fn spec_size(&self) -> usize {
        self.width
    }

    /// The reconstruction policy: mandatory bits on, external bits kept
    /// only inside the permitted mask.
    pub open spec fn spec_fix(&self, external: u64) -> u64 {
        self.always | (external & self.flag)
    }

    pub fn new(always: u64, flag: u64, width: usize) -> (f: Flag)
        requires
            width == 1 || width == 2 || width == 4 || width == 8,
            always & !spec_width_mask(width) == 0,
            flag & !spec_width_mask(width) == 0,
        ensures
            f.inv(),
            f.always == always,
            f.flag == flag,
            f.width == width,
    {
        Flag { always, flag, width }
    }

    pub fn size(&self) -> (r: usize)
        ensures
            r == self.spec_size(),
    {
        self.width
    }

    pub fn name(&self) -> (r: &'static str)
        ensures
            r@ =~= seq!['F', 'l', 'a', 'g'],
    {
        proof {
            reveal_strlit("Flag");
        }
        "Flag"
    }

    /// The constrained value built from a raw draw `r`: mandatory bits
    /// set, varying bits taken from `r`, every other bit clear.
    pub fn masked_value(&self, r: u64) -> (v: u64)
        requires
            self.inv(),
        ensures
            v == self.spec_fix(r),
            v & self.always == self.always,
            v & !(self.always | self.flag) == 0,
            v & !spec_width_mask(self.width) == 0,
    {
        let ghost a = self.always;
        let ghost f = self.flag;
        let ghost m = spec_width_mask(self.width);
        let v = self.always | (r & self.flag);
        proof {
            assert((a | (r & f)) & a == a) by (bit_vector);
            assert((a | (r & f)) & !(a | f) == 0) by (bit_vector);
            assert(a & !m == 0 && f & !m == 0 ==> (a | (r & f)) & !m == 0) by (bit_vector);
        }
        v
    }

    /// Five times out of six write the constrained value; once out of six
    /// overwrite with an unconstrained random value to explore patterns
    /// outside the declared policy.
    pub fn generate(&self, mem: &mut Vec<u8>, off: usize, _fd: &[u8])
        requires
            self.inv(),
            off + self.spec_size() <= old(mem)@.len(),
        ensures
            final(mem)@.len() == old(mem)@.len(),
            forall|i: int|
                0 <= i < old(mem)@.len() && !(off <= i < off + self.spec_size()) ==> final(mem)@[i] == old(mem)@[i],
    {
        let v = self.masked_value(rnd_u64());
        store_le(mem, off, self.width, v);
        if rnd_ratio(1, 6) {
            store_le(mem, off, self.width, rnd_u64());
        }
    }

    /// Reload from externally mutated bytes: with probability one in
    /// `cfg.afl_fix_ratio` keep the external bytes verbatim, otherwise
    /// re-assert the declared policy on the external value.
    pub fn load(
        &self,
        mem: &mut Vec<u8>,
        off: usize,
        dump: &[u8],
        _data: &[u8],
        _fd_lookup: &HashMap<Vec<u8>, Vec<u8>>,
        cfg: &Config,
    ) -> (used: usize)
        requires
            self.inv(),
            cfg.inv(),
            off + self.spec_size() <= old(mem)@.len(),
            self.spec_size() <= dump@.len(),
        ensures
            used == 0,
            final(mem)@.len() == old(mem)@.len(),
            forall|i: int|
                0 <= i < old(mem)@.len() && !(off <= i < off + self.spec_size()) ==> final(mem)@[i] == old(mem)@[i],
            (forall|i: int| 0 <= i < self.spec_size() ==> final(mem)@[off + i] == dump@[i])
                || (forall|i: int|
                0 <= i < self.spec_size() ==> final(mem)@[off + i] == le_byte(
                    self.spec_fix(le_read(dump@, 0, self.spec_size() as int)),
                    i,
                )),
    {
        let used = default_load(mem, off, self.width, dump);
        if rnd_ratio(1, cfg.afl_fix_ratio) {
            return used;
        }
        let ext = load_le(dump, 0, self.width);
        let v = self.masked_value(ext);
        store_le(mem, off, self.width, v);
        used
    }
}

impl ISerializableArg for Flag {
    open spec fn arg_size(&self) -> usize {
        self.spec_size()
    }

    open spec fn arg_inv(&self) -> bool {
        self.inv()
    }

    open spec fn arg_frags(&self, mem: Seq<u8>, fd: Seq<u8>) -> Seq<(int, Seq<char>)> {
        seq![(0int, Seq::<char>::empty())]
    }

    open spec fn arg_loaded(&self, out: Seq<u8>, dump: Seq<u8>) -> bool {
        (forall|i: int| 0 <= i < self.width ==> out[i] == dump[i]) || (forall|i: int|
            0 <= i < self.width ==> out[i] == le_byte(
                self.spec_fix(le_read(dump, 0, self.width as int)),
                i,
            ))
    }

    fn serialize(&self, mem: &[u8], fd: &[u8]) -> (r: Vec<SerializationInfo>) {
        let r = default_serialize();
        proof {
            assert(crate::serialize::frags_view(r@) =~= self.arg_frags(mem@, fd@));
        }
        r
    }

    fn dump(&self, mem: &[u8]) -> Vec<u8> {
        default_dump(mem)
    }

    fn load(
        &self,
        mem: &mut Vec<u8>,
        off: usize,
        dump: &[u8],
        data: &[u8],
        fd_lookup: &HashMap<Vec<u8>, Vec<u8>>,
        cfg: &Config,
    ) -> usize {
        let used = Flag::load(self, mem, off, dump, data, fd_lookup, cfg);
        proof {
            let out = mem@.subrange(off as int, off + self.width);
            if forall|i: int| 0 <= i < self.width ==> mem@[off + i] == dump@[i] {
                assert forall|i: int| 0 <= i < self.width implies out[i] == dump@[i] by {
                    assert(out[i] == mem@[off + i]);
                }
            } else {
                assert(forall|i: int|
                    0 <= i < self.width ==> mem@[off + i] == le_byte(
                        self.spec_fix(le_read(dump@, 0, self.width as int)),
                        i,
                    ));
                assert forall|i: int|
                    0 <= i < self.width implies out[i] == le_byte(
                    self.spec_fix(le_read(dump@, 0, self.width as int)),
                    i,
                ) by {
                    assert(out[i] == mem@[off + i]);
                }
            }
        }
        used
    }
}

/// Generator for plain random data of a fixed byte count.
pub struct RndData {
    pub size: usize,
}

impl RndData {
    pub open spec fn spec_size(&self) -> usize {
        self.size
    }

    pub fn new(size: usize) -> (r: RndData)
        ensures
            r.size == size,
    {
        RndData { size }
    }

    pub fn size(&self) -> (r: usize)
        ensures
            r == self.spec_size(),
    {
        self.size
    }

    pub fn name(&self) -> (r: &'static str)
        ensures
            r@ =~= seq!['R', 'n', 'd', 'D', 'a', 't', 'a'],
    {
        proof {
            reveal_strlit("RndData");
        }
        "RndData"
    }

    /// Fill the governed range with fresh random bytes; everything outside
    /// it is untouched.
    pub fn generate(&self, mem: &mut Vec<u8>, off: usize, _fd: &[u8])
        requires
            off + self.spec_size() <= old(mem)@.len(),
        ensures
            final(mem)@.len() == old(mem)@.len(),
            forall|i: int|
                0 <= i < old(mem)@.len() && !(off <= i < off + self.spec_size()) ==> final(mem)@[i] == old(mem)@[i],
    {
        rnd_fill(mem, off, self.size);
    }

    /// The default reload: the dumped bytes come back verbatim.
    pub fn load(
        &self,
        mem: &mut Vec<u8>,
        off: usize,
        dump: &[u8],
        _data: &[u8],
        _fd_lookup: &HashMap<Vec<u8>, Vec<u8>>,
        _cfg: &Config,
    ) -> (used: usize)
        requires
            off + self.spec_size() <= old(mem)@.len(),
            self.spec_size() <= dump@.len(),
        ensures
            used == 0,
            final(mem)@.len() == old(mem)@.len(),
            forall|i: int|
                0 <= i < old(mem)@.len() && !(off <= i < off + self.spec_size()) ==> final(mem)@[i] == old(mem)@[i],
            forall|i: int| 0 <= i < self.spec_size() ==> final(mem)@[off + i] == dump@[i],
    {
        default_load(mem, off, self.size, dump)
    }
}

impl ISerializableArg for RndData {
    open spec fn arg_size(&self) -> usize {
        self.spec_size()
    }

    open spec fn arg_inv(&self) -> bool {
        true
    }

    open spec fn arg_frags(&self, mem: Seq<u8>, fd: Seq<u8>) -> Seq<(int, Seq<char>)> {
        seq![(0int, Seq::<char>::empty())]
    }

    open spec fn arg_loaded(&self, out: Seq<u8>, dump: Seq<u8>) -> bool {
        forall|i: int| 0 <= i < self.size ==> out[i] == dump[i]
    }

    fn serialize(&self, mem: &[u8], fd: &[u8]) -> (r: Vec<SerializationInfo>) {
        let r = default_serialize();
        proof {
            assert(crate::serialize::frags_view(r@) =~= self.arg_frags(mem@, fd@));
        }
        r
    }

    fn dump(&self, mem: &[u8]) -> Vec<u8> {
        default_dump(mem)
    }

    fn load(
        &self,
        mem: &mut Vec<u8>,
        off: usize,
        dump: &[u8],
        data: &[u8],
        fd_lookup: &HashMap<Vec<u8>, Vec<u8>>,
        cfg: &Config,
    ) -> usize {
        let used = RndData::load(self, mem, off, dump, data, fd_lookup, cfg);
        proof {
            let out = mem@.subrange(off as int, off + self.size);
            assert forall|i: int| 0 <= i < self.size implies out[i] == dump@[i] by {
                assert(out[i] == mem@[off + i]);
            }
        }
        used
    }
}

/// A flag value rebuilt by the load policy keeps every mandatory bit set
/// and no bit outside the declared masks, whatever the external input:
/// this holds of the constrained generation branch as well, which builds
/// its value by the same rule from a random draw.
pub proof fn lemma_flag_fix_invariant(f: Flag, external: u64)
    requires
        f.inv(),
    ensures
        f.spec_fix(external) & f.always == f.always,
        f.spec_fix(external) & !(f.always | f.flag) == 0,
{
    let a = f.always;
    let fl = f.flag;
    assert((a | (external & fl)) & a == a) by (bit_vector);
    assert((a | (external & fl)) & !(a | fl) == 0) by (bit_vector);
}

} // verus!
