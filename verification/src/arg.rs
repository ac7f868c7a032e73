use vstd::prelude::*;
use std::collections::HashMap;
use crate::composite::{load_rel, spec_frags, GenNode};
use crate::config::Config;
use crate::serialize::{any_new_frag, concat_prefixes, frags_view};
use crate::text::{contains_new, hex_of, spec_hex};
use vstd::string::StringExecFns;

verus! {

/// What an argument slot's reproduction text looks like: the fragment
/// prefixes in order, then the governed bytes rendered in hexadecimal.
pub open spec fn spec_arg_render(g: GenNode, mem: Seq<u8>, fd: Seq<u8>) -> Seq<char> {
    concat_prefixes(spec_frags(g, mem, fd)) + spec_hex(mem)
}

/// A named slot of a call: one owned generator and the memory it governs.
pub struct Arg {
    gen: GenNode,
    mem: Vec<u8>,
}

impl View for Arg {
    type V = Seq<u8>;

    closed spec fn view(&self) -> Seq<u8> {
        self.mem@
    }
}

impl Arg {
    pub closed spec fn spec_gen(&self) -> GenNode {
        self.gen
    }

    /// The generator is well formed and the slot's buffer has exactly the
    /// generator's width.
    pub open spec fn inv(&self) -> bool {
        self.spec_gen().inv() && self@.len() == self.spec_gen().spec_size()
    }

    /// A fresh slot for the given generator, its buffer zero-filled.
    pub fn new(gen: GenNode) -> (a: Arg)
        requires
            gen.inv(),
        ensures
            a.inv(),
            a.spec_gen() == gen,
            forall|i: int| 0 <= i < a@.len() ==> a@[i] == 0,
    {
        let n = gen.size();
        let mem = vec![0u8; n];
        Arg { gen, mem }
    }

    pub fn size(&self) -> (r: usize)
        ensures
            r == self.spec_gen().spec_size(),
    {
        self.gen.size()
    }

    /// The bytes the slot currently holds.
    pub fn data(&self) -> (r: &Vec<u8>)
        ensures
            r@ == self@,
    {
        &self.mem
    }

    /// Replace the slot's bytes, e.g. with what a native call wrote back.
    pub fn set_data(&mut self, d: Vec<u8>)
        requires
            old(self).inv(),
            d@.len() == old(self)@.len(),
        ensures
            final(self).inv(),
            final(self).spec_gen() == old(self).spec_gen(),
            final(self)@ == d@,
    {
        self.mem = d;
    }

    /// Regenerate the slot's bytes from its generator; bytes its
    /// generator does not govern (a composite's gaps) keep their prior
    /// contents.
    pub fn do_generate(&mut self, fd: &[u8])
        requires
            old(self).inv(),
        ensures
            final(self).inv(),
            final(self).spec_gen() == old(self).spec_gen(),
            final(self)@.len() == old(self)@.len(),
            forall|p: int|
                0 <= p < old(self)@.len() && !old(self).spec_gen().spec_covered(p) ==> final(self)@[p] == old(self)@[p],
    {
        self.gen.generate(&mut self.mem, 0, fd);
    }

    /// The slot's reproduction text: every fragment prefix in order, then
    /// the governed bytes in hexadecimal.
    pub fn do_serialize(&self, fd: &[u8]) -> (r: String)
        requires
            self.inv(),
        ensures
            r@ == spec_arg_render(self.spec_gen(), self@, fd@),
    {
        let frags = self.gen.serialize(self.mem.as_slice(), fd);
        let ghost fv = frags_view(frags@);
        let mut out = String::new();
        proof {
            assert(fv.subrange(0, 0) =~= Seq::empty());
            assert(out@ =~= concat_prefixes(fv.subrange(0, 0)));
        }
        let mut i: usize = 0;
        while i < frags.len()
            invariant
                i <= frags@.len(),
                fv == frags_view(frags@),
                out@ == concat_prefixes(fv.subrange(0, i as int)),
            decreases frags@.len() - i,
        {
            out.append(frags[i].prefix.as_str());
            proof {
                assert(fv.subrange(0, i + 1).drop_last() =~= fv.subrange(0, i as int));
                assert(fv.subrange(0, i + 1).last() == fv[i as int]);
                assert(fv[i as int] == frags@[i as int]@);
            }
            i += 1;
        }
        proof {
            assert(fv.subrange(0, frags@.len() as int) =~= fv);
        }
        let h = hex_of(self.mem.as_slice());
        out.append(h.as_str());
        out
    }

    /// True when some fragment of the slot's serialization carries the
    /// heap-allocation mark "new" in its prefix.
    pub fn has_alloc_frag(&self, fd: &[u8]) -> (r: bool)
        requires
            self.inv(),
        ensures
            r == any_new_frag(spec_frags(self.spec_gen(), self@, fd@)),
    {
        let frags = self.gen.serialize(self.mem.as_slice(), fd);
        let ghost fv = frags_view(frags@);
        let mut i: usize = 0;
        while i < frags.len()
            invariant
                i <= frags@.len(),
                fv == frags_view(frags@),
                fv == spec_frags(self.spec_gen(), self@, fd@),
                forall|t: int|
                    0 <= t < i ==> !crate::text::spec_contains_new(
                        vstd::utf8::encode_utf8((#[trigger] fv[t]).1),
                    ),
            decreases frags@.len() - i,
        {
            if contains_new(frags[i].prefix.as_str()) {
                proof {
                    assert(fv[i as int] == frags@[i as int]@);
                    assert(crate::text::spec_contains_new(
                        vstd::utf8::encode_utf8(fv[i as int].1),
                    ));
                    assert(any_new_frag(fv));
                }
                return true;
            }
            proof {
                assert(fv[i as int] == frags@[i as int]@);
            }
            i += 1;
        }
        false
    }

    /// A snapshot of the slot's bytes for later replay.
    pub fn do_dump(&self) -> (r: Vec<u8>)
        requires
            self.inv(),
        ensures
            r@ == self@,
    {
        self.gen.dump(self.mem.as_slice())
    }

    /// Reload the slot's bytes from a prior dump; returns how much of the
    /// auxiliary stream was consumed.  The reloaded bytes relate to the
    /// dump by the generator's reload policy, and a composite's gaps
    /// keep their prior contents.
    pub fn do_load(
        &mut self,
        dump: &[u8],
        data: &[u8],
        fd_lookup: &HashMap<Vec<u8>, Vec<u8>>,
        cfg: &Config,
    ) -> (used: usize)
        requires
            old(self).inv(),
            cfg.inv(),
            old(self)@.len() <= dump@.len(),
        ensures
            used == 0,
            final(self).inv(),
            final(self).spec_gen() == old(self).spec_gen(),
            final(self)@.len() == old(self)@.len(),
            load_rel(old(self).spec_gen(), final(self)@, dump@),
            forall|p: int|
                0 <= p < old(self)@.len() && !old(self).spec_gen().spec_covered(p) ==> final(self)@[p] == old(self)@[p],
    {
        let used = self.gen.load(&mut self.mem, 0, dump, data, fd_lookup, cfg);
        proof {
            assert(self.mem@.subrange(0, self.gen.spec_size() as int) =~= self.mem@);
        }
        used
    }
}

} // verus!
