use vstd::prelude::*;
use std::collections::HashMap;
use crate::config::Config;
use crate::leafs::{le_byte, le_read, Flag, RndData};
use crate::serialize::{
    default_dump, default_serialize, frags_view, shift_frags, ISerializableArg,
    SerializationInfo,
};
use vstd::slice::slice_subrange;

verus! {

broadcast use vstd::std_specs::vec::axiom_vec_index_decreases;

/// One node of the generator tree: a leaf or a nested composite.
pub enum GenNode {
    Rnd(RndData),
    Flag(Flag),
    Composite(ArgComposite),
}

/// Aggregate of generators at declared byte offsets inside one fixed-size
/// buffer.  Children may be declared in any order; their ranges must fit
/// and must not overlap; uncovered bytes keep whatever the buffer held.
pub struct ArgComposite {
    pub size: usize,
    pub name: String,
    pub args: Vec<(usize, GenNode)>,
}

/// Child `i`'s byte range lies inside a buffer of the given size.
pub open spec fn child_fits(args: Seq<(usize, GenNode)>, i: int, size: int) -> bool {
    args[i].0 + args[i].1.spec_size() <= size
}

/// The byte ranges of children `i` and `j` do not overlap.
pub open spec fn children_disjoint_at(args: Seq<(usize, GenNode)>, i: int, j: int) -> bool {
    args[i].0 + args[i].1.spec_size() <= args[j].0 || args[j].0 + args[j].1.spec_size()
        <= args[i].0
}

/// The structural invariant a composite's declaration must satisfy.
pub open spec fn layout_ok(args: Seq<(usize, GenNode)>, size: int) -> bool {
    &&& forall|i: int| 0 <= i < args.len() ==> #[trigger] child_fits(args, i, size)
    &&& forall|i: int, j: int|
        0 <= i < j < args.len() ==> #[trigger] children_disjoint_at(args, i, j)
}

/// Offset `p` (relative to the composite) lies inside one of the first
/// `k` children's ranges.
pub open spec fn covered_upto(args: Seq<(usize, GenNode)>, p: int, k: int) -> bool {
    exists|t: int|
        0 <= t < k && (#[trigger] args[t]).0 <= p < args[t].0 + args[t].1.spec_size()
}

/// Offset `p` lies inside some child's range.
pub open spec fn covered(args: Seq<(usize, GenNode)>, p: int) -> bool {
    covered_upto(args, p, args.len() as int)
}

impl GenNode {
    /// The byte width this node governs.
    pub open spec fn spec_size(&self) -> usize {
        match self {
            GenNode::Rnd(r) => r.size,
            GenNode::Flag(f) => f.width,
            GenNode::Composite(c) => c.size,
        }
    }

    /// Well-formedness of the node and everything below it.
    pub open spec fn inv(&self) -> bool
        decreases self,
    {
        match self {
            GenNode::Rnd(_) => true,
            GenNode::Flag(f) => f.inv(),
            GenNode::Composite(c) => c.inv(),
        }
    }

    pub open spec fn spec_name(&self) -> Seq<char> {
        match self {
            GenNode::Rnd(_) => seq!['R', 'n', 'd', 'D', 'a', 't', 'a'],
            GenNode::Flag(_) => seq!['F', 'l', 'a', 'g'],
            GenNode::Composite(c) => c.name@,
        }
    }

    /// Offset `p` inside the node's range is governed by the node: a
    /// leaf governs all its bytes, a composite only what lies inside a
    /// child's range — its gaps keep the buffer's prior contents.
    pub open spec fn spec_covered(&self, p: int) -> bool {
        match self {
            GenNode::Rnd(_) => true,
            GenNode::Flag(_) => true,
            GenNode::Composite(c) => covered(c.args@, p),
        }
    }
}

/// How a reload relates the governed bytes `out` to the dump window
/// `dump` they came from: verbatim for plain data, verbatim or the
/// reconstruction `always | (external & flag)` for a flag field, and
/// child by child, each on its own window, for a composite.
pub open spec fn load_rel(g: GenNode, out: Seq<u8>, dump: Seq<u8>) -> bool
    decreases g,
{
    match g {
        GenNode::Rnd(l) => forall|i: int| 0 <= i < l.size ==> out[i] == dump[i],
        GenNode::Flag(f) => (forall|i: int| 0 <= i < f.width ==> out[i] == dump[i]) || (forall|
            i: int,
        |
            0 <= i < f.width ==> out[i] == le_byte(
                f.spec_fix(le_read(dump, 0, f.width as int)),
                i,
            )),
        GenNode::Composite(c) => forall|k: int|
            0 <= k < c.args@.len() ==> load_rel(
                (#[trigger] c.args@[k]).1,
                out.subrange(c.args@[k].0 as int, c.args@[k].0 + c.args@[k].1.spec_size()),
                dump.subrange(c.args@[k].0 as int, c.args@[k].0 + c.args@[k].1.spec_size()),
            ),
    }
}

impl ArgComposite {
    /// Children well-formed, every range inside the buffer, no overlap.
    pub open spec fn inv(&self) -> bool
        decreases self,
    {
        &&& forall|i: int|
            0 <= i < self.args@.len() ==> (#[trigger] self.args@[i]).1.inv()
        &&& layout_ok(self.args@, self.size as int)
    }
}

/// The reproduction-text fragments a node yields on the given bytes: one
/// empty fragment at offset zero for a leaf, the children's fragments
/// moved up by their declared offsets for a composite, in declaration
/// order.
pub open spec fn spec_frags(g: GenNode, mem: Seq<u8>, fd: Seq<u8>) -> Seq<(int, Seq<char>)>
    decreases g, 0int,
{
    match g {
        GenNode::Rnd(_) => seq![(0int, Seq::<char>::empty())],
        GenNode::Flag(_) => seq![(0int, Seq::<char>::empty())],
        GenNode::Composite(c) => children_frags(c, mem, fd, c.args@.len() as int),
    }
}

/// Fragments of the first `k` children of `c`, each child serialized on
/// its own sub-range and shifted by its declared offset.
pub open spec fn children_frags(c: ArgComposite, mem: Seq<u8>, fd: Seq<u8>, k: int) -> Seq<
    (int, Seq<char>),
>
    decreases c, k,
    via children_frags_decreases
{
    if k <= 0 || c.args@.len() < k {
        Seq::empty()
    } else {
        children_frags(c, mem, fd, k - 1) + shift_frags(
            spec_frags(
                c.args@[k - 1].1,
                mem.subrange(
                    c.args@[k - 1].0 as int,
                    c.args@[k - 1].0 + c.args@[k - 1].1.spec_size(),
                ),
                fd,
            ),
            c.args@[k - 1].0 as int,
        )
    }
}

#[via_fn]
proof fn children_frags_decreases(c: ArgComposite, mem: Seq<u8>, fd: Seq<u8>, k: int) {
    broadcast use vstd::std_specs::vec::axiom_vec_index_decreases;

    if !(k <= 0 || c.args@.len() < k) {
        assert(decreases_to!(c => c.args));
        assert(decreases_to!(c.args => c.args@[k - 1]));
        assert(decreases_to!(c => c.args@[k - 1].1));
    }
}

/// Every fragment offset of a well-formed node lies inside its width.
pub proof fn lemma_frags_bounded(g: GenNode, mem: Seq<u8>, fd: Seq<u8>)
    requires
        g.inv(),
    ensures
        forall|i: int|
            0 <= i < spec_frags(g, mem, fd).len() ==> 0 <= (#[trigger] spec_frags(g, mem, fd)[i]).0
                <= g.spec_size(),
    decreases g, 0int,
{
    match g {
        GenNode::Rnd(_) => {
            assert(spec_frags(g, mem, fd) =~= seq![(0int, Seq::<char>::empty())]);
            assert(spec_frags(g, mem, fd)[0].0 == 0);
        },
        GenNode::Flag(_) => {
            assert(spec_frags(g, mem, fd) =~= seq![(0int, Seq::<char>::empty())]);
            assert(spec_frags(g, mem, fd)[0].0 == 0);
        },
        GenNode::Composite(c) => {
            lemma_children_frags_bounded(c, mem, fd, c.args@.len() as int);
            assert(spec_frags(g, mem, fd) == children_frags(c, mem, fd, c.args@.len() as int));
        },
    }
}

/// Every fragment offset of the first `k` children lies inside the
/// composite's declared size.
pub proof fn lemma_children_frags_bounded(c: ArgComposite, mem: Seq<u8>, fd: Seq<u8>, k: int)
    requires
        c.inv(),
        k <= c.args@.len(),
    ensures
        forall|i: int|
            0 <= i < children_frags(c, mem, fd, k).len() ==> 0 <= (#[trigger] children_frags(
                c,
                mem,
                fd,
                k,
            )[i]).0 <= c.size,
    decreases c, k,
{
    if k > 0 {
        lemma_children_frags_bounded(c, mem, fd, k - 1);
        let child = c.args@[k - 1].1;
        let off = c.args@[k - 1].0 as int;
        let sub = mem.subrange(off, off + child.spec_size());
        assert(c.args@[k - 1].1.inv());
        lemma_frags_bounded(child, sub, fd);
        assert(child_fits(c.args@, k - 1, c.size as int));
        let prev = children_frags(c, mem, fd, k - 1);
        let shifted = shift_frags(spec_frags(child, sub, fd), off);
        assert forall|i: int|
            0 <= i < children_frags(c, mem, fd, k).len() implies 0 <= (#[trigger] children_frags(
            c,
            mem,
            fd,
            k,
        )[i]).0 <= c.size by {
            if i >= prev.len() {
                assert(children_frags(c, mem, fd, k)[i] == shifted[i - prev.len()]);
                assert(shifted[i - prev.len()].0 == spec_frags(child, sub, fd)[i - prev.len()].0
                    + off);
            }
        }
    }
}

/// In every well-formed composite no two declared children's byte ranges
/// overlap, and every child's range lies inside the declared total size.
pub proof fn lemma_composite_layout(c: ArgComposite, i: int, j: int)
    requires
        c.inv(),
        0 <= i < j < c.args@.len(),
    ensures
        c.args@[i].0 + c.args@[i].1.spec_size() <= c.size,
        c.args@[j].0 + c.args@[j].1.spec_size() <= c.size,
        c.args@[i].0 + c.args@[i].1.spec_size() <= c.args@[j].0 || c.args@[j].0
            + c.args@[j].1.spec_size() <= c.args@[i].0,
{
    assert(child_fits(c.args@, i, c.size as int));
    assert(child_fits(c.args@, j, c.size as int));
    assert(children_disjoint_at(c.args@, i, j));
}

/// Report whether a declaration breaks the layout invariant: a child
/// sticking out of the declared size or two children overlapping.
pub fn sanitize_overlaping(args: &Vec<(usize, GenNode)>, size: usize) -> (bad: bool)
    ensures
        bad == !layout_ok(args@, size as int),
{
    let mut i: usize = 0;
    while i < args.len()
        invariant
            i <= args@.len(),
            forall|k: int| 0 <= k < i ==> #[trigger] child_fits(args@, k, size as int),
        decreases args@.len() - i,
    {
        let off = args[i].0;
        let sz = args[i].1.size();
        if off > size || sz > size - off {
            assert(!child_fits(args@, i as int, size as int));
            return true;
        }
        assert(child_fits(args@, i as int, size as int));
        i += 1;
    }
    let mut i: usize = 0;
    while i < args.len()
        invariant
            i <= args@.len(),
            forall|k: int| 0 <= k < args@.len() ==> #[trigger] child_fits(args@, k, size as int),
            forall|k: int, l: int|
                0 <= k < l < args@.len() && k < i ==> #[trigger] children_disjoint_at(
                    args@,
                    k,
                    l,
                ),
        decreases args@.len() - i,
    {
        let oi = args[i].0;
        let si = args[i].1.size();
        let mut j: usize = i + 1;
        while j < args.len()
            invariant
                i < j,
                j <= args@.len(),
                oi == args@[i as int].0,
                si == args@[i as int].1.spec_size(),
                forall|k: int|
                    0 <= k < args@.len() ==> #[trigger] child_fits(args@, k, size as int),
                forall|l: int|
                    i < l < j ==> #[trigger] children_disjoint_at(args@, i as int, l),
            decreases args@.len() - j,
        {
            let oj = args[j].0;
            let sj = args[j].1.size();
            assert(child_fits(args@, i as int, size as int));
            assert(child_fits(args@, j as int, size as int));
            if !(oi + si <= oj || oj + sj <= oi) {
                assert(!children_disjoint_at(args@, i as int, j as int));
                return true;
            }
            j += 1;
        }
        i += 1;
    }
    false
}

impl ArgComposite {
    /// Build a composite from a declaration already known to satisfy the
    /// layout invariant.
    pub fn new(size: usize, name: &str, args: Vec<(usize, GenNode)>) -> (c: ArgComposite)
        requires
            forall|i: int| 0 <= i < args@.len() ==> (#[trigger] args@[i]).1.inv(),
            layout_ok(args@, size as int),
        ensures
            c.inv(),
            c.size == size,
            c.name@ == name@,
            c.args@ == args@,
    {
        ArgComposite { size, name: name.to_owned(), args }
    }

    /// Build a composite, rejecting a declaration that breaks the layout
    /// invariant: the checked constructor callers use on untrusted
    /// declarations.
    pub fn try_new(size: usize, name: &str, args: Vec<(usize, GenNode)>) -> (r: Option<
        ArgComposite,
    >)
        requires
            forall|i: int| 0 <= i < args@.len() ==> (#[trigger] args@[i]).1.inv(),
        ensures
            r is Some <==> layout_ok(args@, size as int),
            r matches Some(c) ==> c.inv() && c.size == size && c.name@ == name@ && c.args@
                == args@,
    {
        if sanitize_overlaping(&args, size) {
            None
        } else {
            Some(ArgComposite::new(size, name, args))
        }
    }

    pub fn size(&self) -> (r: usize)
        ensures
            r == self.size,
    {
        self.size
    }

    pub fn name(&self) -> (r: &str)
        ensures
            r@ == self.name@,
    {
        self.name.as_str()
    }

    /// Generate every child in declaration order, each on its own
    /// sub-range; bytes outside the composite's range, and its uncovered
    /// gaps, keep their previous contents.
    pub fn generate(&self, mem: &mut Vec<u8>, off: usize, fd: &[u8])
        requires
            self.inv(),
            off + self.size <= old(mem)@.len(),
        ensures
            final(mem)@.len() == old(mem)@.len(),
            forall|i: int|
                0 <= i < old(mem)@.len() && !(off <= i < off + self.size) ==> final(mem)@[i]
                    == old(mem)@[i],
            forall|p: int|
                off <= p < off + self.size && !covered(self.args@, p - off) ==> final(mem)@[p]
                    == old(mem)@[p],
        decreases *self,
    {
        let mut k: usize = 0;
        while k < self.args.len()
            invariant
                self.inv(),
                off + self.size <= mem.len(),
                k <= self.args@.len(),
                mem@.len() == old(mem)@.len(),
                forall|i: int|
                    0 <= i < old(mem)@.len() && !(off <= i < off + self.size) ==> mem@[i] == old(mem)@[i],
                forall|p: int|
                    off <= p < off + self.size && !covered_upto(self.args@, p - off, k as int)
                        ==> mem@[p] == old(mem)@[p],
            decreases self.args@.len() - k,
        {
            let child_off = self.args[k].0;
            proof {
                assert(child_fits(self.args@, k as int, self.size as int));
                assert(self.args@[k as int].1.inv());
            }
            let g = &self.args[k].1;
            let sz = g.size();
            proof {
                assert(decreases_to!(*self => self.args@[k as int].1));
            }
            let ghost before = mem@;
            g.generate(mem, off + child_off, fd);
            proof {
                assert forall|p: int|
                    off <= p < off + self.size && !covered_upto(
                        self.args@,
                        p - off,
                        k + 1,
                    ) implies mem@[p] == old(mem)@[p] by {
                    assert(!covered_upto(self.args@, p - off, k as int));
                    assert(!(child_off <= p - off < child_off + sz));
                    assert(before[p] == old(mem)@[p]);
                }
            }
            k += 1;
        }
    }
}

impl ArgComposite {
    /// Serialize every child on its own sub-range in declaration order,
    /// each returned fragment's offset moved up by the child's declared
    /// offset.
    pub fn serialize(&self, mem: &[u8], fd: &[u8]) -> (r: Vec<SerializationInfo>)
        requires
            self.inv(),
            mem@.len() == self.size,
        ensures
            frags_view(r@) == children_frags(*self, mem@, fd@, self.args@.len() as int),
        decreases *self,
    {
        let mut r: Vec<SerializationInfo> = Vec::new();
        proof {
            assert(frags_view(r@) =~= children_frags(*self, mem@, fd@, 0));
        }
        let mut k: usize = 0;
        while k < self.args.len()
            invariant
                self.inv(),
                mem@.len() == self.size,
                k <= self.args@.len(),
                frags_view(r@) == children_frags(*self, mem@, fd@, k as int),
            decreases self.args@.len() - k,
        {
            let child_off = self.args[k].0;
            proof {
                assert(child_fits(self.args@, k as int, self.size as int));
                assert(self.args@[k as int].1.inv());
            }
            let g = &self.args[k].1;
            let sz = g.size();
            let sub = slice_subrange(mem, child_off, child_off + sz);
            proof {
                assert(decreases_to!(*self => self.args@[k as int].1));
            }
            let fs = g.serialize(sub, fd);
            proof {
                lemma_frags_bounded(self.args@[k as int].1, sub@, fd@);
            }
            let ghost fsv = frags_view(fs@);
            let ghost base = children_frags(*self, mem@, fd@, k as int);
            proof {
                assert(shift_frags(fsv.subrange(0, 0), child_off as int) =~= Seq::<(
                    int,
                    Seq<char>,
                )>::empty());
                assert(frags_view(r@) =~= base + shift_frags(
                    fsv.subrange(0, 0),
                    child_off as int,
                ));
            }
            let mut j: usize = 0;
            while j < fs.len()
                invariant
                    j <= fs@.len(),
                    fsv == frags_view(fs@),
                    child_off + sz <= self.size,
                    forall|t: int| 0 <= t < fsv.len() ==> 0 <= (#[trigger] fsv[t]).0 <= sz,
                    frags_view(r@) == base + shift_frags(
                        fsv.subrange(0, j as int),
                        child_off as int,
                    ),
                decreases fs@.len() - j,
            {
                let fo = fs[j].offset;
                proof {
                    assert(fsv[j as int] == fs@[j as int]@);
                }
                let p = SerializationInfo {
                    offset: child_off + fo,
                    prefix: fs[j].prefix.clone(),
                };
                let ghost r_before = r@;
                r.push(p);
                proof {
                    let prev_shift = shift_frags(fsv.subrange(0, j as int), child_off as int);
                    assert(frags_view(r_before).len() == r_before.len());
                    assert(frags_view(r_before) == base + prev_shift);
                    assert(r@ == r_before.push(p));
                    let next_shift = shift_frags(fsv.subrange(0, j + 1), child_off as int);
                    assert(fsv.subrange(0, j + 1)[j as int] == fsv[j as int]);
                    assert forall|t: int| 0 <= t < j implies next_shift[t] == prev_shift[t] by {
                        assert(fsv.subrange(0, j + 1)[t] == fsv.subrange(0, j as int)[t]);
                    }
                    assert(next_shift[j as int] == (fsv[j as int].0 + child_off, fsv[j as int].1));
                    assert(prev_shift.len() == j);
                    assert(frags_view(r@).len() == r@.len());
                    assert(r@.len() == base.len() + j + 1);
                    assert(r@[base.len() + j] == p);
                    assert(frags_view(r@)[base.len() + j] == p@);
                    assert forall|t: int|
                        0 <= t < r@.len() implies frags_view(r@)[t] == (base + next_shift)[t] by {
                        assert(frags_view(r@)[t] == r@[t]@);
                        if t < base.len() + j {
                            assert(r@[t] == r_before[t]);
                            assert(frags_view(r_before)[t] == r_before[t]@);
                            assert(frags_view(r_before)[t] == (base + prev_shift)[t]);
                        } else {
                            assert(r@[t] == p);
                        }
                    }
                    assert(frags_view(r@).len() == (base + next_shift).len());
                    assert(frags_view(r@) =~= base + next_shift);
                }
                j += 1;
            }
            proof {
                assert(fsv.subrange(0, fs@.len() as int) =~= fsv);
                assert(sub@ == mem@.subrange(child_off as int, child_off + sz));
                assert(frags_view(r@) =~= children_frags(*self, mem@, fd@, k + 1));
            }
            k += 1;
        }
        r
    }

    /// Reload every child in declaration order from its own window of the
    /// dump, forwarding the auxiliary stream and the descriptor lookup;
    /// bytes outside the composite's range and its uncovered gaps keep
    /// their previous contents.
    pub fn load(
        &self,
        mem: &mut Vec<u8>,
        off: usize,
        dump: &[u8],
        data: &[u8],
        fd_lookup: &HashMap<Vec<u8>, Vec<u8>>,
        cfg: &Config,
    ) -> (used: usize)
        requires
            self.inv(),
            cfg.inv(),
            off + self.size <= old(mem)@.len(),
            self.size <= dump@.len(),
        ensures
            used == 0,
            final(mem)@.len() == old(mem)@.len(),
            forall|i: int|
                0 <= i < old(mem)@.len() && !(off <= i < off + self.size) ==> final(mem)@[i]
                    == old(mem)@[i],
            forall|p: int|
                off <= p < off + self.size && !covered(self.args@, p - off) ==> final(mem)@[p]
                    == old(mem)@[p],
            forall|t: int|
                0 <= t < self.args@.len() ==> load_rel(
                    (#[trigger] self.args@[t]).1,
                    final(mem)@.subrange(
                        off + self.args@[t].0,
                        off + self.args@[t].0 + self.args@[t].1.spec_size(),
                    ),
                    dump@.subrange(
                        self.args@[t].0 as int,
                        self.args@[t].0 + self.args@[t].1.spec_size(),
                    ),
                ),
        decreases *self,
    {
        let mut used: usize = 0;
        let mut k: usize = 0;
        while k < self.args.len()
            invariant
                self.inv(),
                cfg.inv(),
                off + self.size <= mem.len(),
                self.size <= dump@.len(),
                k <= self.args@.len(),
                used == 0,
                mem@.len() == old(mem)@.len(),
                forall|i: int|
                    0 <= i < old(mem)@.len() && !(off <= i < off + self.size) ==> mem@[i] == old(mem)@[i],
                forall|p: int|
                    off <= p < off + self.size && !covered_upto(self.args@, p - off, k as int)
                        ==> mem@[p] == old(mem)@[p],
                forall|t: int|
                    0 <= t < k ==> load_rel(
                        (#[trigger] self.args@[t]).1,
                        mem@.subrange(
                            off + self.args@[t].0,
                            off + self.args@[t].0 + self.args@[t].1.spec_size(),
                        ),
                        dump@.subrange(
                            self.args@[t].0 as int,
                            self.args@[t].0 + self.args@[t].1.spec_size(),
                        ),
                    ),
            decreases self.args@.len() - k,
        {
            let child_off = self.args[k].0;
            proof {
                assert(child_fits(self.args@, k as int, self.size as int));
                assert(self.args@[k as int].1.inv());
            }
            let g = &self.args[k].1;
            let sz = g.size();
            let sub_dump = slice_subrange(dump, child_off, child_off + sz);
            proof {
                assert(decreases_to!(*self => self.args@[k as int].1));
            }
            let ghost before = mem@;
            let c_used = g.load(mem, off + child_off, sub_dump, data, fd_lookup, cfg);
            used = used + c_used;
            proof {
                assert forall|p: int|
                    off <= p < off + self.size && !covered_upto(
                        self.args@,
                        p - off,
                        k + 1,
                    ) implies mem@[p] == old(mem)@[p] by {
                    assert(!covered_upto(self.args@, p - off, k as int));
                    assert(!(child_off <= p - off < child_off + sz));
                    assert(before[p] == old(mem)@[p]);
                }
                assert forall|t: int|
                    0 <= t < k + 1 implies load_rel(
                    (#[trigger] self.args@[t]).1,
                    mem@.subrange(
                        off + self.args@[t].0,
                        off + self.args@[t].0 + self.args@[t].1.spec_size(),
                    ),
                    dump@.subrange(
                        self.args@[t].0 as int,
                        self.args@[t].0 + self.args@[t].1.spec_size(),
                    ),
                ) by {
                    let ot = self.args@[t].0 as int;
                    let st = self.args@[t].1.spec_size() as int;
                    assert(child_fits(self.args@, t, self.size as int));
                    if t < k {
                        assert(children_disjoint_at(self.args@, t, k as int));
                        assert(mem@.subrange(off + ot, off + ot + st) =~= before.subrange(
                            off + ot,
                            off + ot + st,
                        ));
                    } else {
                        assert(sub_dump@ == dump@.subrange(child_off as int, child_off + sz));
                    }
                }
            }
            k += 1;
        }
        used
    }

    /// A verbatim snapshot of the composite's governed bytes.
    pub fn dump(&self, mem: &[u8]) -> (r: Vec<u8>)
        requires
            mem@.len() == self.size,
        ensures
            r@ == mem@,
    {
        default_dump(mem)
    }
}

impl GenNode {
    pub fn size(&self) -> (r: usize)
        ensures
            r == self.spec_size(),
    {
        match self {
            GenNode::Rnd(l) => l.size(),
            GenNode::Flag(f) => f.size(),
            GenNode::Composite(c) => c.size(),
        }
    }

    pub fn name(&self) -> (r: &str)
        ensures
            r@ =~= self.spec_name(),
    {
        match self {
            GenNode::Rnd(l) => l.name(),
            GenNode::Flag(f) => f.name(),
            GenNode::Composite(c) => c.name(),
        }
    }

    /// Fill the governed range according to this node's policy; nothing
    /// outside it is touched, and uncovered gaps inside a composite keep
    /// their prior contents.
    pub fn generate(&self, mem: &mut Vec<u8>, off: usize, fd: &[u8])
        requires
            self.inv(),
            off + self.spec_size() <= old(mem)@.len(),
        ensures
            final(mem)@.len() == old(mem)@.len(),
            forall|i: int|
                0 <= i < old(mem)@.len() && !(off <= i < off + self.spec_size()) ==> final(mem)@[i] == old(mem)@[i],
            forall|p: int|
                off <= p < off + self.spec_size() && !self.spec_covered(p - off) ==> final(mem)@[p] == old(mem)@[p],
        decreases *self,
    {
        match self {
            GenNode::Rnd(l) => l.generate(mem, off, fd),
            GenNode::Flag(f) => f.generate(mem, off, fd),
            GenNode::Composite(c) => c.generate(mem, off, fd),
        }
    }

    /// The reproduction-text fragments of this node on the given bytes.
    pub fn serialize(&self, mem: &[u8], fd: &[u8]) -> (r: Vec<SerializationInfo>)
        requires
            self.inv(),
            mem@.len() == self.spec_size(),
        ensures
            frags_view(r@) == spec_frags(*self, mem@, fd@),
        decreases *self,
    {
        match self {
            GenNode::Rnd(_) => {
                let r = default_serialize();
                proof {
                    assert(frags_view(r@) =~= spec_frags(*self, mem@, fd@));
                }
                r
            },
            GenNode::Flag(_) => {
                let r = default_serialize();
                proof {
                    assert(frags_view(r@) =~= spec_frags(*self, mem@, fd@));
                }
                r
            },
            GenNode::Composite(c) => c.serialize(mem, fd),
        }
    }

    /// A verbatim snapshot of the node's governed bytes.
    pub fn dump(&self, mem: &[u8]) -> (r: Vec<u8>)
        requires
            mem@.len() == self.spec_size(),
        ensures
            r@ == mem@,
    {
        default_dump(mem)
    }

    /// Reload the node's bytes from a prior dump; the return value is how
    /// much of the auxiliary stream was consumed, none for these nodes.
    /// The reloaded range relates to the dump by the node's reload
    /// policy (`load_rel`), and a composite's uncovered gaps keep their
    /// prior contents.
    pub fn load(
        &self,
        mem: &mut Vec<u8>,
        off: usize,
        dump: &[u8],
        data: &[u8],
        fd_lookup: &HashMap<Vec<u8>, Vec<u8>>,
        cfg: &Config,
    ) -> (used: usize)
        requires
            self.inv(),
            cfg.inv(),
            off + self.spec_size() <= old(mem)@.len(),
            self.spec_size() <= dump@.len(),
        ensures
            used == 0,
            final(mem)@.len() == old(mem)@.len(),
            forall|i: int|
                0 <= i < old(mem)@.len() && !(off <= i < off + self.spec_size()) ==> final(mem)@[i] == old(mem)@[i],
            forall|p: int|
                off <= p < off + self.spec_size() && !self.spec_covered(p - off) ==> final(mem)@[p] == old(mem)@[p],
            load_rel(*self, final(mem)@.subrange(off as int, off + self.spec_size()), dump@),
        decreases *self,
    {
        match self {
            GenNode::Rnd(l) => {
                let used = l.load(mem, off, dump, data, fd_lookup, cfg);
                proof {
                    let out = mem@.subrange(off as int, off + l.size);
                    assert forall|i: int| 0 <= i < l.size implies out[i] == dump@[i] by {
                        assert(out[i] == mem@[off + i]);
                    }
                }
                used
            },
            GenNode::Flag(f) => {
                let used = f.load(mem, off, dump, data, fd_lookup, cfg);
                proof {
                    let out = mem@.subrange(off as int, off + f.width);
                    if forall|i: int| 0 <= i < f.width ==> mem@[off + i] == dump@[i] {
                        assert forall|i: int| 0 <= i < f.width implies out[i] == dump@[i] by {
                            assert(out[i] == mem@[off + i]);
                        }
                    } else {
                        assert(forall|i: int|
                            0 <= i < f.width ==> mem@[off + i] == le_byte(
                                f.spec_fix(le_read(dump@, 0, f.width as int)),
                                i,
                            ));
                        assert forall|i: int|
                            0 <= i < f.width implies out[i] == le_byte(
                            f.spec_fix(le_read(dump@, 0, f.width as int)),
                            i,
                        ) by {
                            assert(out[i] == mem@[off + i]);
                        }
                    }
                }
                used
            },
            GenNode::Composite(c) => {
                let used = c.load(mem, off, dump, data, fd_lookup, cfg);
                proof {
                    let out = mem@.subrange(off as int, off + c.size);
                    assert forall|k: int|
                        0 <= k < c.args@.len() implies load_rel(
                        (#[trigger] c.args@[k]).1,
                        out.subrange(
                            c.args@[k].0 as int,
                            c.args@[k].0 + c.args@[k].1.spec_size(),
                        ),
                        dump@.subrange(
                            c.args@[k].0 as int,
                            c.args@[k].0 + c.args@[k].1.spec_size(),
                        ),
                    ) by {
                        let ok = c.args@[k].0 as int;
                        let sk = c.args@[k].1.spec_size() as int;
                        assert(child_fits(c.args@, k, c.size as int));
                        assert(out.subrange(ok, ok + sk) =~= mem@.subrange(
                            off + ok,
                            off + ok + sk,
                        ));
                    }
                    assert(load_rel(*self, out, dump@));
                }
                used
            },
        }
    }
}

impl ISerializableArg for ArgComposite {
    open spec fn arg_size(&self) -> usize {
        self.size
    }

    open spec fn arg_inv(&self) -> bool {
        self.inv()
    }

    open spec fn arg_frags(&self, mem: Seq<u8>, fd: Seq<u8>) -> Seq<(int, Seq<char>)> {
        children_frags(*self, mem, fd, self.args@.len() as int)
    }

    open spec fn arg_loaded(&self, out: Seq<u8>, dump: Seq<u8>) -> bool {
        forall|k: int|
            0 <= k < self.args@.len() ==> load_rel(
                (#[trigger] self.args@[k]).1,
                out.subrange(self.args@[k].0 as int, self.args@[k].0 + self.args@[k].1.spec_size()),
                dump.subrange(self.args@[k].0 as int, self.args@[k].0 + self.args@[k].1.spec_size()),
            )
    }

    fn serialize(&self, mem: &[u8], fd: &[u8]) -> Vec<SerializationInfo> {
        ArgComposite::serialize(self, mem, fd)
    }

    fn dump(&self, mem: &[u8]) -> Vec<u8> {
        ArgComposite::dump(self, mem)
    }

    fn load(
        &self,
        mem: &mut Vec<u8>,
        off: usize,
        dump: &[u8],
        data: &[u8],
        fd_lookup: &HashMap<Vec<u8>, Vec<u8>>,
        cfg: &Config,
    ) -> usize {
        let used = ArgComposite::load(self, mem, off, dump, data, fd_lookup, cfg);
        proof {
            let out = mem@.subrange(off as int, off + self.size);
            assert forall|k: int|
                0 <= k < self.args@.len() implies load_rel(
                (#[trigger] self.args@[k]).1,
                out.subrange(self.args@[k].0 as int, self.args@[k].0 + self.args@[k].1.spec_size()),
                dump@.subrange(
                    self.args@[k].0 as int,
                    self.args@[k].0 + self.args@[k].1.spec_size(),
                ),
            ) by {
                let ok = self.args@[k].0 as int;
                let sk = self.args@[k].1.spec_size() as int;
                assert(child_fits(self.args@, k, self.size as int));
                assert(out.subrange(ok, ok + sk) =~= mem@.subrange(off + ok, off + ok + sk));
            }
        }
        used
    }
}

} // verus!
