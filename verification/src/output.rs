//! Output canonicalization: an indexed serializable profile in which modules
//! and frames are deduplicated across an entire profiling run.
//!
//! `VecHashMap` maintains a list of unique values; querying it with a value
//! returns the stable index of that value in the list, inserting it first if
//! it is new. Indices are assigned in insertion order and never change.

use vstd::prelude::*;

verus! {

/// A deduplicated frame: an index into the profile's module table plus the
/// instruction pointer's offset from that module's load base.
#[derive(Debug, Clone, Copy, PartialEq, Eq, Structural, Hash)]
pub struct Frame {
    pub module_index: u32,
    pub relative_ip: u64,
}

impl View for Frame {
    type V = Frame;

    open spec fn view(&self) -> Frame {
        *self
    }
}

/// A value that can be interned: it can report equality of abstract values
/// and produce a copy with the same abstract value.
pub trait InternKey: View + Sized {
    /// Decides equality of the abstract values.
    fn key_eq(&self, other: &Self) -> (r: bool)
        ensures
            r == (self@ == other@),
    ;

    /// Copies the value, preserving its abstract value.
    fn dup(&self) -> (r: Self)
        ensures
            r@ == self@,
    ;
}

impl InternKey for Frame {
    fn key_eq(&self, other: &Self) -> (r: bool)
        ensures
            r == (self@ == other@),
    {
        self.module_index == other.module_index && self.relative_ip == other.relative_ip
    }

    fn dup(&self) -> (r: Self)
        ensures
            r@ == self@,
    {
        *self
    }
}

/// The list after interning one value: unchanged if the value is already
/// present, extended by the value otherwise.
pub open spec fn interned<T>(s: Seq<T>, x: T) -> Seq<T> {
    if s.contains(x) {
        s
    } else {
        s.push(x)
    }
}

/// The index handed out for one value: the position of its first occurrence
/// if present, the former length otherwise.
pub open spec fn intern_index<T>(s: Seq<T>, x: T) -> int {
    if s.contains(x) {
        s.index_of_first(x)->Some_0
    } else {
        s.len() as int
    }
}

/// Interning the same value twice returns the same index and leaves the list
/// unchanged.
pub proof fn lemma_intern_idempotent<T>(s: Seq<T>, x: T)
    ensures
        interned(interned(s, x), x) == interned(s, x),
        intern_index(interned(s, x), x) == intern_index(s, x),
{
    if s.contains(x) {
        s.index_of_first_ensures(x);
    } else {
        let t = s.push(x);
        assert(t[s.len() as int] == x);
        assert(t.contains(x));
        t.index_of_first_ensures(x);
        let i = t.index_of_first(x)->Some_0;
        assert(forall|j: int| 0 <= j < s.len() ==> t[j] == s[j]);
        assert(i == s.len() as int) by {
            if i < s.len() {
                assert(s[i] == t[i]);
                assert(s.contains(x));
            }
        }
    }
}

/// A list of unique values paired with stable indices: querying with a value
/// returns the index of that value in the list, inserting it first if absent.
pub struct VecHashMap<V: InternKey> {
    items: Vec<V>,
}

impl<V: InternKey> View for VecHashMap<V> {
    type V = Seq<<V as View>::V>;

    closed spec fn view(&self) -> Seq<<V as View>::V> {
        self.items@.map_values(|v: V| v@)
    }
}

impl<V: InternKey> VecHashMap<V> {
    /// All stored values are pairwise distinct.
    pub open spec fn wf(&self) -> bool {
        forall|i: int, j: int| 0 <= i < j < self@.len() ==> self@[i] != self@[j]
    }

    pub fn new() -> (r: VecHashMap<V>)
        ensures
            r@ == Seq::<<V as View>::V>::empty(),
            r.wf(),
    {
        let r = VecHashMap { items: Vec::new() };
        proof {
            assert(r@ =~= Seq::<<V as View>::V>::empty());
        }
        r
    }

    /// Returns the stable index of `item`, inserting it first if it is not
    /// yet present.
    pub fn get_or_insert(&mut self, item: V) -> (index: usize)
        requires
            old(self).wf(),
        ensures
            final(self).wf(),
            final(self)@ == interned(old(self)@, item@),
            index as int == intern_index(old(self)@, item@),
            index < final(self)@.len(),
            final(self)@[index as int] == item@,
    {
        let ghost s = self@;
        let n = self.items.len();
        let mut i: usize = 0;
        while i < n
            invariant
                n == self.items@.len(),
                0 <= i <= n,
                s == self@,
                self.wf(),
                forall|j: int| 0 <= j < i ==> self@[j] != item@,
                *self == *old(self),
            decreases n - i,
        {
            if self.items[i].key_eq(&item) {
                proof {
                    assert(s[i as int] == item@);
                    assert(s.contains(item@));
                    s.index_of_first_ensures(item@);
                    let k = s.index_of_first(item@)->Some_0;
                    if k < i {
                        assert(s[k] != item@);
                    }
                    assert(k == i as int);
                    assert(interned(s, item@) == s);
                }
                return i;
            }
            i += 1;
        }
        proof {
            assert(!s.contains(item@)) by {
                if s.contains(item@) {
                    let k = choose|k: int| 0 <= k < s.len() && s[k] == item@;
                    assert(s[k] != item@);
                }
            }
        }
        self.items.push(item);
        proof {
            assert(self@ =~= s.push(item@));
            assert(forall|a: int, b: int|
                0 <= a < b < self@.len() && b < s.len() ==> self@[a] != self@[b]);
            assert(forall|a: int| 0 <= a < s.len() ==> self@[a] == s[a] && s[a] != item@);
        }
        n
    }

    /// Consumes the structure, returning the values in insertion order.
    pub fn to_vec(self) -> (r: Vec<V>)
        ensures
            r@.map_values(|v: V| v@) == self@,
    {
        self.items
    }

    /// Returns a copy of the current state of the list, in insertion order.
    pub fn vec(&self) -> (r: Vec<V>)
        ensures
            r@.map_values(|v: V| v@) == self@,
    {
        let n = self.items.len();
        let mut r: Vec<V> = Vec::new();
        let mut i: usize = 0;
        while i < n
            invariant
                n == self.items@.len(),
                0 <= i <= n,
                r@.len() == i,
                forall|j: int| 0 <= j < i ==> r@.map_values(|v: V| v@)[j] == self@[j],
            decreases n - i,
        {
            r.push(self.items[i].dup());
            i += 1;
        }
        proof {
            assert(r@.map_values(|v: V| v@) =~= self@);
        }
        r
    }

    /// The number of values stored so far.
    pub fn len(&self) -> (n: usize)
        ensures
            n == self@.len(),
    {
        self.items.len()
    }
}


/// A resolved, symbolicated frame.
#[derive(Debug, Clone, Eq, Hash)]
pub struct ResolvedFrame {
    pub name: String,
    pub file: String,
    pub line: u32,
}

impl PartialEq for ResolvedFrame {
    fn eq(&self, other: &ResolvedFrame) -> (r: bool) {
        self.name == other.name && self.file == other.file && self.line == other.line
    }
}

impl vstd::std_specs::cmp::PartialEqSpecImpl for ResolvedFrame {
    open spec fn obeys_eq_spec() -> bool {
        true
    }

    open spec fn eq_spec(&self, other: &ResolvedFrame) -> bool {
        self.name@ == other.name@ && self.file@ == other.file@ && self.line == other.line
    }
}

/// One canonicalized sample: indices into the profile's frame table.
#[derive(Debug)]
pub struct Sample {
    pub frames: Vec<usize>,
}

pub type Samples = Vec<Sample>;

/// All canonicalized samples of one thread.
#[derive(Debug)]
pub struct Thread {
    pub thread_id: crate::ThreadId,
    pub samples: Samples,
}

/// A module entry of the serialized profile.
#[derive(Debug, Clone, Eq, Hash)]
pub struct Module {
    pub name: String,
    pub build_id: String,
}

impl View for Module {
    type V = (Seq<char>, Seq<char>);

    open spec fn view(&self) -> (Seq<char>, Seq<char>) {
        (self.name@, self.build_id@)
    }
}

impl PartialEq for Module {
    fn eq(&self, other: &Module) -> (r: bool) {
        self.name == other.name && self.build_id == other.build_id
    }
}

impl vstd::std_specs::cmp::PartialEqSpecImpl for Module {
    open spec fn obeys_eq_spec() -> bool {
        true
    }

    open spec fn eq_spec(&self, other: &Module) -> bool {
        self@ == other@
    }
}

impl From<crate::module_cache::ModuleInfo> for Module {
    fn from(mi: crate::module_cache::ModuleInfo) -> (r: Self) {
        Module { name: mi.name, build_id: mi.build_id }
    }
}

impl vstd::std_specs::convert::FromSpecImpl<crate::module_cache::ModuleInfo> for Module {
    open spec fn obeys_from_spec() -> bool {
        true
    }

    open spec fn from_spec(mi: crate::module_cache::ModuleInfo) -> Module {
        Module { name: mi.name, build_id: mi.build_id }
    }
}

/// The serializable profile: module and frame tables in index order, and the
/// canonicalized samples of every thread.
#[derive(Debug)]
pub struct Profile {
    pub modules: Vec<Module>,
    pub threads: Vec<Thread>,
    pub frames: Vec<Frame>,
}

/// A profile whose frames were resolved to symbols.
#[derive(Debug)]
pub struct ResolvedProfile {
    pub modules: Vec<Module>,
    pub threads: Vec<Thread>,
    pub frames: Vec<ResolvedFrame>,
}

/// A module identity at the specification level: name and build-ID.
pub type ModuleId = (Seq<char>, Seq<char>);

/// The module table and the output of canonicalizing one raw frame: the
/// frame's module is interned, and the frame is rewritten to the module's
/// index and the relative ip. A frame whose address no cached range covers
/// is dropped, as is one that arrives when the module table has outgrown its
/// index type.
pub open spec fn frame_output(
    cache: Seq<crate::module_cache::EntryView>,
    modules: Seq<ModuleId>,
    ip: u64,
) -> (Seq<ModuleId>, Option<Frame>) {
    match crate::module_cache::lookup_result(cache, ip as int) {
        Some((m, rva)) => {
            if modules.len() > 0xffff_ffff {
                (modules, None)
            } else {
                (
                    interned(modules, m),
                    Some(Frame { module_index: intern_index(modules, m) as u32, relative_ip: rva as u64 }),
                )
            }
        },
        None => (modules, None),
    }
}

/// The module table, frame table, and collected frame indices after
/// canonicalizing the raw instruction pointers `ips[j..]` in order.
pub open spec fn sample_output(
    cache: Seq<crate::module_cache::EntryView>,
    modules: Seq<ModuleId>,
    frames: Seq<Frame>,
    ips: Seq<u64>,
    j: int,
) -> (Seq<ModuleId>, Seq<Frame>, Seq<int>)
    decreases ips.len() - j,
{
    if j < 0 || j >= ips.len() {
        (modules, frames, Seq::<int>::empty())
    } else {
        let step = frame_output(cache, modules, ips[j]);
        match step.1 {
            Some(f) => {
                let k = intern_index(frames, f);
                let rest = sample_output(cache, step.0, interned(frames, f), ips, j + 1);
                (rest.0, rest.1, seq![k] + rest.2)
            },
            None => sample_output(cache, step.0, frames, ips, j + 1),
        }
    }
}

/// The raw instruction pointers of a captured sample.
pub open spec fn sample_ips(s: Seq<crate::types::Frame>) -> Seq<u64> {
    s.map_values(|f: crate::types::Frame| f.ip)
}

/// Canonicalizes raw samples into an indexed profile. The module cache maps
/// instruction pointers to module identities; the two interning tables
/// assign stable indices to modules and frames across the whole run.
///
/// Resolving an address that no cached range covers needs the dynamic loader
/// and file access, which this structure cannot perform: callers record
/// those resolutions through [`Outputter::module_cache`] before output, and
/// an address that remains unknown is dropped from the output.
pub struct Outputter {
    module_cache: crate::module_cache::ModuleCache,
    module_index: VecHashMap<crate::module_cache::ModuleInfo>,
    frames_index: VecHashMap<Frame>,
}

impl Outputter {
    /// The abstract contents of the module cache.
    pub closed spec fn cache(&self) -> Seq<crate::module_cache::EntryView> {
        self.module_cache@
    }

    /// The abstract module table.
    pub closed spec fn modules(&self) -> Seq<ModuleId> {
        self.module_index@
    }

    /// The abstract frame table.
    pub closed spec fn frames(&self) -> Seq<Frame> {
        self.frames_index@
    }

    /// Both interning tables hold pairwise distinct values, every cached
    /// range is non-empty, and every interned frame's module index points
    /// into the module table.
    pub closed spec fn wf(&self) -> bool {
        &&& self.module_cache.wf()
        &&& self.module_index.wf()
        &&& self.frames_index.wf()
        &&& forall|i: int|
            0 <= i < self.frames_index@.len() ==> (#[trigger] self.frames_index@[i]).module_index
                < self.module_index@.len()
    }

    pub fn new() -> (r: Outputter)
        ensures
            r.wf(),
            r.cache() == Seq::<crate::module_cache::EntryView>::empty(),
            r.modules() == Seq::<ModuleId>::empty(),
            r.frames() == Seq::<Frame>::empty(),
    {
        Outputter {
            module_cache: crate::module_cache::ModuleCache::new(),
            module_index: VecHashMap::new(),
            frames_index: VecHashMap::new(),
        }
    }

    /// Borrows the module cache, so that the caller can record address
    /// resolutions before output.
    pub fn module_cache(&mut self) -> (r: &mut crate::module_cache::ModuleCache)
        ensures
            (*r)@ == old(self).cache(),
            final(self).cache() == (*final(r))@,
            final(self).modules() == old(self).modules(),
            final(self).frames() == old(self).frames(),
            old(self).wf() && final(r).wf() ==> final(self).wf(),
    {
        &mut self.module_cache
    }

    /// Canonicalizes one raw frame: the containing module is interned and
    /// the frame is rewritten to `(module_index, relative_ip)`. `None` means
    /// no cached range covers the address and the frame is dropped.
    pub fn output_frame(&mut self, frame: crate::types::Frame) -> (r: Option<Frame>)
        requires
            old(self).wf(),
        ensures
            final(self).wf(),
            final(self).cache() == old(self).cache(),
            final(self).frames() == old(self).frames(),
            final(self).modules() == frame_output(old(self).cache(), old(self).modules(), frame.ip).0,
            r == frame_output(old(self).cache(), old(self).modules(), frame.ip).1,
            r matches Some(f) ==> (f.module_index as int) < final(self).modules().len(),
    {
        match self.module_cache.lookup(frame.ip) {
            Some((module, rva)) => {
                if self.module_index.len() > (0xffff_ffffu32 as usize) {
                    return None;
                }
                let module_pos = self.module_index.get_or_insert(module);
                Some(Frame { module_index: module_pos as u32, relative_ip: rva })
            },
            None => None,
        }
    }

    /// Canonicalizes one captured sample: each raw frame is rewritten and
    /// interned, and the sample becomes the list of frame-table indices, in
    /// capture order. Frames whose address cannot be attributed are dropped.
    pub fn output_sample(&mut self, sample: Vec<crate::types::Frame>) -> (r: Sample)
        requires
            old(self).wf(),
        ensures
            final(self).wf(),
            final(self).cache() == old(self).cache(),
            ({
                let so = sample_output(
                    old(self).cache(),
                    old(self).modules(),
                    old(self).frames(),
                    sample_ips(sample@),
                    0,
                );
                &&& final(self).modules() == so.0
                &&& final(self).frames() == so.1
                &&& r.frames@.map_values(|u: usize| u as int) == so.2
            }),
            forall|k: int| 0 <= k < r.frames@.len() ==> (#[trigger] r.frames@[k]) < final(self).frames().len(),
    {
        let ghost ips = sample_ips(sample@);
        let ghost c0 = old(self).cache();
        let ghost m0 = old(self).modules();
        let ghost f0 = old(self).frames();
        let mut out: Vec<usize> = Vec::new();
        let n = sample.len();
        let mut i: usize = 0;
        while i < n
            invariant
                old(self).wf(),
                self.wf(),
                n == sample@.len(),
                0 <= i <= n,
                ips == sample_ips(sample@),
                c0 == old(self).cache(),
                m0 == old(self).modules(),
                f0 == old(self).frames(),
                self.cache() == c0,
                ({
                    let whole = sample_output(c0, m0, f0, ips, 0);
                    let tail = sample_output(c0, self.modules(), self.frames(), ips, i as int);
                    &&& whole.0 == tail.0
                    &&& whole.1 == tail.1
                    &&& whole.2 == out@.map_values(|u: usize| u as int) + tail.2
                }),
                forall|k: int| 0 <= k < out@.len() ==> (#[trigger] out@[k]) < self.frames().len(),
            decreases n - i,
        {
            let ghost mods_i = self.modules();
            let ghost frames_i = self.frames();
            let ghost out_i = out@;
            let of = self.output_frame(sample[i]);
            proof {
                assert(ips[i as int] == sample@[i as int].ip);
            }
            match of {
                Some(f) => {
                    let k = self.frames_index.get_or_insert(f);
                    out.push(k);
                    proof {
                        let tail_i = sample_output(c0, mods_i, frames_i, ips, i as int);
                        let tail_n = sample_output(c0, self.modules(), self.frames(), ips, i + 1);
                        assert(tail_i.2 == seq![k as int] + tail_n.2);
                        assert(out_i.map_values(|u: usize| u as int) + (seq![k as int] + tail_n.2)
                            =~= out@.map_values(|u: usize| u as int) + tail_n.2);
                    }
                },
                None => {
                    proof {
                        let tail_i = sample_output(c0, mods_i, frames_i, ips, i as int);
                        let tail_n = sample_output(c0, self.modules(), self.frames(), ips, i + 1);
                        assert(tail_i.2 == tail_n.2);
                    }
                },
            }
            i += 1;
        }
        proof {
            let whole = sample_output(c0, m0, f0, ips, 0);
            let tail = sample_output(c0, self.modules(), self.frames(), ips, n as int);
            assert(tail.2 == Seq::<int>::empty());
            assert(whole.2 =~= out@.map_values(|u: usize| u as int));
        }
        Sample { frames: out }
    }
}


/// The tables and per-sample index lists after canonicalizing a run of
/// samples in order.
pub open spec fn samples_output(
    cache: Seq<crate::module_cache::EntryView>,
    modules: Seq<ModuleId>,
    frames: Seq<Frame>,
    ss: Seq<Seq<u64>>,
) -> (Seq<ModuleId>, Seq<Frame>, Seq<Seq<int>>)
    decreases ss.len(),
{
    if ss.len() == 0 {
        (modules, frames, Seq::<Seq<int>>::empty())
    } else {
        let so = sample_output(cache, modules, frames, ss[0], 0);
        let rest = samples_output(cache, so.0, so.1, ss.drop_first());
        (rest.0, rest.1, seq![so.2] + rest.2)
    }
}

/// The tables and per-thread output after canonicalizing every thread's
/// samples in order.
pub open spec fn threads_output(
    cache: Seq<crate::module_cache::EntryView>,
    modules: Seq<ModuleId>,
    frames: Seq<Frame>,
    ts: Seq<(crate::ThreadId, Seq<Seq<u64>>)>,
) -> (Seq<ModuleId>, Seq<Frame>, Seq<(crate::ThreadId, Seq<Seq<int>>)>)
    decreases ts.len(),
{
    if ts.len() == 0 {
        (modules, frames, Seq::<(crate::ThreadId, Seq<Seq<int>>)>::empty())
    } else {
        let so = samples_output(cache, modules, frames, ts[0].1);
        let rest = threads_output(cache, so.0, so.1, ts.drop_first());
        (rest.0, rest.1, seq![(ts[0].0, so.2)] + rest.2)
    }
}

/// The raw instruction pointers of an accumulated profile, in its thread and
/// sample order.
pub open spec fn profile_ips(ts: Seq<crate::ThreadSamples>) -> Seq<(crate::ThreadId, Seq<Seq<u64>>)> {
    ts.map_values(
        |t: crate::ThreadSamples| (t.0, t.1.map_values(|s: Seq<crate::types::Frame>| sample_ips(s))),
    )
}

/// The indices of one canonicalized sample.
pub open spec fn sample_view(s: Sample) -> Seq<int> {
    s.frames@.map_values(|u: usize| u as int)
}

/// One canonicalized thread: its id and its samples' index lists.
pub open spec fn thread_view(t: Thread) -> (crate::ThreadId, Seq<Seq<int>>) {
    (t.thread_id, t.samples@.map_values(|s: Sample| sample_view(s)))
}

/// Canonicalizing never shrinks the frame table.
pub proof fn lemma_sample_output_grows(
    cache: Seq<crate::module_cache::EntryView>,
    modules: Seq<ModuleId>,
    frames: Seq<Frame>,
    ips: Seq<u64>,
    j: int,
)
    ensures
        sample_output(cache, modules, frames, ips, j).1.len() >= frames.len(),
    decreases ips.len() - j,
{
    if 0 <= j < ips.len() {
        let step = frame_output(cache, modules, ips[j]);
        match step.1 {
            Some(f) => {
                lemma_sample_output_grows(cache, step.0, interned(frames, f), ips, j + 1);
            },
            None => {
                lemma_sample_output_grows(cache, step.0, frames, ips, j + 1);
            },
        }
    }
}

impl Outputter {
    /// Canonicalizes the samples of one thread, in order.
    fn output_samples(&mut self, samples: Vec<Vec<crate::types::Frame>>) -> (r: Vec<Sample>)
        requires
            old(self).wf(),
        ensures
            final(self).wf(),
            final(self).cache() == old(self).cache(),
            ({
                let so = samples_output(
                    old(self).cache(),
                    old(self).modules(),
                    old(self).frames(),
                    samples@.map_values(|v: Vec<crate::types::Frame>| sample_ips(v@)),
                );
                &&& final(self).modules() == so.0
                &&& final(self).frames() == so.1
                &&& r@.map_values(|s: Sample| sample_view(s)) == so.2
            }),
            final(self).frames().len() >= old(self).frames().len(),
            forall|si: int, k: int|
                0 <= si < r@.len() && 0 <= k < r@[si].frames@.len() ==> (#[trigger] r@[si].frames@[k])
                    < final(self).frames().len(),
    {
        let ghost c0 = old(self).cache();
        let ghost m0 = old(self).modules();
        let ghost f0 = old(self).frames();
        let ghost ss0 = samples@.map_values(|v: Vec<crate::types::Frame>| sample_ips(v@));
        let mut remaining = samples;
        let mut out: Vec<Sample> = Vec::new();
        while remaining.len() > 0
            invariant
                self.wf(),
                self.cache() == c0,
                self.frames().len() >= f0.len(),
                ({
                    let whole = samples_output(c0, m0, f0, ss0);
                    let tail = samples_output(
                        c0,
                        self.modules(),
                        self.frames(),
                        remaining@.map_values(|v: Vec<crate::types::Frame>| sample_ips(v@)),
                    );
                    &&& whole.0 == tail.0
                    &&& whole.1 == tail.1
                    &&& whole.2 == out@.map_values(|s: Sample| sample_view(s)) + tail.2
                }),
                forall|si: int, k: int|
                    0 <= si < out@.len() && 0 <= k < out@[si].frames@.len() ==> (
                    #[trigger] out@[si].frames@[k]) < self.frames().len(),
            decreases remaining@.len(),
        {
            let ghost rem_pre = remaining@.map_values(|v: Vec<crate::types::Frame>| sample_ips(v@));
            let ghost mods_i = self.modules();
            let ghost frames_i = self.frames();
            let ghost out_pre = out@;
            let first = remaining.remove(0);
            proof {
                assert(remaining@.map_values(|v: Vec<crate::types::Frame>| sample_ips(v@))
                    =~= rem_pre.drop_first());
                assert(rem_pre[0] == sample_ips(first@));
            }
            let s = self.output_sample(first);
            proof {
                lemma_sample_output_grows(c0, mods_i, frames_i, sample_ips(first@), 0);
            }
            out.push(s);
            proof {
                let so = sample_output(c0, mods_i, frames_i, sample_ips(first@), 0);
                let tail_n = samples_output(c0, self.modules(), self.frames(), rem_pre.drop_first());
                assert(samples_output(c0, mods_i, frames_i, rem_pre).2 == seq![so.2] + tail_n.2);
                assert(sample_view(s) == so.2);
                assert(out_pre.map_values(|x: Sample| sample_view(x)) + (seq![so.2] + tail_n.2)
                    =~= out@.map_values(|x: Sample| sample_view(x)) + tail_n.2);
            }
        }
        proof {
            assert(remaining@.map_values(|v: Vec<crate::types::Frame>| sample_ips(v@)).len() == 0);
            let tail = samples_output(
                c0,
                self.modules(),
                self.frames(),
                remaining@.map_values(|v: Vec<crate::types::Frame>| sample_ips(v@)),
            );
            assert(tail.2 == Seq::<Seq<int>>::empty());
            assert(samples_output(c0, m0, f0, ss0).2 =~= out@.map_values(|s: Sample| sample_view(s)));
        }
        out
    }

    /// Canonicalizes a whole accumulated profile: every thread's samples are
    /// rewritten to frame indices, and the deduplicated module and frame
    /// tables are emitted in index order. Every frame index of the result
    /// points into its frame table, and every frame's module index into its
    /// module table.
    pub fn output(&mut self, profile: crate::Profile) -> (r: Profile)
        requires
            old(self).wf(),
        ensures
            final(self).wf(),
            final(self).cache() == old(self).cache(),
            ({
                let to = threads_output(
                    old(self).cache(),
                    old(self).modules(),
                    old(self).frames(),
                    profile_ips(profile.threads_seq()),
                );
                &&& final(self).modules() == to.0
                &&& final(self).frames() == to.1
                &&& r.threads@.map_values(|t: Thread| thread_view(t)) == to.2
            }),
            r.modules@.map_values(|m: Module| m@) == final(self).modules(),
            r.frames@ == final(self).frames(),
            forall|ti: int, si: int, k: int|
                0 <= ti < r.threads@.len() && 0 <= si < r.threads@[ti].samples@.len() && 0 <= k
                    < r.threads@[ti].samples@[si].frames@.len() ==> (
                #[trigger] r.threads@[ti].samples@[si].frames@[k]) < r.frames@.len(),
            forall|fi: int|
                0 <= fi < r.frames@.len() ==> (#[trigger] r.frames@[fi]).module_index
                    < r.modules@.len(),
    {
        let ghost c0 = old(self).cache();
        let ghost m0 = old(self).modules();
        let ghost f0 = old(self).frames();
        let ghost ts0 = profile_ips(profile.threads_seq());
        let mut remaining = profile.threads;
        proof {
            assert(remaining@.map_values(
                |p: (crate::ThreadId, Vec<Vec<crate::types::Frame>>)|
                    (p.0, p.1@.map_values(|v: Vec<crate::types::Frame>| sample_ips(v@))),
            ) =~~= ts0);
        }
        let mut out_threads: Vec<Thread> = Vec::new();
        while remaining.len() > 0
            invariant
                self.wf(),
                self.cache() == c0,
                ({
                    let whole = threads_output(c0, m0, f0, ts0);
                    let tail = threads_output(
                        c0,
                        self.modules(),
                        self.frames(),
                        remaining@.map_values(
                            |p: (crate::ThreadId, Vec<Vec<crate::types::Frame>>)|
                                (p.0, p.1@.map_values(|v: Vec<crate::types::Frame>| sample_ips(v@))),
                        ),
                    );
                    &&& whole.0 == tail.0
                    &&& whole.1 == tail.1
                    &&& whole.2 == out_threads@.map_values(|t: Thread| thread_view(t)) + tail.2
                }),
                forall|ti: int, si: int, k: int|
                    0 <= ti < out_threads@.len() && 0 <= si < out_threads@[ti].samples@.len() && 0
                        <= k < out_threads@[ti].samples@[si].frames@.len() ==> (
                    #[trigger] out_threads@[ti].samples@[si].frames@[k]) < self.frames().len(),
            decreases remaining@.len(),
        {
            let ghost rem_pre = remaining@.map_values(
                |p: (crate::ThreadId, Vec<Vec<crate::types::Frame>>)|
                    (p.0, p.1@.map_values(|v: Vec<crate::types::Frame>| sample_ips(v@))),
            );
            let ghost mods_i = self.modules();
            let ghost frames_i = self.frames();
            let ghost out_pre = out_threads@;
            let pair = remaining.remove(0);
            proof {
                assert(remaining@.map_values(
                    |p: (crate::ThreadId, Vec<Vec<crate::types::Frame>>)|
                        (p.0, p.1@.map_values(|v: Vec<crate::types::Frame>| sample_ips(v@))),
                ) =~~= rem_pre.drop_first());
                assert(rem_pre[0].0 == pair.0);
                assert(rem_pre[0].1 == pair.1@.map_values(|v: Vec<crate::types::Frame>| sample_ips(v@)));
            }
            let tid = pair.0;
            let out_samples = self.output_samples(pair.1);
            out_threads.push(Thread { thread_id: tid, samples: out_samples });
            proof {
                let so = samples_output(c0, mods_i, frames_i, rem_pre[0].1);
                let tail_n = threads_output(c0, self.modules(), self.frames(), rem_pre.drop_first());
                assert(threads_output(c0, mods_i, frames_i, rem_pre).2 == seq![(rem_pre[0].0, so.2)]
                    + tail_n.2);
                assert(thread_view(out_threads@.last()) == (rem_pre[0].0, so.2));
                assert(out_pre.map_values(|t: Thread| thread_view(t)) + (seq![(rem_pre[0].0, so.2)]
                    + tail_n.2) =~= out_threads@.map_values(|t: Thread| thread_view(t)) + tail_n.2);
            }
        }
        proof {
            let ghost rem_view = remaining@.map_values(
                |p: (crate::ThreadId, Vec<Vec<crate::types::Frame>>)|
                    (p.0, p.1@.map_values(|v: Vec<crate::types::Frame>| sample_ips(v@))),
            );
            assert(rem_view.len() == 0);
            let tail = threads_output(c0, self.modules(), self.frames(), rem_view);
            assert(tail.2 == Seq::<(crate::ThreadId, Seq<Seq<int>>)>::empty());
            assert(threads_output(c0, m0, f0, ts0).2 =~= out_threads@.map_values(
                |t: Thread| thread_view(t),
            ));
        }
        let mut modules_in = self.module_index.vec();
        let mut modules: Vec<Module> = Vec::new();
        proof {
            assert(modules_in@.map_values(|m: crate::module_cache::ModuleInfo| m@)
                == self.modules());
        }
        let ghost mods_view = self.modules();
        while modules_in.len() > 0
            invariant
                modules@.map_values(|m: Module| m@) + modules_in@.map_values(
                    |m: crate::module_cache::ModuleInfo| m@,
                ) == mods_view,
            decreases modules_in@.len(),
        {
            let ghost out_pre = modules@;
            let ghost in_pre = modules_in@;
            let mi = modules_in.remove(0);
            modules.push(Module::from(mi));
            proof {
                assert(out_pre.map_values(|m: Module| m@).push(mi@) =~= modules@.map_values(
                    |m: Module| m@,
                ));
                assert(in_pre.map_values(|m: crate::module_cache::ModuleInfo| m@).drop_first()
                    =~= modules_in@.map_values(|m: crate::module_cache::ModuleInfo| m@));
                assert(out_pre.map_values(|m: Module| m@) + in_pre.map_values(
                    |m: crate::module_cache::ModuleInfo| m@,
                ) =~= modules@.map_values(|m: Module| m@) + modules_in@.map_values(
                    |m: crate::module_cache::ModuleInfo| m@,
                ));
            }
        }
        proof {
            assert(modules@.map_values(|m: Module| m@) =~= mods_view);
        }
        let frames_out = self.frames_index.vec();
        proof {
            assert(frames_out@ =~= self.frames());
        }
        Profile { modules, threads: out_threads, frames: frames_out }
    }
}

} // verus!
