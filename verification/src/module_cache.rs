//! Address-to-module resolution with an amortizing cache.
//!
//! The cache keeps a list of address ranges, each tied to a module identity
//! (file basename and build-ID). A range starts as `[load_base, addr + 1)`
//! for the first address observed inside a module and its upper bound is
//! extended every time a higher address is resolved to the same module, so
//! later queries for nearby addresses hit the cache. Resolving an unknown
//! address needs the dynamic loader and the module's on-disk file, which the
//! caller supplies as a [`ResolvedModule`]; everything after that point is
//! cache logic.

use vstd::prelude::*;

verus! {

/// The identity of a loaded binary: the basename of its on-disk file and its
/// build-ID as uppercase hex.
#[derive(Debug, Clone, Eq, Hash)]
pub struct ModuleInfo {
    pub name: String,
    pub build_id: String,
}

impl View for ModuleInfo {
    type V = (Seq<char>, Seq<char>);

    open spec fn view(&self) -> (Seq<char>, Seq<char>) {
        (self.name@, self.build_id@)
    }
}

impl PartialEq for ModuleInfo {
    fn eq(&self, other: &ModuleInfo) -> (r: bool) {
        self.name == other.name && self.build_id == other.build_id
    }
}

impl vstd::std_specs::cmp::PartialEqSpecImpl for ModuleInfo {
    open spec fn obeys_eq_spec() -> bool {
        true
    }

    open spec fn eq_spec(&self, other: &ModuleInfo) -> bool {
        self@ == other@
    }
}

impl crate::output::InternKey for ModuleInfo {
    fn key_eq(&self, other: &Self) -> (r: bool)
        ensures
            r == (self@ == other@),
    {
        self.name == other.name && self.build_id == other.build_id
    }

    fn dup(&self) -> (r: Self)
        ensures
            r@ == self@,
    {
        ModuleInfo { name: self.name.clone(), build_id: self.build_id.clone() }
    }
}

/// A resolved module identity and the pair's relative address.
pub type ModuleAndAddr = (ModuleInfo, u64);

/// One cache entry: a module identity plus the half-open address range
/// `[low, high)` of instruction pointers attributed to it so far. `low` is
/// the module's load base.
#[derive(Debug)]
pub struct ExtraModuleInfo {
    pub low: u64,
    pub high: u64,
    pub info: ModuleInfo,
}

/// The abstract value of a cache entry: module identity, load base, and the
/// exclusive upper bound of the attributed range.
pub type EntryView = ((Seq<char>, Seq<char>), int, int);

impl View for ExtraModuleInfo {
    type V = EntryView;

    open spec fn view(&self) -> EntryView {
        (self.info@, self.low as int, self.high as int)
    }
}

impl ExtraModuleInfo {
    /// Copies the entry, preserving its abstract value.
    pub fn dup(&self) -> (r: Self)
        ensures
            r@ == self@,
    {
        ExtraModuleInfo {
            low: self.low,
            high: self.high,
            info: ModuleInfo { name: self.info.name.clone(), build_id: self.info.build_id.clone() },
        }
    }
}

/// Whether an entry's range contains an address.
pub open spec fn entry_contains(e: EntryView, addr: int) -> bool {
    e.1 <= addr < e.2
}

/// The index of the first entry at or after `i` whose range contains `addr`.
pub open spec fn first_match_from(s: Seq<EntryView>, addr: int, i: int) -> Option<int>
    decreases s.len() - i,
{
    if i < 0 || i >= s.len() {
        None
    } else if entry_contains(s[i], addr) {
        Some(i)
    } else {
        first_match_from(s, addr, i + 1)
    }
}

/// The index of the first entry whose range contains `addr`.
pub open spec fn first_match(s: Seq<EntryView>, addr: int) -> Option<int> {
    first_match_from(s, addr, 0)
}

/// What the cache answers for `addr` without consulting the loader: the
/// first matching entry's identity and the offset of `addr` from its load
/// base.
pub open spec fn lookup_result(s: Seq<EntryView>, addr: int) -> Option<((Seq<char>, Seq<char>), int)> {
    match first_match(s, addr) {
        Some(i) => Some((s[i].0, addr - s[i].1)),
        None => None,
    }
}

/// The first entry with the given identity and load base, at or after `i`.
pub open spec fn first_triple_from(
    s: Seq<EntryView>,
    name: Seq<char>,
    build_id: Seq<char>,
    base: int,
    i: int,
) -> Option<int>
    decreases s.len() - i,
{
    if i < 0 || i >= s.len() {
        None
    } else if s[i].0 == (name, build_id) && s[i].1 == base {
        Some(i)
    } else {
        first_triple_from(s, name, build_id, base, i + 1)
    }
}

/// The first entry with the given identity and load base.
pub open spec fn first_triple(s: Seq<EntryView>, name: Seq<char>, build_id: Seq<char>, base: int) -> Option<int> {
    first_triple_from(s, name, build_id, base, 0)
}

/// The cache contents after recording that `addr` belongs to the module
/// `(name, build_id)` loaded at `base`: the matching entry's high-water mark
/// is raised to cover `addr`, or a fresh entry `[base, addr + 1)` is added.
pub open spec fn inserted(
    s: Seq<EntryView>,
    addr: int,
    name: Seq<char>,
    build_id: Seq<char>,
    base: int,
) -> Seq<EntryView> {
    match first_triple(s, name, build_id, base) {
        Some(i) => s.update(i, (s[i].0, s[i].1, if s[i].2 >= addr + 1 { s[i].2 } else { addr + 1 })),
        None => s.push(((name, build_id), base, addr + 1)),
    }
}

/// What a module resolution reports for one address: the basename of the
/// containing file, the build-ID extracted from that file, and the load base
/// the dynamic loader placed it at.
#[derive(Debug)]
pub struct ResolvedModule {
    pub name: String,
    pub build_id: String,
    pub base: u64,
}

pub proof fn lemma_first_match_from_ensures(s: Seq<EntryView>, addr: int, i: int)
    requires
        0 <= i,
    ensures
        match first_match_from(s, addr, i) {
            Some(k) => i <= k < s.len() && entry_contains(s[k], addr) && (forall|j: int|
                i <= j < k ==> !entry_contains(s[j], addr)),
            None => forall|j: int| i <= j < s.len() ==> !entry_contains(s[j], addr),
        },
    decreases s.len() - i,
{
    if i < s.len() && !entry_contains(s[i], addr) {
        lemma_first_match_from_ensures(s, addr, i + 1);
    }
}

pub proof fn lemma_first_triple_from_ensures(
    s: Seq<EntryView>,
    name: Seq<char>,
    build_id: Seq<char>,
    base: int,
    i: int,
)
    requires
        0 <= i,
    ensures
        match first_triple_from(s, name, build_id, base, i) {
            Some(k) => i <= k < s.len() && s[k].0 == (name, build_id) && s[k].1 == base
                && (forall|j: int|
                i <= j < k ==> !(s[j].0 == (name, build_id) && s[j].1 == base)),
            None => forall|j: int|
                i <= j < s.len() ==> !(s[j].0 == (name, build_id) && s[j].1 == base),
        },
    decreases s.len() - i,
{
    if i < s.len() && !(s[i].0 == (name, build_id) && s[i].1 == base) {
        lemma_first_triple_from_ensures(s, name, build_id, base, i + 1);
    }
}

/// For every address the cache resolves, the matched module's load base plus
/// the returned relative ip reconstructs the original address.
pub proof fn lemma_resolution_round_trip(s: Seq<EntryView>, addr: int)
    requires
        first_match(s, addr) is Some,
    ensures
        ({
            let i = first_match(s, addr)->Some_0;
            let rva = lookup_result(s, addr)->Some_0.1;
            0 <= i < s.len() && s[i].1 + rva == addr
        }),
{
    lemma_first_match_from_ensures(s, addr, 0);
}

/// An address equal to the matched module's load base resolves to relative
/// ip zero.
pub proof fn lemma_load_base_rva_zero(s: Seq<EntryView>, addr: int)
    requires
        first_match(s, addr) is Some,
        s[first_match(s, addr)->Some_0].1 == addr,
    ensures
        lookup_result(s, addr)->Some_0.1 == 0,
{
}

/// Two addresses matched by the same cache entry resolve to the same module
/// identity, and the higher address to the strictly larger relative ip.
pub proof fn lemma_same_module_monotonic(s: Seq<EntryView>, a1: int, a2: int)
    requires
        first_match(s, a1) is Some,
        first_match(s, a1) == first_match(s, a2),
        a1 < a2,
    ensures
        lookup_result(s, a1)->Some_0.0 == lookup_result(s, a2)->Some_0.0,
        lookup_result(s, a1)->Some_0.1 < lookup_result(s, a2)->Some_0.1,
{
}

/// The cache: a list of module ranges, scanned linearly on lookup.
pub struct ModuleCache {
    module_ranges: Vec<ExtraModuleInfo>,
}

impl View for ModuleCache {
    type V = Seq<EntryView>;

    closed spec fn view(&self) -> Seq<EntryView> {
        self.module_ranges@.map_values(|e: ExtraModuleInfo| e@)
    }
}

impl ModuleCache {
    /// Every range is non-empty: the load base lies below the high-water
    /// mark.
    pub open spec fn wf(&self) -> bool {
        forall|i: int| 0 <= i < self@.len() ==> (#[trigger] self@[i]).1 < self@[i].2
    }

    pub fn new() -> (r: Self)
        ensures
            r@ == Seq::<EntryView>::empty(),
            r.wf(),
    {
        let r = ModuleCache { module_ranges: Vec::new() };
        proof {
            assert(r@ =~= Seq::<EntryView>::empty());
        }
        r
    }

    /// Returns a copy of the first cache entry whose range contains `addr`.
    pub fn find_existing(&self, addr: u64) -> (r: Option<ExtraModuleInfo>)
        ensures
            match first_match(self@, addr as int) {
                Some(i) => r matches Some(e) && e@ == self@[i],
                None => r is None,
            },
    {
        let ghost s = self@;
        let n = self.module_ranges.len();
        let mut i: usize = 0;
        while i < n
            invariant
                n == self.module_ranges@.len(),
                0 <= i <= n,
                s == self@,
                forall|j: int| 0 <= j < i ==> !entry_contains(s[j], addr as int),
            decreases n - i,
        {
            let e = &self.module_ranges[i];
            if e.low <= addr && addr < e.high {
                proof {
                    assert(entry_contains(s[i as int], addr as int));
                    lemma_first_match_from_ensures(s, addr as int, 0);
                    let m = first_match(s, addr as int);
                    if m is Some {
                        let k = m->Some_0;
                        if k < i {
                            assert(!entry_contains(s[k], addr as int));
                        }
                        if k > i {
                            assert(!entry_contains(s[i as int], addr as int));
                        }
                        assert(k == i as int);
                    } else {
                        assert(!entry_contains(s[i as int], addr as int));
                    }
                }
                return Some(self.module_ranges[i].dup());
            }
            i += 1;
        }
        proof {
            lemma_first_match_from_ensures(s, addr as int, 0);
            if first_match(s, addr as int) is Some {
                let k = first_match(s, addr as int)->Some_0;
                assert(!entry_contains(s[k], addr as int));
            }
        }
        None
    }

    /// The offset of `addr` from the entry's load base.
    pub fn relative_addr(info: &ExtraModuleInfo, addr: u64) -> (r: u64)
        requires
            entry_contains(info@, addr as int),
        ensures
            r == addr - info.low,
    {
        addr - info.low
    }

    /// Resolves `addr` against the cached ranges alone: the first matching
    /// entry's identity and the offset of `addr` from its load base.
    pub fn lookup(&self, addr: u64) -> (r: Option<ModuleAndAddr>)
        ensures
            match lookup_result(self@, addr as int) {
                Some((m, rva)) => r matches Some((info, rel)) && info@ == m && rel == rva,
                None => r is None,
            },
    {
        proof {
            lemma_first_match_from_ensures(self@, addr as int, 0);
        }
        match self.find_existing(addr) {
            Some(entry) => {
                let rva = Self::relative_addr(&entry, addr);
                Some((entry.info, rva))
            },
            None => None,
        }
    }

    /// Records that `addr` was resolved to the module `rm` and returns the
    /// module's identity with the relative address. Reports `None`, leaving
    /// the cache unchanged, if the resolution is unusable: the load base
    /// lies above the address, or the address is the largest representable
    /// one (its range would have no exclusive upper bound).
    pub fn insert_resolved(&mut self, addr: u64, rm: ResolvedModule) -> (r: Option<ModuleAndAddr>)
        requires
            old(self).wf(),
        ensures
            final(self).wf(),
            rm.base > addr || addr == u64::MAX ==> r is None && final(self)@ == old(self)@,
            rm.base <= addr && addr < u64::MAX ==> {
                &&& final(self)@ == inserted(old(self)@, addr as int, rm.name@, rm.build_id@, rm.base as int)
                &&& r matches Some((info, rva)) && info@ == (rm.name@, rm.build_id@) && rva == addr - rm.base
            },
    {
        if rm.base > addr || addr == u64::MAX {
            return None;
        }
        let ghost s = self@;
        let n = self.module_ranges.len();
        let mut i: usize = 0;
        while i < n
            invariant
                n == self.module_ranges@.len(),
                0 <= i <= n,
                s == self@,
                s == old(self)@,
                self.wf(),
                addr < u64::MAX,
                rm.base <= addr,
                forall|j: int| 0 <= j < i ==> !(s[j].0 == (rm.name@, rm.build_id@) && s[j].1 == rm.base as int),
            decreases n - i,
        {
            let e = &self.module_ranges[i];
            if e.low == rm.base && e.info.name == rm.name && e.info.build_id == rm.build_id {
                proof {
                    assert(s[i as int].0 == (rm.name@, rm.build_id@) && s[i as int].1 == rm.base as int);
                    lemma_first_triple_from_ensures(s, rm.name@, rm.build_id@, rm.base as int, 0);
                    let m = first_triple(s, rm.name@, rm.build_id@, rm.base as int);
                    if m is Some {
                        let k = m->Some_0;
                        if k < i {
                            assert(!(s[k].0 == (rm.name@, rm.build_id@) && s[k].1 == rm.base as int));
                        }
                        if k > i {
                            assert(!(s[i as int].0 == (rm.name@, rm.build_id@) && s[i as int].1
                                == rm.base as int));
                        }
                        assert(k == i as int);
                    } else {
                        assert(!(s[i as int].0 == (rm.name@, rm.build_id@) && s[i as int].1
                            == rm.base as int));
                    }
                }
                let old_high = self.module_ranges[i].high;
                let new_high = if addr + 1 >= old_high {
                    addr + 1
                } else {
                    old_high
                };
                let entry = ExtraModuleInfo {
                    low: rm.base,
                    high: new_high,
                    info: ModuleInfo { name: rm.name, build_id: rm.build_id },
                };
                let result = ModuleInfo { name: entry.info.name.clone(), build_id: entry.info.build_id.clone() };
                let rva = addr - rm.base;
                self.module_ranges[i] = entry;
                proof {
                    assert(self@ =~= inserted(s, addr as int, rm.name@, rm.build_id@, rm.base as int));
                }
                return Some((result, rva));
            }
            i += 1;
        }
        proof {
            lemma_first_triple_from_ensures(s, rm.name@, rm.build_id@, rm.base as int, 0);
            if first_triple(s, rm.name@, rm.build_id@, rm.base as int) is Some {
                let k = first_triple(s, rm.name@, rm.build_id@, rm.base as int)->Some_0;
                assert(!(s[k].0 == (rm.name@, rm.build_id@) && s[k].1 == rm.base as int));
            }
        }
        let entry = ExtraModuleInfo {
            low: rm.base,
            high: addr + 1,
            info: ModuleInfo { name: rm.name, build_id: rm.build_id },
        };
        let result = ModuleInfo { name: entry.info.name.clone(), build_id: entry.info.build_id.clone() };
        let rva = addr - rm.base;
        self.module_ranges.push(entry);
        proof {
            assert(self@ =~= inserted(s, addr as int, rm.name@, rm.build_id@, rm.base as int));
        }
        Some((result, rva))
    }

    /// Resolves one address: against the cached ranges if any cover it, and
    /// otherwise by recording the caller-supplied resolution. `None` means
    /// the address cannot be attributed to any module.
    pub fn get_or_insert(&mut self, addr: u64, resolution: Option<ResolvedModule>) -> (r: Option<
        ModuleAndAddr,
    >)
        requires
            old(self).wf(),
        ensures
            final(self).wf(),
            first_match(old(self)@, addr as int) is Some ==> {
                &&& final(self)@ == old(self)@
                &&& r matches Some((info, rva)) && Some((info@, rva as int)) == lookup_result(
                    old(self)@,
                    addr as int,
                )
            },
            first_match(old(self)@, addr as int) is None ==> match resolution {
                Some(rm) => {
                    &&& (rm.base > addr || addr == u64::MAX) ==> r is None && final(self)@ == old(self)@
                    &&& (rm.base <= addr && addr < u64::MAX) ==> {
                        &&& final(self)@ == inserted(old(self)@, addr as int, rm.name@, rm.build_id@, rm.base as int)
                        &&& r matches Some((info, rva)) && info@ == (rm.name@, rm.build_id@) && rva == addr - rm.base
                    }
                },
                None => r is None && final(self)@ == old(self)@,
            },
    {
        proof {
            lemma_first_match_from_ensures(self@, addr as int, 0);
        }
        match self.find_existing(addr) {
            Some(entry) => {
                let rva = Self::relative_addr(&entry, addr);
                Some((entry.info, rva))
            },
            None => {
                match resolution {
                    Some(rm) => self.insert_resolved(addr, rm),
                    None => None,
                }
            },
        }
    }

    /// The number of distinct ranges cached so far.
    pub fn len(&self) -> (n: usize)
        ensures
            n == self@.len(),
    {
        self.module_ranges.len()
    }
}

} // verus!
