//! Sv39 paging. The tables live in pages from a base address; the kernel's
//! tables map MMIO as one 1 GiB leaf and DRAM as 2 MiB leaves, all to
//! themselves, and user ranges are overlaid as 4 KiB pages (splitting the
//! 2 MiB leaf under them). Every change keeps the tables well formed and is
//! stated over the Sv39 translation it leaves.
use vstd::prelude::*;

verus! {

pub const PAGE_SIZE: u64 = 4096;
pub const SATP_MODE_SV39: u64 = 8;
pub const PTE_V: u64 = 1;
pub const PTE_R: u64 = 2;
pub const PTE_W: u64 = 4;
pub const PTE_X: u64 = 8;
pub const PTE_U: u64 = 16;
pub const PTE_G: u64 = 32;
pub const PTE_A: u64 = 64;
pub const PTE_D: u64 = 128;
/// Valid, readable, writable, executable, global, accessed, dirty.
pub const KERNEL_LEAF: u64 = 0xEF;
/// Valid, readable, writable, executable, user, accessed, dirty.
pub const USER_LEAF: u64 = 0xDF;

/// The entry bits that hold the physical page number of `pa`.
pub open spec fn spec_pte_ppn(pa: u64) -> u64 {
    ((pa / 4096) * 1024) as u64
}

/// The physical page number of `pa`, placed where an entry holds it.
pub fn pte_ppn(pa: u64) -> (e: u64)
    ensures
        e == (pa >> 12u64) << 10u64,
        e == spec_pte_ppn(pa),
{
    let e = (pa >> 12u64) << 10u64;
    assert((pa >> 12u64) << 10u64 == ((pa / 4096) * 1024) as u64) by (bit_vector);
    e
}

/// A leaf maps memory: it grants read, write or execute.
pub fn pte_is_leaf(pte: u64) -> (r: bool)
    ensures
        r == (pte & (PTE_R | PTE_W | PTE_X) != 0),
{
    pte & (PTE_R | PTE_W | PTE_X) != 0
}

/// The root-table slot of `va` (bits 30..38).
pub open spec fn vpn2(va: u64) -> int {
    ((va / 0x4000_0000) % 512) as int
}

/// The `satp` value that turns on Sv39 with the root table at `root_pa`.
pub open spec fn spec_satp_value(root_pa: u64) -> u64 {
    (SATP_MODE_SV39 << 60u64) | (root_pa >> 12u64)
}

pub fn satp_value(root_pa: u64) -> (v: u64)
    ensures
        v == spec_satp_value(root_pa),
{
    (SATP_MODE_SV39 << 60u64) | (root_pa >> 12u64)
}

/// The `satp` value in force (0 until paging is on).
pub fn satp(root_satp: u64) -> (v: u64)
    ensures
        v == root_satp,
{
    root_satp
}

/// Paging is on.
pub fn enabled(root_satp: u64) -> (r: bool)
    ensures
        r == (root_satp != 0),
{
    root_satp != 0
}

/// The pages a user range of `size` bytes at `pa` covers: from `pa` rounded
/// down to a page to `pa + size` rounded up.
pub fn user_page_range(pa: u64, size: u64) -> (r: (u64, u64))
    requires
        pa + size + PAGE_SIZE - 1 <= u64::MAX,
    ensures
        r.0 == pa - pa % 4096,
        r.1 == (pa + size + 4095) - (pa + size + 4095) % 4096,
        r.0 % 4096 == 0,
        r.1 % 4096 == 0,
        r.0 <= pa,
        pa + size <= r.1,
{
    let start = pa & !0xFFFu64;
    let e = pa + size + (PAGE_SIZE - 1);
    let end = e & !0xFFFu64;
    assert(pa & !0xFFFu64 == pa - pa % 4096) by (bit_vector);
    assert(e & !0xFFFu64 == e - e % 4096) by (bit_vector);
    (start, end)
}

// ─── Page tables in memory ───────────────────────────────────────────────────

/// Page tables are allocated below this physical address (2^50).
pub const TABLE_LIMIT: u64 = 0x4_0000_0000_0000;

/// Entries per table.
pub const ENTRIES: usize = 512;

pub open spec fn valid(e: u64) -> bool {
    e % 2 == 1
}

/// A leaf grants read, write or execute (bits 1..3).
pub open spec fn leaf(e: u64) -> bool {
    (e / 2) % 8 != 0
}

/// A valid entry that is no leaf points to the next table.
pub open spec fn pointer(e: u64) -> bool {
    valid(e) && !leaf(e)
}

/// The physical address an entry holds.
pub open spec fn target(e: u64) -> int {
    ((e / 1024) as int * 4096) % 0x1_0000_0000_0000_0000
}

/// The flag bits of an entry (bits 0..9).
pub open spec fn flags_of(e: u64) -> int {
    (e % 1024) as int
}

pub open spec fn vpn1(va: u64) -> int {
    ((va / 0x20_0000) % 512) as int
}

pub open spec fn vpn0(va: u64) -> int {
    ((va / 0x1000) % 512) as int
}

/// Flags that make a leaf: below 1024, with one of read, write, execute.
pub open spec fn leaf_flags(flags: u64) -> bool {
    flags < 1024 && flags % 2 == 1 && (flags / 2) % 8 != 0
}


/// The root, middle and last table indexes of `va` (bits 30..38, 21..29, 12..20).
fn vpn_indexes(va: u64) -> (r: (usize, usize, usize))
    ensures
        r.0 == vpn2(va),
        r.1 == vpn1(va),
        r.2 == vpn0(va),
{
    assert(((va >> 30u64) & 0x1FF) as int == ((va / 0x4000_0000) % 512) as int && ((va >> 21u64) & 0x1FF) as int == ((va
        / 0x20_0000) % 512) as int && ((va >> 12u64) & 0x1FF) as int == ((va / 0x1000) % 512) as int) by (bit_vector);
    (((va >> 30u64) & 0x1FF) as usize, ((va >> 21u64) & 0x1FF) as usize, ((va >> 12u64) & 0x1FF) as usize)
}

/// Whether an entry is valid, and whether it is a leaf.
fn entry_kind(e: u64) -> (r: (bool, bool))
    ensures
        r.0 == valid(e),
        r.1 == leaf(e),
{
    assert(e & 1u64 == e % 2 && e & 0xEu64 == 2 * ((e / 2) % 8) && PTE_R | PTE_W | PTE_X == 0xEu64) by (bit_vector);
    (e & PTE_V != 0, pte_is_leaf(e))
}

/// The page tables: table `t` is the 4096-byte page at `base + 4096 t`;
/// table 0 is the root.
pub struct PageTables {
    pub base: u64,
    pub tables: Vec<Vec<u64>>,
}

impl PageTables {
    pub open spec fn entry(&self, t: int, i: int) -> u64 {
        self.tables@[t]@[i]
    }

    /// The table an entry points to.
    pub open spec fn index_of(&self, e: u64) -> int {
        (target(e) - self.base) / 4096
    }

    /// The tables are whole; every pointer leads to a table other than the
    /// root; no two pointers lead to the same table.
    pub open spec fn wf(&self) -> bool {
        &&& self.base % 4096 == 0
        &&& self.tables@.len() >= 1
        &&& self.base + 4096 * self.tables@.len() <= TABLE_LIMIT
        &&& forall|t: int| 0 <= t < self.tables@.len() ==> (#[trigger] self.tables@[t])@.len() == ENTRIES
        &&& forall|t: int, i: int|
            0 <= t < self.tables@.len() && 0 <= i < ENTRIES && pointer(#[trigger] self.entry(t, i)) ==> self.base + 4096
                <= target(self.entry(t, i)) < self.base + 4096 * self.tables@.len()
        &&& forall|t: int, i: int, u: int, j: int|
            0 <= t < self.tables@.len() && 0 <= i < ENTRIES && 0 <= u < self.tables@.len() && 0 <= j < ENTRIES
                && pointer(#[trigger] self.entry(t, i)) && pointer(#[trigger] self.entry(u, j)) && target(self.entry(t, i))
                == target(self.entry(u, j)) ==> t == u && i == j
    }

    /// Sv39 translation of `va`: the physical page and the flags of the leaf
    /// that maps it (1 GiB, 2 MiB or 4 KiB), if any.
    pub open spec fn walk(&self, va: u64) -> Option<(int, int)> {
        let e2 = self.entry(0, vpn2(va));
        if !valid(e2) {
            None
        } else if leaf(e2) {
            Some((target(e2) + (va % 0x4000_0000) as int / 4096 * 4096, flags_of(e2)))
        } else {
            let e1 = self.entry(self.index_of(e2), vpn1(va));
            if !valid(e1) {
                None
            } else if leaf(e1) {
                Some((target(e1) + (va % 0x20_0000) as int / 4096 * 4096, flags_of(e1)))
            } else {
                let e0 = self.entry(self.index_of(e1), vpn0(va));
                if valid(e0) && leaf(e0) {
                    Some((target(e0), flags_of(e0)))
                } else {
                    None
                }
            }
        }
    }

    /// Whether the walk of `va` reads entry `i` of table `t`.
    pub open spec fn reads(&self, va: u64, t: int, i: int) -> bool {
        let e2 = self.entry(0, vpn2(va));
        ||| t == 0 && i == vpn2(va)
        ||| pointer(e2) && t == self.index_of(e2) && i == vpn1(va)
        ||| pointer(e2) && pointer(self.entry(self.index_of(e2), vpn1(va))) && t == self.index_of(
            self.entry(self.index_of(e2), vpn1(va)),
        ) && i == vpn0(va)
    }

    /// A fresh root table at `base`, all entries invalid.
    pub fn new(base: u64) -> (pt: Self)
        requires
            base % 4096 == 0,
            base + 4096 <= TABLE_LIMIT,
        ensures
            pt.wf(),
            pt.base == base,
            pt.tables@.len() == 1,
            forall|i: int| 0 <= i < ENTRIES ==> pt.entry(0, i) == 0,
    {
        let mut tables: Vec<Vec<u64>> = Vec::new();
        tables.push(vec![0u64; ENTRIES]);
        PageTables { base, tables }
    }

    /// A new zeroed table; its physical address.
    pub fn alloc_table(&mut self) -> (pa: u64)
        requires
            old(self).wf(),
            old(self).base + 4096 * (old(self).tables@.len() + 1) <= TABLE_LIMIT,
        ensures
            final(self).wf(),
            final(self).base == old(self).base,
            final(self).tables@.len() == old(self).tables@.len() + 1,
            forall|t: int| 0 <= t < old(self).tables@.len() ==> #[trigger] final(self).tables@[t] == old(self).tables@[t],
            forall|i: int| 0 <= i < ENTRIES ==> final(self).entry(old(self).tables@.len() as int, i) == 0,
            pa == old(self).base + 4096 * old(self).tables@.len(),
    {
        let pa = self.base + 4096 * (self.tables.len() as u64);
        self.tables.push(vec![0u64; ENTRIES]);
        proof {
            assert forall|t: int, i: int|
                0 <= t < self.tables@.len() && 0 <= i < ENTRIES && pointer(#[trigger] self.entry(t, i)) implies self.base + 4096
                    <= target(self.entry(t, i)) < self.base + 4096 * self.tables@.len() by {
                if t < old(self).tables@.len() {
                    assert(self.entry(t, i) == old(self).entry(t, i));
                }
            }
            assert forall|t: int, i: int, u: int, j: int|
                0 <= t < self.tables@.len() && 0 <= i < ENTRIES && 0 <= u < self.tables@.len() && 0 <= j < ENTRIES
                    && pointer(#[trigger] self.entry(t, i)) && pointer(#[trigger] self.entry(u, j)) && target(self.entry(t, i))
                    == target(self.entry(u, j)) implies t == u && i == j by {
                if t < old(self).tables@.len() && u < old(self).tables@.len() {
                    assert(self.entry(t, i) == old(self).entry(t, i));
                    assert(self.entry(u, j) == old(self).entry(u, j));
                }
            }
        }
        pa
    }
}

/// `b` holds every entry of `a` (and maybe more tables), except perhaps
/// entry `i` of table `t`.
pub open spec fn agree_except(a: PageTables, b: PageTables, t: int, i: int) -> bool {
    &&& b.base == a.base
    &&& b.tables@.len() >= a.tables@.len()
    &&& forall|u: int, j: int|
        0 <= u < a.tables@.len() && 0 <= j < ENTRIES && !(u == t && j == i) ==> #[trigger] b.entry(u, j) == a.entry(u, j)
}

/// A walk that does not read the changed entry translates as before.
pub proof fn lemma_walk_frame(a: PageTables, b: PageTables, t: int, i: int, va: u64)
    requires
        a.wf(),
        agree_except(a, b, t, i),
        !a.reads(va, t, i),
    ensures
        b.walk(va) == a.walk(va),
{
    let e2 = a.entry(0, vpn2(va));
    assert(b.entry(0, vpn2(va)) == e2);
    if pointer(e2) {
        let t1 = a.index_of(e2);
        assert(0 <= t1 < a.tables@.len());
        assert(b.index_of(e2) == t1);
        let e1 = a.entry(t1, vpn1(va));
        assert(b.entry(t1, vpn1(va)) == e1);
        if pointer(e1) {
            let t0 = a.index_of(e1);
            assert(0 <= t0 < a.tables@.len());
            assert(b.entry(t0, vpn0(va)) == a.entry(t0, vpn0(va)));
        }
    }
}

impl PageTables {
    /// Read entry `i` of table `t`.
    pub fn get_entry(&self, t: usize, i: usize) -> (e: u64)
        requires
            self.wf(),
            t < self.tables@.len(),
            i < ENTRIES,
        ensures
            e == self.entry(t as int, i as int),
    {
        self.tables[t][i]
    }

    /// Write entry `i` of table `t`.
    fn set_entry(&mut self, t: usize, i: usize, v: u64)
        requires
            t < old(self).tables@.len(),
            i < old(self).tables@[t as int]@.len(),
        ensures
            final(self).base == old(self).base,
            final(self).tables@.len() == old(self).tables@.len(),
            final(self).tables@[t as int]@ == old(self).tables@[t as int]@.update(i as int, v),
            forall|u: int| 0 <= u < old(self).tables@.len() && u != t ==> #[trigger] final(self).tables@[u] == old(self).tables@[u],
    {
        let mut tb = self.tables[t].clone();
        assert(tb@ =~= old(self).tables@[t as int]@);
        tb.set(i, v);
        self.tables.set(t, tb);
    }
}

/// An entry's address is a whole page: 4096 times its page number modulo 2^52.
pub proof fn lemma_target_page(e: u64)
    ensures
        target(e) == 4096 * (((e / 1024) as int) % 0x10_0000_0000_0000),
{
    let q = (e / 1024) as int;
    vstd::arithmetic::div_mod::lemma_mod_breakdown(4096 * q, 4096, 0x10_0000_0000_0000);
    vstd::arithmetic::div_mod::lemma_div_multiples_vanish(q, 4096);
    vstd::arithmetic::div_mod::lemma_mod_multiples_basic(q, 4096);
}

/// A pointer entry's table: its address is `base + 4096 * index`, and it is
/// not the root.
pub proof fn lemma_index_target(a: PageTables, t: int, i: int)
    requires
        a.wf(),
        0 <= t < a.tables@.len(),
        0 <= i < ENTRIES,
        pointer(a.entry(t, i)),
    ensures
        target(a.entry(t, i)) == a.base + 4096 * a.index_of(a.entry(t, i)),
        1 <= a.index_of(a.entry(t, i)) < a.tables@.len(),
{
    let e = a.entry(t, i);
    let q = (e / 1024) as int;
    let k = (a.base / 4096) as int;
    let m = q % 0x10_0000_0000_0000;
    assert(a.base == 4096 * k);
    lemma_target_page(e);
    assert(target(e) - a.base == 4096 * (m - k));
    vstd::arithmetic::div_mod::lemma_div_multiples_vanish(m - k, 4096);
}

/// Two pointers with the same table index are one and the same entry.
pub proof fn lemma_same_index(a: PageTables, t: int, i: int, u: int, j: int)
    requires
        a.wf(),
        0 <= t < a.tables@.len(),
        0 <= i < ENTRIES,
        0 <= u < a.tables@.len(),
        0 <= j < ENTRIES,
        pointer(a.entry(t, i)),
        pointer(a.entry(u, j)),
        a.index_of(a.entry(t, i)) == a.index_of(a.entry(u, j)),
    ensures
        t == u && i == j,
{
    lemma_index_target(a, t, i);
    lemma_index_target(a, u, j);
}

/// Only the walks through root entry `i2` read entry `i1` of the table it
/// points to, and they read it as their second step.
pub proof fn lemma_reads_l1_slot(a: PageTables, i2: int, i1: int, va: u64)
    requires
        a.wf(),
        0 <= i2 < ENTRIES,
        0 <= i1 < ENTRIES,
        pointer(a.entry(0, i2)),
        a.reads(va, a.index_of(a.entry(0, i2)), i1),
    ensures
        vpn2(va) == i2 && vpn1(va) == i1,
{
    let t1 = a.index_of(a.entry(0, i2));
    lemma_index_target(a, 0, i2);
    let e2 = a.entry(0, vpn2(va));
    if pointer(e2) {
        lemma_index_target(a, 0, vpn2(va));
        let e1 = a.entry(a.index_of(e2), vpn1(va));
        if t1 == a.index_of(e2) && i1 == vpn1(va) {
            lemma_same_index(a, 0, i2, 0, vpn2(va));
        } else if pointer(e1) && t1 == a.index_of(e1) {
            lemma_same_index(a, 0, i2, a.index_of(e2), vpn1(va));
        }
    }
}

/// Only the walks through root entry `i2` and then entry `i1` read entry
/// `i0` of the table that one points to, as their third step.
pub proof fn lemma_reads_l0_slot(a: PageTables, i2: int, i1: int, i0: int, va: u64)
    requires
        a.wf(),
        0 <= i2 < ENTRIES,
        0 <= i1 < ENTRIES,
        0 <= i0 < ENTRIES,
        pointer(a.entry(0, i2)),
        pointer(a.entry(a.index_of(a.entry(0, i2)), i1)),
        a.reads(va, a.index_of(a.entry(a.index_of(a.entry(0, i2)), i1)), i0),
    ensures
        vpn2(va) == i2 && vpn1(va) == i1 && vpn0(va) == i0,
{
    let t1 = a.index_of(a.entry(0, i2));
    lemma_index_target(a, 0, i2);
    lemma_index_target(a, t1, i1);
    let t0 = a.index_of(a.entry(t1, i1));
    let e2 = a.entry(0, vpn2(va));
    if pointer(e2) {
        lemma_index_target(a, 0, vpn2(va));
        let t1b = a.index_of(e2);
        let e1 = a.entry(t1b, vpn1(va));
        if t0 == t1b && i0 == vpn1(va) {
            lemma_same_index(a, t1, i1, 0, vpn2(va));
        } else if pointer(e1) && t0 == a.index_of(e1) {
            lemma_same_index(a, t1, i1, t1b, vpn1(va));
            lemma_same_index(a, 0, i2, 0, vpn2(va));
        }
    }
}

/// Writing an entry that points nowhere keeps the tables well formed.
pub proof fn lemma_wf_write_nonpointer(a: PageTables, b: PageTables, t: int, i: int)
    requires
        a.wf(),
        agree_except(a, b, t, i),
        b.tables@.len() == a.tables@.len(),
        forall|u: int| 0 <= u < b.tables@.len() ==> (#[trigger] b.tables@[u])@.len() == ENTRIES,
        0 <= t < a.tables@.len(),
        0 <= i < ENTRIES,
        !pointer(b.entry(t, i)),
    ensures
        b.wf(),
{
    assert forall|u: int, j: int|
        0 <= u < b.tables@.len() && 0 <= j < ENTRIES && pointer(#[trigger] b.entry(u, j)) implies b.base + 4096 <= target(
            b.entry(u, j),
        ) < b.base + 4096 * b.tables@.len() by {
        assert(b.entry(u, j) == a.entry(u, j));
    }
    assert forall|u: int, j: int, v: int, k: int|
        0 <= u < b.tables@.len() && 0 <= j < ENTRIES && 0 <= v < b.tables@.len() && 0 <= k < ENTRIES && pointer(
            #[trigger] b.entry(u, j),
        ) && pointer(#[trigger] b.entry(v, k)) && target(b.entry(u, j)) == target(b.entry(v, k)) implies u == v && j == k by {
        assert(b.entry(u, j) == a.entry(u, j));
        assert(b.entry(v, k) == a.entry(v, k));
    }
}

/// Writing a pointer to a table that nothing else points to keeps the
/// tables well formed.
pub proof fn lemma_wf_write_fresh_pointer(a: PageTables, b: PageTables, t: int, i: int)
    requires
        a.wf(),
        agree_except(a, b, t, i),
        b.tables@.len() == a.tables@.len(),
        forall|u: int| 0 <= u < b.tables@.len() ==> (#[trigger] b.tables@[u])@.len() == ENTRIES,
        0 <= t < a.tables@.len(),
        0 <= i < ENTRIES,
        pointer(b.entry(t, i)),
        a.base + 4096 <= target(b.entry(t, i)) < a.base + 4096 * a.tables@.len(),
        forall|u: int, j: int|
            0 <= u < a.tables@.len() && 0 <= j < ENTRIES && !(u == t && j == i) && pointer(#[trigger] a.entry(u, j))
                ==> target(a.entry(u, j)) != target(b.entry(t, i)),
    ensures
        b.wf(),
{
    assert forall|u: int, j: int|
        0 <= u < b.tables@.len() && 0 <= j < ENTRIES && pointer(#[trigger] b.entry(u, j)) implies b.base + 4096 <= target(
            b.entry(u, j),
        ) < b.base + 4096 * b.tables@.len() by {
        if !(u == t && j == i) {
            assert(b.entry(u, j) == a.entry(u, j));
        }
    }
    assert forall|u: int, j: int, v: int, k: int|
        0 <= u < b.tables@.len() && 0 <= j < ENTRIES && 0 <= v < b.tables@.len() && 0 <= k < ENTRIES && pointer(
            #[trigger] b.entry(u, j),
        ) && pointer(#[trigger] b.entry(v, k)) && target(b.entry(u, j)) == target(b.entry(v, k)) implies u == v && j == k by {
        if !(u == t && j == i) {
            assert(b.entry(u, j) == a.entry(u, j));
        }
        if !(v == t && k == i) {
            assert(b.entry(v, k) == a.entry(v, k));
        }
    }
}

/// The entry that points to the table at `pa`.
pub open spec fn ptr_entry(pa: int) -> u64 {
    ((pa / 4096) * 1024 + 1) as u64
}

/// The leaf entry that maps the page of `x` with `flags`.
pub open spec fn leaf_entry(x: int, flags: int) -> u64 {
    ((x / 4096) * 1024 + flags) as u64
}

pub proof fn lemma_ptr_entry(pa: int)
    requires
        0 <= pa < TABLE_LIMIT,
        pa % 4096 == 0,
    ensures
        pointer(ptr_entry(pa)),
        target(ptr_entry(pa)) == pa,
{
    let q = pa / 4096;
    assert(ptr_entry(pa) == q * 1024 + 1);
    assert((q * 1024 + 1) / 1024 == q) by (nonlinear_arith)
        requires
            q >= 0,
    ;
    assert(((q * 1024 + 1) / 2) % 8 == 0) by (nonlinear_arith)
        requires
            q >= 0,
    ;
}

pub proof fn lemma_leaf_entry(x: int, flags: int)
    requires
        0 <= x <= u64::MAX,
        0 <= flags < 1024,
    ensures
        target(leaf_entry(x, flags)) == x / 4096 * 4096,
        flags_of(leaf_entry(x, flags)) == flags,
        valid(leaf_entry(x, flags)) == (flags % 2 == 1),
        leaf(leaf_entry(x, flags)) == ((flags / 2) % 8 != 0),
{
    let q = x / 4096;
    assert(leaf_entry(x, flags) == q * 1024 + flags);
    assert((q * 1024 + flags) / 1024 == q) by (nonlinear_arith)
        requires
            q >= 0,
            0 <= flags < 1024,
    ;
    assert((q * 1024 + flags) % 1024 == flags) by (nonlinear_arith)
        requires
            q >= 0,
            0 <= flags < 1024,
    ;
    assert((q * 1024 + flags) % 2 == flags % 2) by (nonlinear_arith)
        requires
            q >= 0,
            0 <= flags < 1024,
    ;
    assert(((q * 1024 + flags) / 2) % 8 == (flags / 2) % 8) by (nonlinear_arith)
        requires
            q >= 0,
            0 <= flags < 1024,
    ;
}

/// `pte_ppn(pa) | PTE_V`: the entry pointing to the table at `pa`.
fn make_ptr_entry(pa: u64) -> (e: u64)
    requires
        pa % 4096 == 0,
        pa < TABLE_LIMIT,
    ensures
        e == ptr_entry(pa as int),
{
    let p = pte_ppn(pa);
    assert(p % 1024 == 0 ==> p | 1u64 == p + 1) by (bit_vector);
    assert(p == (pa / 4096) * 1024);
    assert(p % 1024 == 0) by (nonlinear_arith)
        requires
            p == (pa / 4096) * 1024,
    ;
    p | PTE_V
}

/// `pte_ppn(x) | flags`: the leaf mapping the page of `x`.
fn make_leaf_entry(x: u64, flags: u64) -> (e: u64)
    requires
        flags < 1024,
    ensures
        e == leaf_entry(x as int, flags as int),
{
    let p = pte_ppn(x);
    assert(p % 1024 == 0 && flags < 1024 ==> p | flags == p + flags) by (bit_vector);
    assert(p % 1024 == 0) by (nonlinear_arith)
        requires
            p == (x / 4096) * 1024,
    ;
    p | flags
}

/// `x mod 2^21`, rounded down to a page, is the page's index within its 2 MiB block.
pub proof fn lemma_page_in_block(x: u64)
    ensures
        (x % 0x20_0000) as int / 4096 * 4096 == vpn0(x) * 4096,
{
    vstd::arithmetic::div_mod::lemma_mod_breakdown(x as int, 4096, 512);
    assert((x % 0x20_0000) as int == 4096 * (((x / 4096) as int) % 512) + (x % 4096) as int);
    let a = ((x / 4096) as int) % 512;
    let b = (x % 4096) as int;
    assert((4096 * a + b) / 4096 == a) by (nonlinear_arith)
        requires
            0 <= b < 4096,
            a >= 0,
    ;
}

/// Whether a 2 MiB leaf lies wholly below 2^64 (its 4 KiB pages can be named).
pub open spec fn block_in_range(e: u64) -> bool {
    target(e) + 0x20_0000 <= 0x1_0000_0000_0000_0000
}

impl PageTables {
    /// Append a table with these entries (none a pointer); its address.
    fn push_table(&mut self, tbl: Vec<u64>) -> (pa: u64)
        requires
            old(self).wf(),
            tbl@.len() == ENTRIES,
            forall|k: int| 0 <= k < ENTRIES ==> !pointer(#[trigger] tbl@[k]),
            old(self).base + 4096 * (old(self).tables@.len() + 1) <= TABLE_LIMIT,
        ensures
            final(self).wf(),
            final(self).base == old(self).base,
            final(self).tables@ == old(self).tables@.push(tbl),
            pa == old(self).base + 4096 * old(self).tables@.len(),
    {
        let pa = self.base + 4096 * (self.tables.len() as u64);
        self.tables.push(tbl);
        proof {
            let n = old(self).tables@.len() as int;
            assert forall|t: int, i: int|
                0 <= t < self.tables@.len() && 0 <= i < ENTRIES && pointer(#[trigger] self.entry(t, i)) implies self.base + 4096
                    <= target(self.entry(t, i)) < self.base + 4096 * self.tables@.len() by {
                if t < n {
                    assert(self.entry(t, i) == old(self).entry(t, i));
                } else {
                    assert(self.entry(t, i) == tbl@[i]);
                }
            }
            assert forall|t: int, i: int, u: int, j: int|
                0 <= t < self.tables@.len() && 0 <= i < ENTRIES && 0 <= u < self.tables@.len() && 0 <= j < ENTRIES
                    && pointer(#[trigger] self.entry(t, i)) && pointer(#[trigger] self.entry(u, j)) && target(self.entry(t, i))
                    == target(self.entry(u, j)) implies t == u && i == j by {
                if t == n {
                    assert(self.entry(t, i) == tbl@[i]);
                }
                if u == n {
                    assert(self.entry(u, j) == tbl@[j]);
                }
                assert(self.entry(t, i) == old(self).entry(t, i));
                assert(self.entry(u, j) == old(self).entry(u, j));
            }
        }
        pa
    }

    /// Make entry `i1` of table `t1` (the table root entry `i2` points to)
    /// point to a 4 KiB table: a 2 MiB leaf becomes a table of 512 leaves
    /// with its flags over the same memory; an invalid entry gets an empty
    /// table; a pointer stays as it is.
    fn split_2m_to_4k(&mut self, t1: usize, i1: usize, Ghost(i2): Ghost<int>)
        requires
            old(self).wf(),
            0 <= i2 < ENTRIES,
            pointer(old(self).entry(0, i2)),
            old(self).index_of(old(self).entry(0, i2)) == t1,
            i1 < ENTRIES,
            old(self).base + 4096 * (old(self).tables@.len() + 1) <= TABLE_LIMIT,
        ensures
            final(self).wf(),
            final(self).base == old(self).base,
            old(self).tables@.len() <= final(self).tables@.len() <= old(self).tables@.len() + 1,
            agree_except(*old(self), *final(self), t1 as int, i1 as int),
            pointer(final(self).entry(t1 as int, i1 as int)),
            forall|va: u64|
                !(vpn2(va) == i2 && vpn1(va) == i1) || !(valid(old(self).entry(t1 as int, i1 as int)) && leaf(
                    old(self).entry(t1 as int, i1 as int),
                )) || block_in_range(old(self).entry(t1 as int, i1 as int)) ==> #[trigger] final(self).walk(va) == old(
                    self,
                ).walk(va),
    {
        let pte = self.get_entry(t1, i1);
        let (is_valid, is_leaf) = entry_kind(pte);
        if !is_valid {
            self.split_invalid(t1, i1, Ghost(i2));
        } else if is_leaf {
            self.split_leaf(t1, i1, Ghost(i2));
        } else {
            assert(pointer(pte));
        }
    }

    /// An invalid entry gets an empty table.
    fn split_invalid(&mut self, t1: usize, i1: usize, Ghost(i2): Ghost<int>)
        requires
            old(self).wf(),
            0 <= i2 < ENTRIES,
            pointer(old(self).entry(0, i2)),
            old(self).index_of(old(self).entry(0, i2)) == t1,
            i1 < ENTRIES,
            !valid(old(self).entry(t1 as int, i1 as int)),
            old(self).base + 4096 * (old(self).tables@.len() + 1) <= TABLE_LIMIT,
        ensures
            final(self).wf(),
            final(self).base == old(self).base,
            old(self).tables@.len() <= final(self).tables@.len() <= old(self).tables@.len() + 1,
            agree_except(*old(self), *final(self), t1 as int, i1 as int),
            pointer(final(self).entry(t1 as int, i1 as int)),
            forall|va: u64|
                !(vpn2(va) == i2 && vpn1(va) == i1) || !(valid(old(self).entry(t1 as int, i1 as int)) && leaf(
                    old(self).entry(t1 as int, i1 as int),
                )) || block_in_range(old(self).entry(t1 as int, i1 as int)) ==> #[trigger] final(self).walk(va) == old(
                    self,
                ).walk(va),
    {
        proof {
            lemma_index_target(*old(self), 0, i2);
        }
        let pa = self.alloc_table();
        let ghost s1 = *self;
        let e = make_ptr_entry(pa);
        self.set_entry(t1, i1, e);
        proof {
            lemma_ptr_entry(pa as int);
            assert(agree_except(s1, *self, t1 as int, i1 as int));
            assert forall|u: int, j: int|
                0 <= u < s1.tables@.len() && 0 <= j < ENTRIES && !(u == t1 && j == i1) && pointer(#[trigger] s1.entry(u, j))
                    implies target(s1.entry(u, j)) != target(self.entry(t1 as int, i1 as int)) by {
                if u < old(self).tables@.len() {
                    assert(s1.entry(u, j) == old(self).entry(u, j));
                }
            }
            lemma_wf_write_fresh_pointer(s1, *self, t1 as int, i1 as int);
            assert forall|va: u64| true implies #[trigger] self.walk(va) == old(self).walk(va) by {
                lemma_walk_frame(*old(self), s1, -1, -1, va);
                if vpn2(va) == i2 && vpn1(va) == i1 {
                    lemma_index_target(*self, t1 as int, i1 as int);
                } else {
                    if s1.reads(va, t1 as int, i1 as int) {
                        lemma_reads_l1_slot(s1, i2, i1 as int, va);
                    }
                    lemma_walk_frame(s1, *self, t1 as int, i1 as int, va);
                }
            }
        }
    }

    /// A 2 MiB leaf becomes a table of 512 leaves over the same memory.
    #[verifier::rlimit(50)]
    #[verifier::spinoff_prover]
    fn split_leaf(&mut self, t1: usize, i1: usize, Ghost(i2): Ghost<int>)
        requires
            old(self).wf(),
            0 <= i2 < ENTRIES,
            pointer(old(self).entry(0, i2)),
            old(self).index_of(old(self).entry(0, i2)) == t1,
            i1 < ENTRIES,
            valid(old(self).entry(t1 as int, i1 as int)),
            leaf(old(self).entry(t1 as int, i1 as int)),
            old(self).base + 4096 * (old(self).tables@.len() + 1) <= TABLE_LIMIT,
        ensures
            final(self).wf(),
            final(self).base == old(self).base,
            old(self).tables@.len() <= final(self).tables@.len() <= old(self).tables@.len() + 1,
            agree_except(*old(self), *final(self), t1 as int, i1 as int),
            pointer(final(self).entry(t1 as int, i1 as int)),
            forall|va: u64|
                !(vpn2(va) == i2 && vpn1(va) == i1) || !(valid(old(self).entry(t1 as int, i1 as int)) && leaf(
                    old(self).entry(t1 as int, i1 as int),
                )) || block_in_range(old(self).entry(t1 as int, i1 as int)) ==> #[trigger] final(self).walk(va) == old(
                    self,
                ).walk(va),
    {
        proof {
            lemma_index_target(*old(self), 0, i2);
        }
        let pte = self.get_entry(t1, i1);
        let base = (pte >> 10u64) << 12u64;
        let flags = pte & 0x3FF;
        assert(((pte >> 10u64) << 12u64) as int == ((pte / 1024) as int * 4096) % 0x1_0000_0000_0000_0000) by (bit_vector);
        assert(pte & 0x3FFu64 == pte % 1024) by (bit_vector);
        let mut tbl: Vec<u64> = Vec::new();
        let mut k: u64 = 0;
        while k < 512
            invariant
                k <= 512,
                tbl@.len() == k,
                base as int == target(pte),
                flags == pte % 1024,
                flags % 2 == 1,
                (flags / 2) % 8 != 0,
                forall|q: int| 0 <= q < k ==> #[trigger] tbl@[q] == leaf_entry(base.wrapping_add((q * 4096) as u64) as int, flags as int),
            decreases 512 - k,
        {
            let e = make_leaf_entry(base.wrapping_add(k * 4096), flags);
            tbl.push(e);
            k = k + 1;
        }
        assert forall|q: int| 0 <= q < ENTRIES implies !pointer(#[trigger] tbl@[q]) by {
            lemma_leaf_entry(base.wrapping_add((q * 4096) as u64) as int, flags as int);
        }
        let pa = self.push_table(tbl);
        let ghost s1 = *self;
        let e = make_ptr_entry(pa);
        self.set_entry(t1, i1, e);
        proof {
            lemma_ptr_entry(pa as int);
            let n = old(self).tables@.len() as int;
            assert(agree_except(s1, *self, t1 as int, i1 as int));
            assert forall|u: int, j: int|
                0 <= u < s1.tables@.len() && 0 <= j < ENTRIES && !(u == t1 && j == i1) && pointer(#[trigger] s1.entry(u, j))
                    implies target(s1.entry(u, j)) != target(self.entry(t1 as int, i1 as int)) by {
                if u < n {
                    assert(s1.entry(u, j) == old(self).entry(u, j));
                } else {
                    assert(s1.entry(u, j) == tbl@[j]);
                }
            }
            lemma_wf_write_fresh_pointer(s1, *self, t1 as int, i1 as int);
            assert(agree_except(*old(self), s1, -1, -1));
            assert forall|va: u64|
                !(vpn2(va) == i2 && vpn1(va) == i1) || !(valid(old(self).entry(t1 as int, i1 as int)) && leaf(
                    old(self).entry(t1 as int, i1 as int),
                )) || block_in_range(old(self).entry(t1 as int, i1 as int)) implies #[trigger] self.walk(va) == old(self).walk(va) by {
                lemma_walk_frame(*old(self), s1, -1, -1, va);
                if vpn2(va) == i2 && vpn1(va) == i1 {
                    lemma_index_target(*self, t1 as int, i1 as int);
                    assert(self.index_of(self.entry(t1 as int, i1 as int)) == n);
                    let x = base.wrapping_add((vpn0(va) * 4096) as u64);
                    assert(self.entry(n, vpn0(va)) == tbl@[vpn0(va)]);
                    lemma_leaf_entry(x as int, flags as int);
                    lemma_page_in_block(va);
                    assert(base + vpn0(va) * 4096 < 0x1_0000_0000_0000_0000);
                    assert(x == base + vpn0(va) * 4096);
                    assert(x as int / 4096 * 4096 == x) by (nonlinear_arith)
                        requires
                            x == base + vpn0(va) * 4096,
                            base as int == target(pte),
                            target(pte) % 4096 == 0,
                    {
                        lemma_target_page(pte);
                    }
                } else {
                    if s1.reads(va, t1 as int, i1 as int) {
                        lemma_reads_l1_slot(s1, i2, i1 as int, va);
                    }
                    lemma_walk_frame(s1, *self, t1 as int, i1 as int, va);
                }
            }
        }
    }
}

/// Only the walks through root entry `i2` read it.
pub proof fn lemma_reads_root_slot(a: PageTables, i2: int, va: u64)
    requires
        a.wf(),
        0 <= i2 < ENTRIES,
        a.reads(va, 0, i2),
    ensures
        vpn2(va) == i2,
{
    let e2 = a.entry(0, vpn2(va));
    if pointer(e2) {
        lemma_index_target(a, 0, vpn2(va));
        let e1 = a.entry(a.index_of(e2), vpn1(va));
        if pointer(e1) {
            lemma_index_target(a, a.index_of(e2), vpn1(va));
        }
    }
}

/// The 4 KiB page `va` lies in, as Sv39 indexes it.
pub open spec fn page_of(va: u64) -> (int, int, int) {
    (vpn2(va), vpn1(va), vpn0(va))
}

/// Mapping a page of `va` leaves the other pages of its 2 MiB block as they
/// were: the block is not a leaf reaching past 2^64.
pub open spec fn split_safe(pt: PageTables, va: u64) -> bool {
    let e2 = pt.entry(0, vpn2(va));
    pointer(e2) ==> {
        let e1 = pt.entry(pt.index_of(e2), vpn1(va));
        valid(e1) && leaf(e1) ==> block_in_range(e1)
    }
}

/// The 2 MiB block of `v` has been split: the root entry and the entry below
/// it are both pointers.
pub open spec fn l1_pointer(pt: PageTables, v: u64) -> bool {
    pointer(pt.entry(0, vpn2(v))) && pointer(pt.entry(pt.index_of(pt.entry(0, vpn2(v))), vpn1(v)))
}

/// A change to an entry that is neither the root entry of `v` nor the one
/// below it leaves both as they were.
pub proof fn lemma_block_entries_stable(a: PageTables, b: PageTables, t: int, i: int, v: u64)
    requires
        a.wf(),
        agree_except(a, b, t, i),
        !(t == 0 && i == vpn2(v)),
        pointer(a.entry(0, vpn2(v))) ==> !(t == a.index_of(a.entry(0, vpn2(v))) && i == vpn1(v)),
    ensures
        b.entry(0, vpn2(v)) == a.entry(0, vpn2(v)),
        pointer(a.entry(0, vpn2(v))) ==> b.entry(b.index_of(b.entry(0, vpn2(v))), vpn1(v)) == a.entry(
            a.index_of(a.entry(0, vpn2(v))),
            vpn1(v),
        ),
        l1_pointer(b, v) == l1_pointer(a, v),
        split_safe(b, v) == split_safe(a, v),
{
    if pointer(a.entry(0, vpn2(v))) {
        lemma_index_target(a, 0, vpn2(v));
    }
}

/// `va` lies in a 1 GiB leaf.
pub open spec fn in_gigapage(pt: PageTables, va: u64) -> bool {
    valid(pt.entry(0, vpn2(va))) && leaf(pt.entry(0, vpn2(va)))
}

/// `v` and `va` lie in the same 2 MiB block.
pub open spec fn same_block(v: u64, va: u64) -> bool {
    vpn2(v) == vpn2(va) && vpn1(v) == vpn1(va)
}

/// `b` is `a` with the 4 KiB page of `va` mapped to itself with `flags`:
/// every other page translates as before (inside the block of `va` only if
/// that block is safe to split), the block of `va` is split, and the other
/// blocks stay split, or safe to split, as they were.
pub open spec fn maps_page(a: PageTables, b: PageTables, va: u64, flags: u64) -> bool {
    &&& forall|v: u64|
        page_of(v) == page_of(va) ==> #[trigger] b.walk(v) == Some(((va / 4096 * 4096) as int, flags as int))
    &&& forall|v: u64|
        page_of(v) != page_of(va) && (split_safe(a, va) || !same_block(v, va)) ==> #[trigger] b.walk(v) == a.walk(v)
    &&& l1_pointer(b, va)
    &&& forall|v: u64| !same_block(v, va) && l1_pointer(a, v) ==> #[trigger] l1_pointer(b, v)
    &&& forall|v: u64| !same_block(v, va) && split_safe(a, v) ==> #[trigger] split_safe(b, v)
}

/// Once the leaf is written, every address of the page of `va` translates to it.
proof fn lemma_map_4k_page(s3: PageTables, va: u64, flags: u64, i2: int, i1: int, t1: int, t0: int)
    requires
        s3.wf(),
        leaf_flags(flags),
        i2 == vpn2(va),
        i1 == vpn1(va),
        pointer(s3.entry(0, i2)),
        s3.index_of(s3.entry(0, i2)) == t1,
        pointer(s3.entry(t1, i1)),
        s3.index_of(s3.entry(t1, i1)) == t0,
        s3.entry(t0, vpn0(va)) == leaf_entry(va as int, flags as int),
    ensures
        forall|v: u64|
            page_of(v) == page_of(va) ==> #[trigger] s3.walk(v) == Some(((va / 4096 * 4096) as int, flags as int)),
        l1_pointer(s3, va),
{
    lemma_leaf_entry(va as int, flags as int);
}

/// The steps of `map_4k` leave the translations of the blocks other than
/// that of `va` as they were.
#[verifier::rlimit(60)]
#[verifier::spinoff_prover]
proof fn lemma_map_4k_other_walks(
    s0: PageTables,
    s1: PageTables,
    s2: PageTables,
    s3: PageTables,
    i2: int,
    i1: int,
    t1: int,
    t0: int,
    i0: int,
)
    requires
        s0.wf(),
        s1.wf(),
        s2.wf(),
        s3.wf(),
        0 <= i2 < ENTRIES,
        0 <= i1 < ENTRIES,
        0 <= i0 < ENTRIES,
        forall|w: u64| #[trigger] s1.walk(w) == s0.walk(w),
        valid(s0.entry(0, i2)) ==> s1 == s0,
        !valid(s0.entry(0, i2)) ==> forall|w: u64| vpn2(w) != i2 ==> #[trigger] l1_pointer(s1, w) == l1_pointer(s0, w),
        !valid(s0.entry(0, i2)) ==> forall|w: u64| vpn2(w) != i2 ==> #[trigger] split_safe(s1, w) == split_safe(s0, w),
        !valid(s0.entry(0, i2)) ==> forall|w: u64| vpn2(w) == i2 ==> #[trigger] split_safe(s1, w),
        pointer(s1.entry(0, i2)),
        s1.index_of(s1.entry(0, i2)) == t1,
        agree_except(s1, s2, t1, i1),
        pointer(s2.entry(t1, i1)),
        s2.index_of(s2.entry(t1, i1)) == t0,
        forall|w: u64| !(vpn2(w) == i2 && vpn1(w) == i1) ==> #[trigger] s2.walk(w) == s1.walk(w),
        agree_except(s2, s3, t0, i0),
    ensures
        forall|v: u64| !(vpn2(v) == i2 && vpn1(v) == i1) ==> #[trigger] s3.walk(v) == s0.walk(v),
{
    assert forall|v: u64| !(vpn2(v) == i2 && vpn1(v) == i1) implies #[trigger] s3.walk(v) == s0.walk(v) by {
        s3.lemma_steps_keep_block(s0, s1, s2, i2, i1, t1, t0, i0, v);
    }
}

/// The steps of `map_4k` keep the blocks other than that of `va` split.
#[verifier::rlimit(60)]
#[verifier::spinoff_prover]
proof fn lemma_map_4k_other_split(
    s0: PageTables,
    s1: PageTables,
    s2: PageTables,
    s3: PageTables,
    i2: int,
    i1: int,
    t1: int,
    t0: int,
    i0: int,
)
    requires
        s0.wf(),
        s1.wf(),
        s2.wf(),
        s3.wf(),
        0 <= i2 < ENTRIES,
        0 <= i1 < ENTRIES,
        0 <= i0 < ENTRIES,
        forall|w: u64| #[trigger] s1.walk(w) == s0.walk(w),
        valid(s0.entry(0, i2)) ==> s1 == s0,
        !valid(s0.entry(0, i2)) ==> forall|w: u64| vpn2(w) != i2 ==> #[trigger] l1_pointer(s1, w) == l1_pointer(s0, w),
        !valid(s0.entry(0, i2)) ==> forall|w: u64| vpn2(w) != i2 ==> #[trigger] split_safe(s1, w) == split_safe(s0, w),
        !valid(s0.entry(0, i2)) ==> forall|w: u64| vpn2(w) == i2 ==> #[trigger] split_safe(s1, w),
        pointer(s1.entry(0, i2)),
        s1.index_of(s1.entry(0, i2)) == t1,
        agree_except(s1, s2, t1, i1),
        pointer(s2.entry(t1, i1)),
        s2.index_of(s2.entry(t1, i1)) == t0,
        forall|w: u64| !(vpn2(w) == i2 && vpn1(w) == i1) ==> #[trigger] s2.walk(w) == s1.walk(w),
        agree_except(s2, s3, t0, i0),
    ensures
        forall|v: u64| !(vpn2(v) == i2 && vpn1(v) == i1) && l1_pointer(s0, v) ==> #[trigger] l1_pointer(s3, v),
{
    assert forall|v: u64| !(vpn2(v) == i2 && vpn1(v) == i1) && l1_pointer(s0, v) implies #[trigger] l1_pointer(s3, v) by {
        s3.lemma_steps_keep_block(s0, s1, s2, i2, i1, t1, t0, i0, v);
    }
}

/// The steps of `map_4k` keep the blocks other than that of `va` safe to split.
#[verifier::rlimit(60)]
#[verifier::spinoff_prover]
proof fn lemma_map_4k_other_safe(
    s0: PageTables,
    s1: PageTables,
    s2: PageTables,
    s3: PageTables,
    i2: int,
    i1: int,
    t1: int,
    t0: int,
    i0: int,
)
    requires
        s0.wf(),
        s1.wf(),
        s2.wf(),
        s3.wf(),
        0 <= i2 < ENTRIES,
        0 <= i1 < ENTRIES,
        0 <= i0 < ENTRIES,
        forall|w: u64| #[trigger] s1.walk(w) == s0.walk(w),
        valid(s0.entry(0, i2)) ==> s1 == s0,
        !valid(s0.entry(0, i2)) ==> forall|w: u64| vpn2(w) != i2 ==> #[trigger] l1_pointer(s1, w) == l1_pointer(s0, w),
        !valid(s0.entry(0, i2)) ==> forall|w: u64| vpn2(w) != i2 ==> #[trigger] split_safe(s1, w) == split_safe(s0, w),
        !valid(s0.entry(0, i2)) ==> forall|w: u64| vpn2(w) == i2 ==> #[trigger] split_safe(s1, w),
        pointer(s1.entry(0, i2)),
        s1.index_of(s1.entry(0, i2)) == t1,
        agree_except(s1, s2, t1, i1),
        pointer(s2.entry(t1, i1)),
        s2.index_of(s2.entry(t1, i1)) == t0,
        forall|w: u64| !(vpn2(w) == i2 && vpn1(w) == i1) ==> #[trigger] s2.walk(w) == s1.walk(w),
        agree_except(s2, s3, t0, i0),
    ensures
        forall|v: u64| !(vpn2(v) == i2 && vpn1(v) == i1) && split_safe(s0, v) ==> #[trigger] split_safe(s3, v),
{
    assert forall|v: u64| !(vpn2(v) == i2 && vpn1(v) == i1) && split_safe(s0, v) implies #[trigger] split_safe(s3, v) by {
        s3.lemma_steps_keep_block(s0, s1, s2, i2, i1, t1, t0, i0, v);
    }
}

/// When the block of `va` is safe to split, the steps of `map_4k` leave
/// every page but that of `va` as it was.
proof fn lemma_map_4k_block(s0: PageTables, s1: PageTables, s2: PageTables, s3: PageTables, va: u64, t1: int, t0: int)
    requires
        s0.wf(),
        s1.wf(),
        s2.wf(),
        s3.wf(),
        split_safe(s0, va),
        forall|w: u64| #[trigger] s1.walk(w) == s0.walk(w),
        valid(s0.entry(0, vpn2(va))) ==> s1 == s0,
        !valid(s0.entry(0, vpn2(va))) ==> s1.entry(t1, vpn1(va)) == 0,
        pointer(s1.entry(0, vpn2(va))),
        s1.index_of(s1.entry(0, vpn2(va))) == t1,
        forall|w: u64|
            !(vpn2(w) == vpn2(va) && vpn1(w) == vpn1(va)) || !(valid(s1.entry(t1, vpn1(va))) && leaf(
                s1.entry(t1, vpn1(va)),
            )) || block_in_range(s1.entry(t1, vpn1(va))) ==> #[trigger] s2.walk(w) == s1.walk(w),
        agree_except(s1, s2, t1, vpn1(va)),
        pointer(s2.entry(t1, vpn1(va))),
        s2.index_of(s2.entry(t1, vpn1(va))) == t0,
        agree_except(s2, s3, t0, vpn0(va)),
    ensures
        forall|v: u64| page_of(v) != page_of(va) ==> #[trigger] s3.walk(v) == s0.walk(v),
{
    lemma_index_target(s1, 0, vpn2(va));
    assert(s2.entry(0, vpn2(va)) == s1.entry(0, vpn2(va)));
    let e1 = s1.entry(t1, vpn1(va));
    assert(!(valid(e1) && leaf(e1)) || block_in_range(e1));
    assert forall|v: u64| page_of(v) != page_of(va) implies #[trigger] s3.walk(v) == s0.walk(v) by {
        if s2.reads(v, t0, vpn0(va)) {
            lemma_reads_l0_slot(s2, vpn2(va), vpn1(va), vpn0(va), v);
        }
        lemma_walk_frame(s2, s3, t0, vpn0(va), v);
        assert(s2.walk(v) == s1.walk(v));
        assert(s1.walk(v) == s0.walk(v));
    }
}

impl PageTables {
    /// Map the 1 GiB page of `va` with `flags`: root entry `vpn2(va)` becomes
    /// a leaf at the page of `va`.
    pub fn map_1g(&mut self, va: u64, flags: u64)
        requires
            old(self).wf(),
            leaf_flags(flags),
        ensures
            final(self).wf(),
            final(self).base == old(self).base,
            final(self).tables@.len() == old(self).tables@.len(),
            agree_except(*old(self), *final(self), 0, vpn2(va)),
            final(self).entry(0, vpn2(va)) == leaf_entry(va as int, flags as int),
            forall|v: u64| vpn2(v) == vpn2(va) ==> #[trigger] final(self).walk(v) == Some(
                (va / 4096 * 4096 + (v % 0x4000_0000) as int / 4096 * 4096, flags as int),
            ),
            forall|v: u64| vpn2(v) != vpn2(va) ==> #[trigger] final(self).walk(v) == old(self).walk(v),
    {
        let (i2, _, _) = vpn_indexes(va);
        let e = make_leaf_entry(va, flags);
        self.set_entry(0, i2, e);
        proof {
            lemma_leaf_entry(va as int, flags as int);
            assert(agree_except(*old(self), *self, 0, i2 as int));
            lemma_wf_write_nonpointer(*old(self), *self, 0, i2 as int);
            assert forall|v: u64| vpn2(v) != vpn2(va) implies #[trigger] self.walk(v) == old(self).walk(v) by {
                if old(self).reads(v, 0, i2 as int) {
                    lemma_reads_root_slot(*old(self), i2 as int, v);
                }
                lemma_walk_frame(*old(self), *self, 0, i2 as int, v);
            }
        }
    }
}

impl PageTables {
    /// The table a pointer entry leads to.
    fn table_index(&self, t: usize, i: usize) -> (r: usize)
        requires
            self.wf(),
            t < self.tables@.len(),
            i < ENTRIES,
            pointer(self.entry(t as int, i as int)),
        ensures
            r == self.index_of(self.entry(t as int, i as int)),
            1 <= r < self.tables@.len(),
    {
        proof {
            lemma_index_target(*self, t as int, i as int);
        }
        let e = self.tables[t][i];
        assert(e == self.entry(t as int, i as int));
        let pa = (e >> 10u64) << 12u64;
        assert(((e >> 10u64) << 12u64) as int == ((e / 1024) as int * 4096) % 0x1_0000_0000_0000_0000) by (bit_vector);
        assert((pa - self.base) as int == 4096 * self.index_of(e));
        proof {
            vstd::arithmetic::div_mod::lemma_div_multiples_vanish(self.index_of(e), 4096);
        }
        let q: u64 = (pa - self.base) / 4096;
        assert(q as int == self.index_of(e));
        assert(q < self.tables.len());
        q as usize
    }

    /// Map the 4 KiB page of `va` to itself with `flags`, first splitting a
    /// 2 MiB leaf over it into 4 KiB leaves; inside a 1 GiB leaf nothing
    /// changes.
    #[verifier::rlimit(40)]
    pub fn map_4k(&mut self, va: u64, flags: u64)
        requires
            old(self).wf(),
            leaf_flags(flags),
            old(self).base + 4096 * (old(self).tables@.len() + 2) <= TABLE_LIMIT,
        ensures
            final(self).wf(),
            final(self).base == old(self).base,
            final(self).tables@.len() <= old(self).tables@.len() + 2,
            in_gigapage(*old(self), va) ==> *final(self) == *old(self),
            !in_gigapage(*old(self), va) ==> maps_page(*old(self), *final(self), va, flags),
            keeps_gigapages(*old(self), *final(self)),
    {
        proof {
            reveal(keeps_gigapages);
        }
        let (i2, i1, i0) = vpn_indexes(va);
        let e2 = self.get_entry(0, i2);
        let (is_valid, is_leaf) = entry_kind(e2);
        let ghost s0 = *self;
        if !is_valid {
            self.point_root_to_new_table(i2);
        } else if is_leaf {
            return;
        }
        let ghost s1 = *self;
        proof {
            lemma_index_target(s1, 0, i2 as int);
        }
        let t1 = self.table_index(0, i2);
        self.split_2m_to_4k(t1, i1, Ghost(i2 as int));
        let ghost s2 = *self;
        proof {
            assert(s2.entry(0, i2 as int) == s1.entry(0, i2 as int));
            lemma_index_target(s2, t1 as int, i1 as int);
        }
        let t0 = self.table_index(t1, i1);
        proof {
            if t0 == t1 {
                lemma_same_index(s2, 0, i2 as int, t1 as int, i1 as int);
            }
        }
        let e = make_leaf_entry(va, flags);
        self.set_entry(t0, i0, e);
        proof {
            lemma_leaf_entry(va as int, flags as int);
            assert(agree_except(s2, *self, t0 as int, i0 as int));
            lemma_wf_write_nonpointer(s2, *self, t0 as int, i0 as int);
            assert(self.entry(0, i2 as int) == s2.entry(0, i2 as int));
            assert(self.entry(t1 as int, i1 as int) == s2.entry(t1 as int, i1 as int));
            lemma_map_4k_page(*self, va, flags, i2 as int, i1 as int, t1 as int, t0 as int);
            assert forall|w: u64| #[trigger] s1.walk(w) == s0.walk(w) by {
            }
            lemma_map_4k_other_walks(s0, s1, s2, *self, i2 as int, i1 as int, t1 as int, t0 as int, i0 as int);
            lemma_map_4k_other_split(s0, s1, s2, *self, i2 as int, i1 as int, t1 as int, t0 as int, i0 as int);
            lemma_map_4k_other_safe(s0, s1, s2, *self, i2 as int, i1 as int, t1 as int, t0 as int, i0 as int);
            if split_safe(s0, va) {
                lemma_map_4k_block(s0, s1, s2, *self, va, t1 as int, t0 as int);
            }
            reveal(keeps_gigapages);
            assert forall|v: u64| #[trigger] in_gigapage(*self, v) == in_gigapage(s0, v) by {
                if vpn2(v) != i2 {
                    assert(self.entry(0, vpn2(v)) == s2.entry(0, vpn2(v)));
                    assert(s2.entry(0, vpn2(v)) == s1.entry(0, vpn2(v)));
                    assert(s1.entry(0, vpn2(v)) == s0.entry(0, vpn2(v)));
                }
            }
        }
    }

    /// Root entry `i2` (invalid) points to a new empty table; no translation changes.
    fn point_root_to_new_table(&mut self, i2: usize)
        requires
            old(self).wf(),
            i2 < ENTRIES,
            !valid(old(self).entry(0, i2 as int)),
            old(self).base + 4096 * (old(self).tables@.len() + 1) <= TABLE_LIMIT,
        ensures
            final(self).wf(),
            final(self).base == old(self).base,
            final(self).tables@.len() == old(self).tables@.len() + 1,
            pointer(final(self).entry(0, i2 as int)),
            final(self).index_of(final(self).entry(0, i2 as int)) == old(self).tables@.len(),
            forall|j: int| 0 <= j < ENTRIES ==> #[trigger] final(self).entry(old(self).tables@.len() as int, j) == 0,
            agree_except(*old(self), *final(self), 0, i2 as int),
            forall|v: u64| #[trigger] final(self).walk(v) == old(self).walk(v),
            forall|v: u64| vpn2(v) != i2 ==> #[trigger] l1_pointer(*final(self), v) == l1_pointer(*old(self), v),
            forall|v: u64| vpn2(v) != i2 ==> #[trigger] split_safe(*final(self), v) == split_safe(*old(self), v),
            forall|v: u64| vpn2(v) == i2 ==> #[trigger] split_safe(*final(self), v),
    {
        let ghost s0 = *self;
        let pa = self.alloc_table();
        let ghost sa = *self;
        let e = make_ptr_entry(pa);
        self.set_entry(0, i2, e);
        proof {
            lemma_ptr_entry(pa as int);
            assert forall|u: int, j: int|
                0 <= u < sa.tables@.len() && 0 <= j < ENTRIES && !(u == 0 && j == i2) && pointer(#[trigger] sa.entry(u, j))
                    implies target(sa.entry(u, j)) != target(self.entry(0, i2 as int)) by {
                if u < s0.tables@.len() {
                    assert(sa.entry(u, j) == s0.entry(u, j));
                }
            }
            lemma_wf_write_fresh_pointer(sa, *self, 0, i2 as int);
            let n = s0.tables@.len() as int;
            lemma_index_target(*self, 0, i2 as int);
            assert(self.index_of(self.entry(0, i2 as int)) == n);
            assert(self.tables@[n] == sa.tables@[n]);
            assert forall|j: int| 0 <= j < ENTRIES implies #[trigger] self.entry(n, j) == 0 by {
                assert(sa.entry(n, j) == 0);
            }
            assert forall|v: u64| true implies #[trigger] self.walk(v) == s0.walk(v) by {
                lemma_walk_frame(s0, sa, -1, -1, v);
                if vpn2(v) == i2 {
                    assert(self.entry(n, vpn1(v)) == 0);
                } else {
                    if sa.reads(v, 0, i2 as int) {
                        lemma_reads_root_slot(sa, i2 as int, v);
                    }
                    lemma_walk_frame(sa, *self, 0, i2 as int, v);
                }
            }
            assert forall|v: u64|
                #![trigger l1_pointer(*self, v)]
                #![trigger split_safe(*self, v)]
                vpn2(v) != i2 implies l1_pointer(*self, v) == l1_pointer(s0, v) && split_safe(
                *self,
                v,
            ) == split_safe(s0, v) by {
                lemma_block_entries_stable(s0, sa, -1, -1, v);
                if pointer(sa.entry(0, vpn2(v))) {
                    lemma_index_target(sa, 0, vpn2(v));
                }
                lemma_block_entries_stable(sa, *self, 0, i2 as int, v);
            }
            assert forall|v: u64| vpn2(v) == i2 implies #[trigger] split_safe(*self, v) by {
                assert(self.entry(n, vpn1(v)) == 0);
            }
            assert(agree_except(s0, *self, 0, i2 as int));
        }
    }

    /// The root-entry step, the split and the leaf write of `map_4k` keep the
    /// root entry of another 2 MiB block, and the entry below it, as they were.
    proof fn lemma_steps_keep_block(
        &self,
        s0: PageTables,
        s1: PageTables,
        s2: PageTables,
        i2: int,
        i1: int,
        t1: int,
        t0: int,
        i0: int,
        v: u64,
    )
        requires
            s0.wf(),
            s1.wf(),
            s2.wf(),
            0 <= i2 < ENTRIES,
            0 <= i1 < ENTRIES,
            0 <= i0 < ENTRIES,
            !(vpn2(v) == i2 && vpn1(v) == i1),
            valid(s0.entry(0, i2)) ==> s1 == s0,
            !valid(s0.entry(0, i2)) && vpn2(v) != i2 ==> l1_pointer(s1, v) == l1_pointer(s0, v) && split_safe(s1, v)
                == split_safe(s0, v),
            !valid(s0.entry(0, i2)) && vpn2(v) == i2 ==> split_safe(s1, v),
            s1.walk(v) == s0.walk(v),
            pointer(s1.entry(0, i2)),
            s1.index_of(s1.entry(0, i2)) == t1,
            agree_except(s1, s2, t1, i1),
            pointer(s2.entry(t1, i1)),
            s2.index_of(s2.entry(t1, i1)) == t0,
            s2.walk(v) == s1.walk(v),
            agree_except(s2, *self, t0, i0),
        ensures
            self.walk(v) == s0.walk(v),
            l1_pointer(s0, v) ==> l1_pointer(*self, v),
            split_safe(s0, v) ==> split_safe(*self, v),
    {
        lemma_index_target(s1, 0, i2);
        assert(s2.entry(0, i2) == s1.entry(0, i2));
        if s2.reads(v, t0, i0) {
            lemma_reads_l0_slot(s2, i2, i1, i0, v);
        }
        lemma_walk_frame(s2, *self, t0, i0, v);
        if pointer(s1.entry(0, vpn2(v))) {
            lemma_index_target(s1, 0, vpn2(v));
            if s1.index_of(s1.entry(0, vpn2(v))) == t1 {
                lemma_same_index(s1, 0, i2, 0, vpn2(v));
            }
        }
        lemma_block_entries_stable(s1, s2, t1, i1, v);
        lemma_index_target(s2, 0, i2);
        lemma_index_target(s2, t1, i1);
        if pointer(s2.entry(0, vpn2(v))) {
            lemma_index_target(s2, 0, vpn2(v));
            if s2.index_of(s2.entry(0, vpn2(v))) == t0 {
                lemma_same_index(s2, t1, i1, 0, vpn2(v));
            }
        }
        lemma_block_entries_stable(s2, *self, t0, i0, v);
        if !valid(s0.entry(0, i2)) && vpn2(v) == i2 {
            assert(split_safe(s1, v));
        }
    }
}

/// Sv39 translates the low 39 bits of an address (512 GiB).
pub const SV39_SPAN: u64 = 0x80_0000_0000;

/// Below 2^39, two addresses share a page exactly when they share a page number.
pub proof fn lemma_low_pages(v: u64, w: u64)
    requires
        v < SV39_SPAN,
        w < SV39_SPAN,
    ensures
        (page_of(v) == page_of(w)) == (v / 4096 == w / 4096),
{
    assert(v < 0x80_0000_0000u64 && w < 0x80_0000_0000u64 ==> (((v / 0x4000_0000) % 512 == (w / 0x4000_0000) % 512
        && (v / 0x20_0000) % 512 == (w / 0x20_0000) % 512 && (v / 0x1000) % 512 == (w / 0x1000) % 512) == (v / 4096
        == w / 4096))) by (bit_vector);
}

/// Every address of the page at `q` rounds down to `q`.
pub proof fn lemma_page_base(v: u64, q: u64)
    requires
        q % 4096 == 0,
        q <= v,
        v < q + 4096,
    ensures
        v / 4096 * 4096 == q,
        v / 4096 == q / 4096,
{
    assert(q % 4096 == 0 && q <= v && v < q + 4096 ==> v / 4096 * 4096 == q && v / 4096 == q / 4096) by (bit_vector);
}

/// The addresses of `[start, addr)` outside 1 GiB leaves translate to themselves with `flags`.
#[verifier::opaque]
pub open spec fn maps_range(s0: PageTables, s: PageTables, start: u64, addr: u64, flags: u64) -> bool {
    forall|v: u64|
        start <= v < addr && !in_gigapage(s0, v) ==> #[trigger] s.walk(v) == Some(((v / 4096 * 4096) as int, flags as int))
}

/// The blocks of `[start, addr)` outside 1 GiB leaves are split.
#[verifier::opaque]
pub open spec fn splits_range(s0: PageTables, s: PageTables, start: u64, addr: u64) -> bool {
    forall|v: u64| start <= v < addr && !in_gigapage(s0, v) ==> #[trigger] l1_pointer(s, v)
}

/// Below 2^39, the addresses outside `[start, addr)` (or in 1 GiB leaves)
/// whose block was safe to split translate as in `s0`.
#[verifier::opaque]
pub open spec fn keeps_outside(s0: PageTables, s: PageTables, start: u64, addr: u64) -> bool {
    forall|v: u64|
        v < SV39_SPAN && (!(start <= v < addr) || in_gigapage(s0, v)) && split_safe(s0, v) ==> #[trigger] s.walk(v)
            == s0.walk(v)
}

/// Blocks safe to split in `s0` are safe to split in `s`.
#[verifier::opaque]
pub open spec fn keeps_safe(s0: PageTables, s: PageTables) -> bool {
    forall|v: u64| #[trigger] split_safe(s0, v) ==> split_safe(s, v)
}

/// The 1 GiB leaves of `s` are those of `s0`.
#[verifier::opaque]
pub open spec fn keeps_gigapages(s0: PageTables, s: PageTables) -> bool {
    forall|v: u64| #[trigger] in_gigapage(s, v) == in_gigapage(s0, v)
}

/// A split block is safe to split, and the addresses of one block agree on both.
pub proof fn lemma_block_facts(s: PageTables, v: u64, q: u64)
    requires
        same_block(v, q),
    ensures
        l1_pointer(s, v) == l1_pointer(s, q),
        split_safe(s, v) == split_safe(s, q),
        in_gigapage(s, v) == in_gigapage(s, q),
        l1_pointer(s, q) ==> split_safe(s, q),
{
}

/// One step of `map_pages`: mapping the page at `q` extends the mapped range by it.
proof fn lemma_map_pages_step(s0: PageTables, s: PageTables, s2: PageTables, start: u64, q: u64, flags: u64)
    requires
        q % 4096 == 0,
        start <= q,
        q + 4096 <= SV39_SPAN,
        keeps_gigapages(s0, s),
        keeps_safe(s0, s),
        maps_range(s0, s, start, q, flags),
        splits_range(s0, s, start, q),
        keeps_outside(s0, s, start, q),
        keeps_gigapages(s, s2),
        in_gigapage(s, q) ==> s2 == s,
        !in_gigapage(s, q) ==> maps_page(s, s2, q, flags),
    ensures
        keeps_gigapages(s0, s2),
        keeps_safe(s0, s2),
        maps_range(s0, s2, start, (q + 4096) as u64, flags),
        splits_range(s0, s2, start, (q + 4096) as u64),
        keeps_outside(s0, s2, start, (q + 4096) as u64),
{
    lemma_map_4k_keeps(s0, s, s2, q, flags);
    lemma_map_pages_range(s0, s, s2, start, q, flags);
    lemma_map_pages_outside(s0, s, s2, start, q, flags);
}

/// Mapping the page at `q` after `[start, q)` leaves `[start, q + 4096)` mapped and split.
proof fn lemma_map_pages_range(s0: PageTables, s: PageTables, s2: PageTables, start: u64, q: u64, flags: u64)
    requires
        q % 4096 == 0,
        start <= q,
        q + 4096 <= SV39_SPAN,
        keeps_gigapages(s0, s),
        maps_range(s0, s, start, q, flags),
        splits_range(s0, s, start, q),
        in_gigapage(s, q) ==> s2 == s,
        !in_gigapage(s, q) ==> maps_page(s, s2, q, flags),
    ensures
        maps_range(s0, s2, start, (q + 4096) as u64, flags),
        splits_range(s0, s2, start, (q + 4096) as u64),
{
    reveal(maps_range);
    reveal(splits_range);
    reveal(keeps_gigapages);
    let e = (q + 4096) as u64;
    assert forall|v: u64| start <= v < e && !in_gigapage(s0, v) implies #[trigger] s2.walk(v) == Some(
        ((v / 4096 * 4096) as int, flags as int),
    ) && l1_pointer(s2, v) by {
        assert(in_gigapage(s, v) == in_gigapage(s0, v));
        lemma_low_pages(v, q);
        if q <= v {
            lemma_page_base(v, q);
            lemma_block_facts(s, v, q);
            lemma_block_facts(s2, v, q);
        } else {
            assert(v / 4096 < q / 4096) by (nonlinear_arith)
                requires
                    v < q,
                    q % 4096 == 0,
            ;
            if same_block(v, q) {
                lemma_block_facts(s, v, q);
                lemma_block_facts(s2, v, q);
            }
        }
    }
}

/// Mapping the page at `q` leaves the addresses outside `[start, q + 4096)` as they were.
proof fn lemma_map_pages_outside(s0: PageTables, s: PageTables, s2: PageTables, start: u64, q: u64, flags: u64)
    requires
        q % 4096 == 0,
        start <= q,
        q + 4096 <= SV39_SPAN,
        keeps_gigapages(s0, s),
        keeps_safe(s0, s),
        keeps_outside(s0, s, start, q),
        in_gigapage(s, q) ==> s2 == s,
        !in_gigapage(s, q) ==> maps_page(s, s2, q, flags),
    ensures
        keeps_outside(s0, s2, start, (q + 4096) as u64),
{
    reveal(keeps_outside);
    reveal(keeps_safe);
    reveal(keeps_gigapages);
    let e = (q + 4096) as u64;
    assert forall|v: u64| v < SV39_SPAN && (!(start <= v < e) || in_gigapage(s0, v)) && split_safe(s0, v) implies #[trigger] s2.walk(
        v,
    ) == s0.walk(v) by {
        assert(in_gigapage(s, v) == in_gigapage(s0, v));
        assert(split_safe(s, v));
        lemma_low_pages(v, q);
        if same_block(v, q) {
            lemma_block_facts(s, v, q);
        }
        if start <= v < e {
            assert(in_gigapage(s, v));
        } else if v >= e {
            assert(v / 4096 > q / 4096) by (nonlinear_arith)
                requires
                    v >= q + 4096,
                    q % 4096 == 0,
            ;
        } else {
            assert(v / 4096 < q / 4096) by (nonlinear_arith)
                requires
                    v < q,
                    q % 4096 == 0,
            ;
        }
    }
}

/// Mapping a page keeps the 1 GiB leaves and the blocks safe to split.
proof fn lemma_map_4k_keeps(s0: PageTables, s: PageTables, s2: PageTables, q: u64, flags: u64)
    requires
        keeps_gigapages(s0, s),
        keeps_safe(s0, s),
        keeps_gigapages(s, s2),
        in_gigapage(s, q) ==> s2 == s,
        !in_gigapage(s, q) ==> maps_page(s, s2, q, flags),
    ensures
        keeps_gigapages(s0, s2),
        keeps_safe(s0, s2),
{
    reveal(keeps_safe);
    reveal(keeps_gigapages);
    assert forall|v: u64| #[trigger] split_safe(s0, v) implies split_safe(s2, v) by {
        if !in_gigapage(s, q) && same_block(v, q) {
            lemma_block_facts(s2, v, q);
        }
    }
}

impl PageTables {
    /// Map each page from `start` to `end` to itself with `flags`.
    fn map_pages(&mut self, start: u64, end: u64, flags: u64)
        requires
            old(self).wf(),
            leaf_flags(flags),
            start % 4096 == 0,
            end % 4096 == 0,
            start <= end,
            old(self).base + 4096 * (old(self).tables@.len() + 2 * ((end - start) / 4096)) <= TABLE_LIMIT,
        ensures
            final(self).wf(),
            final(self).base == old(self).base,
            keeps_gigapages(*old(self), *final(self)),
            keeps_safe(*old(self), *final(self)),
            end <= SV39_SPAN ==> maps_range(*old(self), *final(self), start, end, flags),
            end <= SV39_SPAN ==> keeps_outside(*old(self), *final(self), start, end),
    {
        let ghost s0 = *self;
        let mut addr = start;
        proof {
            reveal(keeps_gigapages);
            reveal(keeps_safe);
            reveal(maps_range);
            reveal(splits_range);
            reveal(keeps_outside);
        }
        while addr < end
            invariant
                s0.wf(),
                self.wf(),
                self.base == s0.base,
                leaf_flags(flags),
                start <= addr <= end,
                start % 4096 == 0,
                addr % 4096 == 0,
                end % 4096 == 0,
                self.tables@.len() <= s0.tables@.len() + 2 * ((addr - start) / 4096),
                s0.base + 4096 * (s0.tables@.len() + 2 * ((end - start) / 4096)) <= TABLE_LIMIT,
                keeps_gigapages(s0, *self),
                keeps_safe(s0, *self),
                end <= SV39_SPAN ==> maps_range(s0, *self, start, addr, flags),
                end <= SV39_SPAN ==> splits_range(s0, *self, start, addr),
                end <= SV39_SPAN ==> keeps_outside(s0, *self, start, addr),
            decreases end - addr,
        {
            let ghost s = *self;
            proof {
                assert((addr - start) / 4096 + 1 <= (end - start) / 4096) by (nonlinear_arith)
                    requires
                        start <= addr < end,
                        (addr - start) % 4096 == 0,
                        (end - start) % 4096 == 0,
                ;
                assert(2 * ((addr - start) / 4096) + 2 == 2 * ((addr - start) / 4096 + 1));
            }
            self.map_4k(addr, flags);
            proof {
                if end <= SV39_SPAN {
                    lemma_map_pages_step(s0, s, *self, start, addr, flags);
                } else {
                    lemma_map_4k_keeps(s0, s, *self, addr, flags);
                }
                assert((addr + 4096 - start) / 4096 == (addr - start) / 4096 + 1) by (nonlinear_arith)
                    requires
                        start <= addr,
                ;
            }
            addr = addr + 4096;
        }
    }
}

/// Below 2^39, two addresses share a 2 MiB block exactly when they share a block number.
pub proof fn lemma_low_blocks(v: u64, w: u64)
    requires
        v < SV39_SPAN,
        w < SV39_SPAN,
    ensures
        same_block(v, w) == (v / 0x20_0000 == w / 0x20_0000),
{
    assert(v < 0x80_0000_0000u64 && w < 0x80_0000_0000u64 ==> (((v / 0x4000_0000) % 512 == (w / 0x4000_0000) % 512
        && (v / 0x20_0000) % 512 == (w / 0x20_0000) % 512) == (v / 0x20_0000 == w / 0x20_0000))) by (bit_vector);
}

/// The number of 2 MiB steps that cover `size` bytes.
pub open spec fn blocks(size: u64) -> int {
    (size as int + 0x1F_FFFF) / 0x20_0000
}

/// The address of the `j`-th 2 MiB step from `va`.
pub open spec fn block_addr(va: u64, j: int) -> u64 {
    (va + j * 0x20_0000) as u64
}

/// `v` lies in one of the first `n` 2 MiB blocks from the block of `va`.
pub open spec fn in_blocks(v: u64, va: u64, n: int) -> bool {
    va / 0x20_0000 <= v / 0x20_0000 < va / 0x20_0000 + n
}

/// What `v` translates to once the blocks from `va` are 2 MiB leaves with
/// `flags`: the block `j` steps on maps `va + j * 2 MiB`.
pub open spec fn block_walk(va: u64, v: u64, flags: u64) -> Option<(int, int)> {
    Some(
        (
            (va + (v / 0x20_0000 - va / 0x20_0000) * 0x20_0000) / 4096 * 4096 + (v % 0x20_0000) as int / 4096 * 4096,
            flags as int,
        ),
    )
}

impl PageTables {
    /// Make the 2 MiB block of `addr` a leaf at `addr` with `flags`, giving
    /// its root entry a table if it has none.
    fn map_2m(&mut self, addr: u64, flags: u64)
        requires
            old(self).wf(),
            leaf_flags(flags),
            !in_gigapage(*old(self), addr),
            old(self).base + 4096 * (old(self).tables@.len() + 1) <= TABLE_LIMIT,
        ensures
            final(self).wf(),
            final(self).base == old(self).base,
            final(self).tables@.len() <= old(self).tables@.len() + 1,
            keeps_gigapages(*old(self), *final(self)),
            forall|v: u64| same_block(v, addr) ==> #[trigger] final(self).walk(v) == Some(
                ((addr / 4096 * 4096) as int + (v % 0x20_0000) as int / 4096 * 4096, flags as int),
            ),
            forall|v: u64| !same_block(v, addr) ==> #[trigger] final(self).walk(v) == old(self).walk(v),
    {
        let (i2, i1, _) = vpn_indexes(addr);
        let e2 = self.get_entry(0, i2);
        let (is_valid, _) = entry_kind(e2);
        let ghost s0 = *self;
        if !is_valid {
            self.point_root_to_new_table(i2);
        }
        let ghost s1 = *self;
        proof {
            lemma_index_target(s1, 0, i2 as int);
        }
        let t1 = self.table_index(0, i2);
        let e = make_leaf_entry(addr, flags);
        self.set_entry(t1, i1, e);
        proof {
            lemma_leaf_entry(addr as int, flags as int);
            assert(agree_except(s1, *self, t1 as int, i1 as int));
            lemma_wf_write_nonpointer(s1, *self, t1 as int, i1 as int);
            assert(self.entry(0, i2 as int) == s1.entry(0, i2 as int));
            assert forall|v: u64| same_block(v, addr) implies #[trigger] self.walk(v) == Some(
                ((addr / 4096 * 4096) as int + (v % 0x20_0000) as int / 4096 * 4096, flags as int),
            ) by {
            }
            assert forall|v: u64| !same_block(v, addr) implies #[trigger] self.walk(v) == s0.walk(v) by {
                if s1.reads(v, t1 as int, i1 as int) {
                    lemma_reads_l1_slot(s1, i2 as int, i1 as int, v);
                }
                lemma_walk_frame(s1, *self, t1 as int, i1 as int, v);
            }
            reveal(keeps_gigapages);
            assert forall|v: u64| #[trigger] in_gigapage(*self, v) == in_gigapage(s0, v) by {
                if vpn2(v) != i2 {
                    assert(self.entry(0, vpn2(v)) == s1.entry(0, vpn2(v)));
                    assert(s1.entry(0, vpn2(v)) == s0.entry(0, vpn2(v)));
                }
            }
        }
    }

    /// Map `size` bytes at `va` as 2 MiB leaves with `flags`, one block per
    /// 2 MiB step from `va`.
    pub fn map_2m_range(&mut self, va: u64, size: u64, flags: u64)
        requires
            old(self).wf(),
            leaf_flags(flags),
            va + size + 0x20_0000 <= u64::MAX,
            forall|j: int| 0 <= j < blocks(size) ==> !#[trigger] in_gigapage(*old(self), block_addr(va, j)),
            old(self).base + 4096 * (old(self).tables@.len() + blocks(size)) <= TABLE_LIMIT,
        ensures
            final(self).wf(),
            final(self).base == old(self).base,
            final(self).tables@.len() <= old(self).tables@.len() + blocks(size),
            keeps_gigapages(*old(self), *final(self)),
            va + size <= SV39_SPAN ==> forall|v: u64|
                v < SV39_SPAN && in_blocks(v, va, blocks(size)) ==> #[trigger] final(self).walk(v) == block_walk(va, v, flags),
            va + size <= SV39_SPAN ==> forall|v: u64|
                v < SV39_SPAN && !in_blocks(v, va, blocks(size)) ==> #[trigger] final(self).walk(v) == old(self).walk(v),
    {
        let ghost s0 = *self;
        let end = va + size;
        let mut addr = va;
        let ghost mut j: int = 0;
        proof {
            reveal(keeps_gigapages);
        }
        while addr < end
            invariant
                s0.wf(),
                self.wf(),
                self.base == s0.base,
                leaf_flags(flags),
                end == va + size,
                va + size + 0x20_0000 <= u64::MAX,
                0 <= j <= blocks(size),
                addr == va + j * 0x20_0000,
                self.tables@.len() <= s0.tables@.len() + j,
                s0.base + 4096 * (s0.tables@.len() + blocks(size)) <= TABLE_LIMIT,
                forall|k: int| 0 <= k < blocks(size) ==> !#[trigger] in_gigapage(s0, block_addr(va, k)),
                keeps_gigapages(s0, *self),
                va + size <= SV39_SPAN ==> forall|v: u64|
                    v < SV39_SPAN && in_blocks(v, va, j) ==> #[trigger] self.walk(v) == block_walk(va, v, flags),
                va + size <= SV39_SPAN ==> forall|v: u64|
                    v < SV39_SPAN && !in_blocks(v, va, j) ==> #[trigger] self.walk(v) == s0.walk(v),
            decreases blocks(size) - j,
        {
            proof {
                assert(j < blocks(size)) by (nonlinear_arith)
                    requires
                        j * 0x20_0000 < size,
                        j >= 0,
                ;
                assert(addr == block_addr(va, j));
                reveal(keeps_gigapages);
                assert(!in_gigapage(s0, addr));
            }
            let ghost s = *self;
            self.map_2m(addr, flags);
            proof {
                reveal(keeps_gigapages);
                assert forall|v: u64| #[trigger] in_gigapage(*self, v) == in_gigapage(s0, v) by {
                    assert(in_gigapage(*self, v) == in_gigapage(s, v));
                }
                if va + size <= SV39_SPAN {
                    assert(addr / 0x20_0000 == va / 0x20_0000 + j) by (nonlinear_arith)
                        requires
                            addr == va + j * 0x20_0000,
                            j >= 0,
                    ;
                    assert forall|v: u64| v < SV39_SPAN && in_blocks(v, va, j + 1) implies #[trigger] self.walk(v) == block_walk(
                        va,
                        v,
                        flags,
                    ) by {
                        lemma_low_blocks(v, addr);
                        if same_block(v, addr) {
                            assert(v / 0x20_0000 - va / 0x20_0000 == j);
                        } else {
                            assert(in_blocks(v, va, j));
                            assert(s.walk(v) == block_walk(va, v, flags));
                        }
                    }
                    assert forall|v: u64| v < SV39_SPAN && !in_blocks(v, va, j + 1) implies #[trigger] self.walk(v) == s0.walk(v) by {
                        lemma_low_blocks(v, addr);
                        assert(s.walk(v) == s0.walk(v));
                    }
                }
            }
            addr = addr + 0x20_0000;
            proof {
                j = j + 1;
            }
        }
        proof {
            assert(j >= blocks(size)) by (nonlinear_arith)
                requires
                    j * 0x20_0000 >= size,
                    j >= 0,
            ;
        }
    }
}

/// Where a user range of `size` bytes at `pa` starts: `pa` rounded down to a page.
pub open spec fn range_start(pa: u64) -> u64 {
    (pa - pa % 4096) as u64
}

/// Where a user range of `size` bytes at `pa` ends: `pa + size` rounded up to a page.
pub open spec fn range_end(pa: u64, size: u64) -> u64 {
    ((pa + size + 4095) - (pa + size + 4095) % 4096) as u64
}

/// What the kernel's tables translate `v` to: the first 1 GiB (MMIO) and
/// 512 MiB of DRAM at 1 GiB and at 2 GiB map to themselves as kernel memory;
/// nothing else is mapped.
pub open spec fn kernel_walk(v: u64) -> Option<(int, int)> {
    if v < 0x6000_0000 || (0x8000_0000 <= v && v < 0xA000_0000) {
        Some(((v / 4096 * 4096) as int, KERNEL_LEAF as int))
    } else {
        None
    }
}

/// A run of 2 MiB leaves from an aligned `va` maps each address to itself.
pub proof fn lemma_block_walk_aligned(va: u64, v: u64, flags: u64)
    requires
        va % 0x20_0000 == 0,
    ensures
        block_walk(va, v, flags) == Some(((v / 4096 * 4096) as int, flags as int)),
{
    let a = (va / 0x20_0000) as int;
    let b = (v / 0x20_0000) as int;
    let r = (v % 0x20_0000) as int;
    assert(va as int == a * 0x20_0000);
    assert(v as int == b * 0x20_0000 + r);
    assert(va + (b - a) * 0x20_0000 == b * 0x20_0000) by (nonlinear_arith)
        requires
            va as int == a * 0x20_0000,
    ;
    assert((b * 0x20_0000) / 4096 * 4096 == b * 0x20_0000) by (nonlinear_arith);
    assert((v as int) / 4096 * 4096 == b * 0x20_0000 + r / 4096 * 4096) by (nonlinear_arith)
        requires
            v as int == b * 0x20_0000 + r,
            0 <= r < 0x20_0000,
            b >= 0,
    ;
}

/// The 2 MiB steps of 512 MiB from 1 GiB, or from 2 GiB, stay in that gigabyte.
pub proof fn lemma_dram_steps(g: u64, j: int)
    requires
        g == 1 || g == 2,
        0 <= j < 256,
    ensures
        vpn2(block_addr((g * 0x4000_0000) as u64, j)) == g,
        block_addr((g * 0x4000_0000) as u64, j) == g * 0x4000_0000 + j * 0x20_0000,
{
    let x = g * 0x4000_0000 + j * 0x20_0000;
    assert(x / 0x4000_0000 == g as int) by (nonlinear_arith)
        requires
            x == g * 0x4000_0000 + j * 0x20_0000,
            0 <= j < 256,
    ;
}

impl PageTables {
    /// Overlay 4 KiB user pages on the range of `size` bytes at `pa`.
    pub fn map_user(&mut self, pa: u64, size: u64)
        requires
            old(self).wf(),
            pa + size + PAGE_SIZE - 1 <= u64::MAX,
            old(self).base + 4096 * (old(self).tables@.len() + 2 * ((range_end(pa, size) - range_start(pa)) / 4096))
                <= TABLE_LIMIT,
        ensures
            final(self).wf(),
            final(self).base == old(self).base,
            keeps_gigapages(*old(self), *final(self)),
            keeps_safe(*old(self), *final(self)),
            range_end(pa, size) <= SV39_SPAN ==> maps_range(
                *old(self),
                *final(self),
                range_start(pa),
                range_end(pa, size),
                USER_LEAF,
            ),
            range_end(pa, size) <= SV39_SPAN ==> keeps_outside(
                *old(self),
                *final(self),
                range_start(pa),
                range_end(pa, size),
            ),
    {
        let (start, end) = user_page_range(pa, size);
        self.map_pages(start, end, USER_LEAF);
    }

    /// Give the range of `size` bytes at `pa` back to the kernel: its pages
    /// map to themselves as kernel memory again.
    pub fn unmap_user(&mut self, pa: u64, size: u64)
        requires
            old(self).wf(),
            pa + size + PAGE_SIZE - 1 <= u64::MAX,
            old(self).base + 4096 * (old(self).tables@.len() + 2 * ((range_end(pa, size) - range_start(pa)) / 4096))
                <= TABLE_LIMIT,
        ensures
            final(self).wf(),
            final(self).base == old(self).base,
            keeps_gigapages(*old(self), *final(self)),
            keeps_safe(*old(self), *final(self)),
            range_end(pa, size) <= SV39_SPAN ==> maps_range(
                *old(self),
                *final(self),
                range_start(pa),
                range_end(pa, size),
                KERNEL_LEAF,
            ),
            range_end(pa, size) <= SV39_SPAN ==> keeps_outside(
                *old(self),
                *final(self),
                range_start(pa),
                range_end(pa, size),
            ),
    {
        let (start, end) = user_page_range(pa, size);
        self.map_pages(start, end, KERNEL_LEAF);
    }

    /// The kernel's tables, at `base`: the first 1 GiB (MMIO) as one leaf,
    /// and 512 MiB of DRAM at 1 GiB and at 2 GiB as 2 MiB leaves, all mapped
    /// to themselves as kernel memory.
    pub fn init(base: u64) -> (pt: Self)
        requires
            base % 4096 == 0,
            base + 4096 * 513 <= TABLE_LIMIT,
        ensures
            pt.wf(),
            pt.base == base,
            forall|v: u64| v < SV39_SPAN ==> #[trigger] pt.walk(v) == kernel_walk(v),
    {
        let mut pt = PageTables::new(base);
        let ghost s0 = pt;
        pt.map_1g(0, KERNEL_LEAF);
        let ghost s1 = pt;
        proof {
            assert forall|j: int| 0 <= j < blocks(0x2000_0000) implies !#[trigger] in_gigapage(s1, block_addr(0x4000_0000, j)) by {
                lemma_dram_steps(1, j);
            }
        }
        pt.map_2m_range(0x4000_0000, 0x2000_0000, KERNEL_LEAF);
        let ghost s2 = pt;
        proof {
            reveal(keeps_gigapages);
            assert forall|j: int| 0 <= j < blocks(0x2000_0000) implies !#[trigger] in_gigapage(s2, block_addr(0x8000_0000, j)) by {
                lemma_dram_steps(2, j);
                assert(in_gigapage(s2, block_addr(0x8000_0000, j)) == in_gigapage(s1, block_addr(0x8000_0000, j)));
            }
        }
        pt.map_2m_range(0x8000_0000, 0x2000_0000, KERNEL_LEAF);
        proof {
            assert forall|v: u64| v < SV39_SPAN implies #[trigger] pt.walk(v) == kernel_walk(v) by {
                assert(s0.entry(0, vpn2(v)) == 0);
                if v < 0x4000_0000 {
                    assert(vpn2(v) == 0);
                    assert(v % 0x4000_0000 == v);
                    assert(!in_blocks(v, 0x4000_0000, 256));
                    assert(!in_blocks(v, 0x8000_0000, 256));
                } else if v < 0x6000_0000 {
                    assert(in_blocks(v, 0x4000_0000, 256));
                    lemma_block_walk_aligned(0x4000_0000, v, KERNEL_LEAF);
                    assert(!in_blocks(v, 0x8000_0000, 256));
                } else if 0x8000_0000 <= v && v < 0xA000_0000 {
                    assert(in_blocks(v, 0x8000_0000, 256));
                    lemma_block_walk_aligned(0x8000_0000, v, KERNEL_LEAF);
                } else {
                    assert(vpn2(v) != 0);
                    assert(!in_blocks(v, 0x4000_0000, 256));
                    assert(!in_blocks(v, 0x8000_0000, 256));
                }
            }
        }
        pt
    }
}

} // verus!
