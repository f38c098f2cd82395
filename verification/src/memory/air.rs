//! What an access to memory declares: that it comes after the access
//! before it, and the two tuples that it puts on the bus of memory.

use crate::air::{
    byte_interaction, e_add, e_mul, e_sub, s_add, s_bool, s_col, s_const, s_mul, s_sub,
    AirBuilder, Expr, Interaction, InteractionKind, InteractionSpec,
};
use crate::memory::columns::{
    MemoryAccessCols, MemoryReadCols, MemoryReadWriteCols, MemoryWriteCols,
};
use crate::word::Word;
use vstd::prelude::*;

verus! {

/// Where the columns of an access stand in a row, the first of them at
/// `at`.
pub open spec fn access_col_map_spec(at: usize) -> MemoryReadWriteCols<usize> {
    MemoryReadWriteCols {
        prev_value: Word([at, (at + 1) as usize, (at + 2) as usize, (at + 3) as usize]),
        access: MemoryAccessCols {
            value: Word(
                [(at + 4) as usize, (at + 5) as usize, (at + 6) as usize, (at + 7) as usize],
            ),
            prev_shard: (at + 8) as usize,
            prev_clk: (at + 9) as usize,
            compare_clk: (at + 10) as usize,
            diff_16bit_limb: (at + 11) as usize,
            diff_8bit_limb: (at + 12) as usize,
        },
    }
}

/// Where the columns of an access stand in a row, the first of them at
/// `at`.
pub fn access_col_map(at: usize) -> (r: MemoryReadWriteCols<usize>)
    requires
        at + 13 <= usize::MAX,
    ensures
        r == access_col_map_spec(at),
{
    MemoryReadWriteCols {
        prev_value: Word([at, at + 1, at + 2, at + 3]),
        access: MemoryAccessCols {
            value: Word([at + 4, at + 5, at + 6, at + 7]),
            prev_shard: at + 8,
            prev_clk: at + 9,
            compare_clk: at + 10,
            diff_16bit_limb: at + 11,
            diff_8bit_limb: at + 12,
        },
    }
}

/// Where the columns of a read stand in a row, the first of them at `at`:
/// a read holds no word of its own for what the address held before, which
/// is the word read.
pub open spec fn read_col_map_spec(at: usize) -> MemoryReadWriteCols<usize> {
    MemoryReadWriteCols {
        prev_value: Word([at, (at + 1) as usize, (at + 2) as usize, (at + 3) as usize]),
        access: MemoryAccessCols {
            value: Word([at, (at + 1) as usize, (at + 2) as usize, (at + 3) as usize]),
            prev_shard: (at + 4) as usize,
            prev_clk: (at + 5) as usize,
            compare_clk: (at + 6) as usize,
            diff_16bit_limb: (at + 7) as usize,
            diff_8bit_limb: (at + 8) as usize,
        },
    }
}

/// Where the columns of a read stand in a row, the first of them at `at`.
pub fn read_col_map(at: usize) -> (r: MemoryReadWriteCols<usize>)
    requires
        at + 9 <= usize::MAX,
    ensures
        r == read_col_map_spec(at),
{
    MemoryReadWriteCols {
        prev_value: Word([at, at + 1, at + 2, at + 3]),
        access: MemoryAccessCols {
            value: Word([at, at + 1, at + 2, at + 3]),
            prev_shard: at + 4,
            prev_clk: at + 5,
            compare_clk: at + 6,
            diff_16bit_limb: at + 7,
            diff_8bit_limb: at + 8,
        },
    }
}

/// The time that is compared, of this access or of the one before: the
/// clock where the flag is set, the shard where it is not.
pub open spec fn selected_time(flag: usize, clk: Expr, shard: Expr) -> Expr {
    s_add(s_mul(s_col(flag), clk), s_mul(s_sub(s_const(1), s_col(flag)), shard))
}

/// The constraints of an access with the columns `cols`, made in the
/// shard and at the clock in the columns `shard` and `clk`, on the rows
/// where the column `do_check` is set: the flags are bits; where the clocks
/// are compared the shards are the same; and the difference of the times
/// that are compared, less one, is the two limbs of the witness.
pub open spec fn access_constraints(
    shard: usize,
    clk: usize,
    cols: MemoryReadWriteCols<usize>,
    do_check: usize,
) -> Seq<Expr> {
    let m = cols.access;
    let diff_minus_one = s_sub(
        s_sub(
            selected_time(m.compare_clk, s_col(clk), s_col(shard)),
            selected_time(m.compare_clk, s_col(m.prev_clk), s_col(m.prev_shard)),
        ),
        s_const(1),
    );
    seq![
        s_bool(s_col(do_check)),
        s_mul(s_col(do_check), s_bool(s_col(m.compare_clk))),
        s_mul(
            s_mul(s_col(do_check), s_col(m.compare_clk)),
            s_sub(s_col(shard), s_col(m.prev_shard)),
        ),
        s_mul(
            s_col(do_check),
            s_sub(
                diff_minus_one,
                s_add(s_col(m.diff_16bit_limb), s_mul(s_col(m.diff_8bit_limb), s_const(65536))),
            ),
        ),
    ]
}

/// The tuple of a word on the bus of memory.
pub open spec fn memory_tuple(shard: Expr, clk: Expr, addr: Expr, value: [usize; 4]) -> Seq<Expr> {
    seq![shard, clk, addr, s_col(value[0]), s_col(value[1]), s_col(value[2]), s_col(value[3])]
}

/// What an access sends: the range checks of the two limbs of the
/// difference of the times, and what the address held before.
pub open spec fn access_sends(
    cols: MemoryReadWriteCols<usize>,
    addr: Expr,
    do_check: usize,
) -> Seq<InteractionSpec> {
    let m = cols.access;
    seq![
        byte_interaction(
            s_const(8),
            s_col(m.diff_16bit_limb),
            s_const(0),
            s_const(0),
            s_const(0),
            s_col(do_check),
        ),
        byte_interaction(
            s_const(4),
            s_const(0),
            s_const(0),
            s_const(0),
            s_col(m.diff_8bit_limb),
            s_col(do_check),
        ),
        InteractionSpec {
            values: memory_tuple(s_col(m.prev_shard), s_col(m.prev_clk), addr, cols.prev_value.0),
            multiplicity: s_col(do_check),
            kind: InteractionKind::Memory,
        },
    ]
}

/// What an access receives: what the address holds after it.
pub open spec fn access_receives(
    shard: usize,
    clk: usize,
    cols: MemoryReadWriteCols<usize>,
    addr: Expr,
    do_check: usize,
) -> Seq<InteractionSpec> {
    seq![
        InteractionSpec {
            values: memory_tuple(s_col(shard), s_col(clk), addr, cols.access.value.0),
            multiplicity: s_col(do_check),
            kind: InteractionKind::Memory,
        },
    ]
}

fn time_of(flag: usize, clk: Expr, shard: Expr) -> (r: Expr)
    ensures
        r == selected_time(flag, clk, shard),
{
    e_add(
        e_mul(Expr::Local(flag), clk),
        e_mul(e_sub(Expr::Const(1), Expr::Local(flag)), shard),
    )
}

fn tuple_of(shard: Expr, clk: Expr, addr: Expr, value: &[usize; 4]) -> (r: Vec<Expr>)
    ensures
        r@ == memory_tuple(shard, clk, addr, *value),
{
    let mut v: Vec<Expr> = Vec::new();
    v.push(shard);
    v.push(clk);
    v.push(addr);
    v.push(Expr::Local(value[0]));
    v.push(Expr::Local(value[1]));
    v.push(Expr::Local(value[2]));
    v.push(Expr::Local(value[3]));
    assert(v@ =~= memory_tuple(shard, clk, addr, *value));
    v
}

impl AirBuilder {
    /// Declares the constraints and the interactions of an access to the
    /// word at `addr`, with the columns `cols`.
    pub fn constraint_memory_access(
        &mut self,
        shard: usize,
        clk: usize,
        addr: Expr,
        cols: &MemoryReadWriteCols<usize>,
        do_check: usize,
    )
        ensures
            final(self).constraints@ == old(self).constraints@ + access_constraints(
                shard,
                clk,
                *cols,
                do_check,
            ),
            final(self).sends_view() == old(self).sends_view() + access_sends(
                *cols,
                addr,
                do_check,
            ),
            final(self).receives_view() == old(self).receives_view() + access_receives(
                shard,
                clk,
                *cols,
                addr,
                do_check,
            ),
    {
        let m = cols.access;
        self.assert_bool(do_check);

        // Verify that the current memory access time is greater than the
        // previous's: first that the flag of the comparison is right.
        self.assert_zero(
            e_mul(
                Expr::Local(do_check),
                e_mul(
                    Expr::Local(m.compare_clk),
                    e_sub(Expr::Local(m.compare_clk), Expr::Const(1)),
                ),
            ),
        );
        self.assert_zero(
            e_mul(
                e_mul(Expr::Local(do_check), Expr::Local(m.compare_clk)),
                e_sub(Expr::Local(shard), Expr::Local(m.prev_shard)),
            ),
        );

        // Get the comparison timestamp values for the current and previous
        // memory access, and assert that their difference less one is the
        // two limbs.
        let prev_comp_value = time_of(
            m.compare_clk,
            Expr::Local(m.prev_clk),
            Expr::Local(m.prev_shard),
        );
        let current_comp_val = time_of(m.compare_clk, Expr::Local(clk), Expr::Local(shard));
        let diff_minus_one = e_sub(e_sub(current_comp_val, prev_comp_value), Expr::Const(1));
        self.assert_zero(
            e_mul(
                Expr::Local(do_check),
                e_sub(
                    diff_minus_one,
                    e_add(
                        Expr::Local(m.diff_16bit_limb),
                        e_mul(Expr::Local(m.diff_8bit_limb), Expr::Const(65536)),
                    ),
                ),
            ),
        );

        // Send the range checks for the limbs.
        self.send_byte_pair(
            Expr::Const(8),
            Expr::Local(m.diff_16bit_limb),
            Expr::Const(0),
            Expr::Const(0),
            Expr::Const(0),
            Expr::Local(do_check),
        );
        self.send_byte_pair(
            Expr::Const(4),
            Expr::Const(0),
            Expr::Const(0),
            Expr::Const(0),
            Expr::Local(m.diff_8bit_limb),
            Expr::Local(do_check),
        );

        // Add to the memory argument: the previous values get sent, the
        // current values get received.
        let prev_values = tuple_of(
            Expr::Local(m.prev_shard),
            Expr::Local(m.prev_clk),
            addr.duplicate(),
            &cols.prev_value.0,
        );
        let current_values = tuple_of(Expr::Local(shard), Expr::Local(clk), addr, &m.value.0);
        self.send(
            Interaction {
                values: prev_values,
                multiplicity: Expr::Local(do_check),
                kind: InteractionKind::Memory,
            },
        );
        self.receive(
            Interaction {
                values: current_values,
                multiplicity: Expr::Local(do_check),
                kind: InteractionKind::Memory,
            },
        );
        proof {
            assert(self.constraints@ =~= old(self).constraints@ + access_constraints(
                shard,
                clk,
                *cols,
                do_check,
            ));
            assert(self.sends_view() =~= old(self).sends_view() + access_sends(
                *cols,
                addr,
                do_check,
            ));
            assert(self.receives_view() =~= old(self).receives_view() + access_receives(
                shard,
                clk,
                *cols,
                addr,
                do_check,
            ));
        }
    }
}

/// The address of word `i` of the slice that starts `offset` bytes after
/// the address in the column `ptr`.
pub open spec fn slice_addr(ptr: usize, offset: u32, i: int) -> Expr {
    s_add(s_col(ptr), s_const((offset + 4 * i) as u32))
}

/// The constraints of the accesses to the first `n` words of a slice.
pub open spec fn slice_constraints(
    shard: usize,
    clk: usize,
    maps: Seq<MemoryReadWriteCols<usize>>,
    do_check: usize,
    n: nat,
) -> Seq<Expr>
    decreases n,
{
    if n == 0 {
        Seq::empty()
    } else {
        slice_constraints(shard, clk, maps, do_check, (n - 1) as nat) + access_constraints(
            shard,
            clk,
            maps[n - 1],
            do_check,
        )
    }
}

/// What the accesses to the first `n` words of a slice send.
pub open spec fn slice_sends(
    maps: Seq<MemoryReadWriteCols<usize>>,
    ptr: usize,
    offset: u32,
    do_check: usize,
    n: nat,
) -> Seq<InteractionSpec>
    decreases n,
{
    if n == 0 {
        Seq::empty()
    } else {
        slice_sends(maps, ptr, offset, do_check, (n - 1) as nat) + access_sends(
            maps[n - 1],
            slice_addr(ptr, offset, n - 1),
            do_check,
        )
    }
}

/// What the accesses to the first `n` words of a slice receive.
pub open spec fn slice_receives(
    shard: usize,
    clk: usize,
    maps: Seq<MemoryReadWriteCols<usize>>,
    ptr: usize,
    offset: u32,
    do_check: usize,
    n: nat,
) -> Seq<InteractionSpec>
    decreases n,
{
    if n == 0 {
        Seq::empty()
    } else {
        slice_receives(shard, clk, maps, ptr, offset, do_check, (n - 1) as nat) + access_receives(
            shard,
            clk,
            maps[n - 1],
            slice_addr(ptr, offset, n - 1),
            do_check,
        )
    }
}

impl AirBuilder {
    /// Declares the constraints and the interactions of the accesses to
    /// the words of a slice, one after the other; the slice starts `offset`
    /// bytes after the address in the column `ptr`.
    pub fn constraint_memory_access_slice(
        &mut self,
        shard: usize,
        clk: usize,
        ptr: usize,
        offset: u32,
        maps: &Vec<MemoryReadWriteCols<usize>>,
        do_check: usize,
    )
        requires
            offset + 4 * maps@.len() <= u32::MAX,
        ensures
            final(self).constraints@ == old(self).constraints@ + slice_constraints(
                shard,
                clk,
                maps@,
                do_check,
                maps@.len(),
            ),
            final(self).sends_view() == old(self).sends_view() + slice_sends(
                maps@,
                ptr,
                offset,
                do_check,
                maps@.len(),
            ),
            final(self).receives_view() == old(self).receives_view() + slice_receives(
                shard,
                clk,
                maps@,
                ptr,
                offset,
                do_check,
                maps@.len(),
            ),
    {
        let mut i: usize = 0;
        let mut step: u32 = offset;
        assert(self.constraints@ =~= old(self).constraints@ + slice_constraints(
            shard,
            clk,
            maps@,
            do_check,
            0,
        ));
        assert(self.sends_view() =~= old(self).sends_view() + slice_sends(
            maps@,
            ptr,
            offset,
            do_check,
            0,
        ));
        assert(self.receives_view() =~= old(self).receives_view() + slice_receives(
            shard,
            clk,
            maps@,
            ptr,
            offset,
            do_check,
            0,
        ));
        while i < maps.len()
            invariant
                i <= maps@.len(),
                offset + 4 * maps@.len() <= u32::MAX,
                step == offset + 4 * i,
                self.constraints@ == old(self).constraints@ + slice_constraints(
                    shard,
                    clk,
                    maps@,
                    do_check,
                    i as nat,
                ),
                self.sends_view() == old(self).sends_view() + slice_sends(
                    maps@,
                    ptr,
                    offset,
                    do_check,
                    i as nat,
                ),
                self.receives_view() == old(self).receives_view() + slice_receives(
                    shard,
                    clk,
                    maps@,
                    ptr,
                    offset,
                    do_check,
                    i as nat,
                ),
            decreases maps@.len() - i,
        {
            let addr = e_add(Expr::Local(ptr), Expr::Const(step));
            assert(addr == slice_addr(ptr, offset, i as int));
            let ghost c0 = slice_constraints(shard, clk, maps@, do_check, i as nat);
            let ghost s0 = slice_sends(maps@, ptr, offset, do_check, i as nat);
            let ghost r0 = slice_receives(shard, clk, maps@, ptr, offset, do_check, i as nat);
            self.constraint_memory_access(shard, clk, addr, &maps[i], do_check);
            proof {
                crate::air::lemma_concat_assoc(
                    old(self).constraints@,
                    c0,
                    access_constraints(shard, clk, maps@[i as int], do_check),
                );
                crate::air::lemma_concat_assoc(
                    old(self).sends_view(),
                    s0,
                    access_sends(maps@[i as int], addr, do_check),
                );
                crate::air::lemma_concat_assoc(
                    old(self).receives_view(),
                    r0,
                    access_receives(shard, clk, maps@[i as int], addr, do_check),
                );
            }
            i = i + 1;
            if i < maps.len() {
                step = step + 4;
            } else {
                step = offset + 4 * (i as u32);
            }
        }
    }
}

/// The columns of a write, as the columns of an access.
pub open spec fn write_map(c: MemoryWriteCols<usize>) -> MemoryReadWriteCols<usize> {
    MemoryReadWriteCols { prev_value: c.prev_value, access: c.access }
}

/// The columns of a read, as the columns of an access: what the address
/// held before is the word read.
pub open spec fn read_map(c: MemoryReadCols<usize>) -> MemoryReadWriteCols<usize> {
    MemoryReadWriteCols { prev_value: c.access.value, access: c.access }
}

/// Where the columns of a write stand in a row, the first of them at
/// `at`.
pub open spec fn write_layout_spec(at: usize) -> MemoryWriteCols<usize> {
    MemoryWriteCols {
        prev_value: access_col_map_spec(at).prev_value,
        access: access_col_map_spec(at).access,
    }
}

/// Where the columns of a read stand in a row, the first of them at `at`.
pub open spec fn read_layout_spec(at: usize) -> MemoryReadCols<usize> {
    MemoryReadCols { access: read_col_map_spec(at).access }
}

/// The columns of a write, as the columns of an access.
pub fn write_as_access(c: &MemoryWriteCols<usize>) -> (r: MemoryReadWriteCols<usize>)
    ensures
        r == write_map(*c),
{
    MemoryReadWriteCols { prev_value: c.prev_value, access: c.access }
}

/// The columns of a read, as the columns of an access.
pub fn read_as_access(c: &MemoryReadCols<usize>) -> (r: MemoryReadWriteCols<usize>)
    ensures
        r == read_map(*c),
{
    MemoryReadWriteCols { prev_value: c.access.value, access: c.access }
}

/// Where the columns of a write stand in a row, the first of them at
/// `at`.
pub fn write_layout(at: usize) -> (r: MemoryWriteCols<usize>)
    requires
        at + 13 <= usize::MAX,
    ensures
        r == write_layout_spec(at),
{
    let m = access_col_map(at);
    MemoryWriteCols { prev_value: m.prev_value, access: m.access }
}

/// Where the columns of a read stand in a row, the first of them at `at`.
pub fn read_layout(at: usize) -> (r: MemoryReadCols<usize>)
    requires
        at + 9 <= usize::MAX,
    ensures
        r == read_layout_spec(at),
{
    let m = read_col_map(at);
    MemoryReadCols { access: m.access }
}

} // verus!
