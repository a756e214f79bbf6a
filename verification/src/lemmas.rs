//! Proof support for the ledger table and the id sequence.
//!
//! The operations in [`crate::contract`] edit the row table by index;
//! these lemmas translate such edits into the key-indexed reading
//! that the contracts use (`has_user`, `entries_of`), and carry the
//! id-sequence invariants across them.

use vstd::prelude::*;

use crate::keys::key_lt;
use crate::keys::lemma_key_lt_transitive;
use crate::keys::lemma_key_lt_trichotomy;
use crate::state::EntryV;
use crate::state::PoolV;
use crate::state::StateV;
use crate::state::UserEntriesV;
use crate::state::count_pool;
use crate::state::entries_of;
use crate::state::entry_index;
use crate::state::entry_of;
use crate::state::has_entry;
use crate::state::has_pool;
use crate::state::pool_index;
use crate::state::pool_of;
use crate::state::pools_wf;
use crate::state::entries_remove;
use crate::state::entries_wf;
use crate::state::has_user;
use crate::state::list_wf;
use crate::state::user_index;

verus! {

/// In a well-formed table a user key names at most one row.
pub proof fn lemma_row_unique(list: Seq<UserEntriesV>, u: Seq<char>, i: int, j: int)
    requires
        list_wf(list),
        0 <= i < list.len(),
        0 <= j < list.len(),
        list[i].user == u,
        list[j].user == u,
    ensures
        i == j,
{
    if i < j {
        lemma_key_lt_trichotomy(list[i].user, list[j].user);
    }
    if j < i {
        lemma_key_lt_trichotomy(list[j].user, list[i].user);
    }
}

/// A row seen at an index is the row the key-indexed reading names.
pub proof fn lemma_user_at(list: Seq<UserEntriesV>, u: Seq<char>, pos: int)
    requires
        list_wf(list),
        0 <= pos < list.len(),
        list[pos].user == u,
    ensures
        has_user(list, u),
        user_index(list, u) == pos,
        entries_of(list, u) == list[pos].entries,
{
    assert(has_user(list, u));
    let k = user_index(list, u);
    lemma_row_unique(list, u, k, pos);
}

/// A key that fits strictly between positions `pos - 1` and `pos` of
/// a sorted table names no row of it.
pub proof fn lemma_user_absent(list: Seq<UserEntriesV>, u: Seq<char>, pos: int)
    requires
        list_wf(list),
        0 <= pos <= list.len(),
        forall|j: int| 0 <= j < pos ==> key_lt(#[trigger] list[j].user, u),
        pos < list.len() ==> key_lt(u, list[pos].user),
    ensures
        !has_user(list, u),
{
    assert forall|i: int| 0 <= i < list.len() implies list[i].user != u by {
        if i < pos {
            lemma_key_lt_trichotomy(list[i].user, u);
        } else {
            if pos < i {
                lemma_key_lt_transitive(u, list[pos].user, list[i].user);
            }
            lemma_key_lt_trichotomy(u, list[i].user);
        }
    }
}

/// Replacing one row, key unchanged, changes exactly that user's
/// collection and nothing else.
pub proof fn lemma_update_row(list: Seq<UserEntriesV>, pos: int, row: UserEntriesV)
    requires
        list_wf(list),
        0 <= pos < list.len(),
        row.user == list[pos].user,
        entries_wf(row.entries),
    ensures
        list_wf(list.update(pos, row)),
        has_user(list.update(pos, row), row.user),
        user_index(list.update(pos, row), row.user) == pos,
        entries_of(list.update(pos, row), row.user) == row.entries,
        forall|u: Seq<char>|
            u != row.user ==> (has_user(#[trigger] list.update(pos, row), u) <==> has_user(
                list,
                u,
            )),
        forall|u: Seq<char>|
            u != row.user && has_user(list, u) ==> entries_of(
                #[trigger] list.update(pos, row),
                u,
            ) == entries_of(list, u),
{
    let l2 = list.update(pos, row);
    assert(forall|i: int| 0 <= i < l2.len() ==> #[trigger] l2[i].user == list[i].user);
    assert(list_wf(l2));
    lemma_user_at(l2, row.user, pos);
    assert forall|u: Seq<char>| u != row.user implies (has_user(l2, u) <==> has_user(list, u)) by {
        if has_user(list, u) {
            let i = user_index(list, u);
            lemma_user_at(l2, u, i);
        }
        if has_user(l2, u) {
            let i = user_index(l2, u);
            lemma_user_at(list, u, i);
        }
    }
    assert forall|u: Seq<char>| u != row.user && has_user(list, u) implies entries_of(l2, u)
        == entries_of(list, u) by {
        let i = user_index(list, u);
        lemma_user_at(list, u, i);
        assert(i != pos);
        lemma_user_at(l2, u, i);
    }
}

/// Inserting a row at its sorted position adds exactly that user's
/// collection, keeps the table sorted, and leaves every other
/// collection as it was.
pub proof fn lemma_insert_row(list: Seq<UserEntriesV>, pos: int, row: UserEntriesV)
    requires
        list_wf(list),
        0 <= pos <= list.len(),
        forall|j: int| 0 <= j < pos ==> key_lt(#[trigger] list[j].user, row.user),
        pos < list.len() ==> key_lt(row.user, list[pos].user),
        entries_wf(row.entries),
    ensures
        list_wf(list.insert(pos, row)),
        has_user(list.insert(pos, row), row.user),
        user_index(list.insert(pos, row), row.user) == pos,
        entries_of(list.insert(pos, row), row.user) == row.entries,
        forall|u: Seq<char>|
            u != row.user ==> (has_user(#[trigger] list.insert(pos, row), u) <==> has_user(
                list,
                u,
            )),
        forall|u: Seq<char>|
            u != row.user && has_user(list, u) ==> entries_of(
                #[trigger] list.insert(pos, row),
                u,
            ) == entries_of(list, u),
{
    let l2 = list.insert(pos, row);
    assert(l2.len() == list.len() + 1);
    assert(forall|i: int| 0 <= i < pos ==> #[trigger] l2[i] == list[i]);
    assert(l2[pos] == row);
    assert(forall|i: int| pos < i < l2.len() ==> #[trigger] l2[i] == list[i - 1]);
    assert forall|i: int, j: int| 0 <= i < j < l2.len() implies key_lt(l2[i].user, l2[j].user) by {
        if i < pos && j < pos {
        } else if i < pos && j == pos {
        } else if i == pos && j > pos {
            if j - 1 > pos {
                assert(pos < list.len());
                lemma_key_lt_transitive(row.user, list[pos].user, list[j - 1].user);
            }
        } else if i < pos && j > pos {
        } else {
        }
    }
    assert(list_wf(l2));
    lemma_user_at(l2, row.user, pos);
    assert forall|u: Seq<char>| u != row.user implies (has_user(l2, u) <==> has_user(list, u)) by {
        if has_user(list, u) {
            let i = user_index(list, u);
            if i < pos {
                lemma_user_at(l2, u, i);
            } else {
                lemma_user_at(l2, u, i + 1);
            }
        }
        if has_user(l2, u) {
            let i = user_index(l2, u);
            assert(i != pos);
            if i < pos {
                lemma_user_at(list, u, i);
            } else {
                lemma_user_at(list, u, i - 1);
            }
        }
    }
    assert forall|u: Seq<char>| u != row.user && has_user(list, u) implies entries_of(l2, u)
        == entries_of(list, u) by {
        let i = user_index(list, u);
        lemma_user_at(list, u, i);
        if i < pos {
            lemma_user_at(l2, u, i);
        } else {
            lemma_user_at(l2, u, i + 1);
        }
    }
}

/// Pushing a freshly numbered entry onto an existing row keeps every
/// id in range and all ids distinct, once the sequence moves past it.
pub proof fn lemma_ids_after_push(s: StateV, s2: StateV, pos: int, e: EntryV)
    requires
        s.ids_bounded(),
        s.ids_unique(),
        s.entry_seq < u64::MAX,
        e.id == s.entry_seq + 1,
        s2.entry_seq == s.entry_seq + 1,
        0 <= pos < s.list.len(),
        s2.list == s.list.update(
            pos,
            UserEntriesV { user: s.list[pos].user, entries: s.list[pos].entries.push(e) },
        ),
    ensures
        s2.ids_bounded(),
        s2.ids_unique(),
{
    let old_n = s.list[pos].entries.len() as int;
    assert forall|i: int, j: int|
        0 <= i < s2.list.len() && 0 <= j < s2.list[i].entries.len() implies 1
        <= #[trigger] s2.list[i].entries[j].id <= s2.entry_seq by {
        if i == pos && j == old_n {
        } else {
            assert(s2.list[i].entries[j] == s.list[i].entries[j]);
            assert(1 <= s.list[i].entries[j].id <= s.entry_seq);
        }
    }
    assert forall|i1: int, j1: int, i2: int, j2: int|
        0 <= i1 < s2.list.len() && 0 <= j1 < s2.list[i1].entries.len() && 0 <= i2 < s2.list.len()
            && 0 <= j2 < s2.list[i2].entries.len() && (i1 != i2 || j1 != j2) implies #[trigger] s2.list[i1].entries[j1].id
        != #[trigger] s2.list[i2].entries[j2].id by {
        let new1 = i1 == pos && j1 == old_n;
        let new2 = i2 == pos && j2 == old_n;
        if new1 && !new2 {
            assert(s2.list[i2].entries[j2] == s.list[i2].entries[j2]);
            assert(s.list[i2].entries[j2].id <= s.entry_seq);
        } else if !new1 && new2 {
            assert(s2.list[i1].entries[j1] == s.list[i1].entries[j1]);
            assert(s.list[i1].entries[j1].id <= s.entry_seq);
        } else if !new1 && !new2 {
            assert(s2.list[i1].entries[j1] == s.list[i1].entries[j1]);
            assert(s2.list[i2].entries[j2] == s.list[i2].entries[j2]);
        }
    }
}

/// Inserting a new one-entry row, freshly numbered, keeps every id in
/// range and all ids distinct, once the sequence moves past it.
pub proof fn lemma_ids_after_insert(s: StateV, s2: StateV, pos: int, row: UserEntriesV)
    requires
        s.ids_bounded(),
        s.ids_unique(),
        s.entry_seq < u64::MAX,
        row.entries.len() == 1,
        row.entries[0].id == s.entry_seq + 1,
        s2.entry_seq == s.entry_seq + 1,
        0 <= pos <= s.list.len(),
        s2.list == s.list.insert(pos, row),
    ensures
        s2.ids_bounded(),
        s2.ids_unique(),
{
    assert(forall|i: int| 0 <= i < pos ==> #[trigger] s2.list[i] == s.list[i]);
    assert(forall|i: int| pos < i < s2.list.len() ==> #[trigger] s2.list[i] == s.list[i - 1]);
    assert forall|i: int, j: int|
        0 <= i < s2.list.len() && 0 <= j < s2.list[i].entries.len() implies 1
        <= #[trigger] s2.list[i].entries[j].id <= s2.entry_seq by {
        if i == pos {
            assert(j == 0);
        } else if i < pos {
            assert(1 <= s.list[i].entries[j].id <= s.entry_seq);
        } else {
            assert(1 <= s.list[i - 1].entries[j].id <= s.entry_seq);
        }
    }
    assert forall|i1: int, j1: int, i2: int, j2: int|
        0 <= i1 < s2.list.len() && 0 <= j1 < s2.list[i1].entries.len() && 0 <= i2 < s2.list.len()
            && 0 <= j2 < s2.list[i2].entries.len() && (i1 != i2 || j1 != j2) implies #[trigger] s2.list[i1].entries[j1].id
        != #[trigger] s2.list[i2].entries[j2].id by {
        if i1 == pos && i2 == pos {
        } else if i1 == pos {
            let oi2 = if i2 < pos { i2 } else { i2 - 1 };
            assert(s2.list[i2].entries[j2] == s.list[oi2].entries[j2]);
            assert(s.list[oi2].entries[j2].id <= s.entry_seq);
        } else if i2 == pos {
            let oi1 = if i1 < pos { i1 } else { i1 - 1 };
            assert(s2.list[i1].entries[j1] == s.list[oi1].entries[j1]);
            assert(s.list[oi1].entries[j1].id <= s.entry_seq);
        } else {
            let oi1 = if i1 < pos { i1 } else { i1 - 1 };
            let oi2 = if i2 < pos { i2 } else { i2 - 1 };
            assert(s2.list[i1].entries[j1] == s.list[oi1].entries[j1]);
            assert(s2.list[i2].entries[j2] == s.list[oi2].entries[j2]);
            assert(oi1 != oi2 || j1 != j2);
        }
    }
}

/// Replacing one row by another with the same ids at the same
/// positions preserves the id invariants.
pub proof fn lemma_ids_after_update_row(s: StateV, s2: StateV, pos: int)
    requires
        s.ids_bounded(),
        s.ids_unique(),
        s2.entry_seq == s.entry_seq,
        0 <= pos < s.list.len(),
        s2.list.len() == s.list.len(),
        forall|i: int| 0 <= i < s.list.len() && i != pos ==> #[trigger] s2.list[i] == s.list[i],
        s2.list[pos].entries.len() == s.list[pos].entries.len(),
        forall|j: int|
            0 <= j < s.list[pos].entries.len() ==> #[trigger] s2.list[pos].entries[j].id
                == s.list[pos].entries[j].id,
    ensures
        s2.ids_bounded(),
        s2.ids_unique(),
{
    assert forall|i: int, j: int|
        0 <= i < s2.list.len() && 0 <= j < s2.list[i].entries.len() implies 1
        <= #[trigger] s2.list[i].entries[j].id <= s2.entry_seq by {
        assert(s2.list[i].entries[j].id == s.list[i].entries[j].id);
    }
    assert forall|i1: int, j1: int, i2: int, j2: int|
        0 <= i1 < s2.list.len() && 0 <= j1 < s2.list[i1].entries.len() && 0 <= i2 < s2.list.len()
            && 0 <= j2 < s2.list[i2].entries.len() && (i1 != i2 || j1 != j2) implies #[trigger] s2.list[i1].entries[j1].id
        != #[trigger] s2.list[i2].entries[j2].id by {
        assert(s2.list[i1].entries[j1].id == s.list[i1].entries[j1].id);
        assert(s2.list[i2].entries[j2].id == s.list[i2].entries[j2].id);
    }
}

/// Removing one entry from one row preserves the id invariants.
pub proof fn lemma_ids_after_remove_entry(s: StateV, s2: StateV, pos: int, idx: int)
    requires
        s.ids_bounded(),
        s.ids_unique(),
        s2.entry_seq == s.entry_seq,
        0 <= pos < s.list.len(),
        0 <= idx < s.list[pos].entries.len(),
        s2.list.len() == s.list.len(),
        forall|i: int| 0 <= i < s.list.len() && i != pos ==> #[trigger] s2.list[i] == s.list[i],
        s2.list[pos].entries == s.list[pos].entries.remove(idx),
    ensures
        s2.ids_bounded(),
        s2.ids_unique(),
{
    let spec_j = |i: int, j: int| if i == pos && j >= idx { j + 1 } else { j };
    assert forall|i: int, j: int|
        0 <= i < s2.list.len() && 0 <= j < s2.list[i].entries.len() implies 1
        <= #[trigger] s2.list[i].entries[j].id <= s2.entry_seq by {
        assert(s2.list[i].entries[j] == s.list[i].entries[spec_j(i, j)]);
    }
    assert forall|i1: int, j1: int, i2: int, j2: int|
        0 <= i1 < s2.list.len() && 0 <= j1 < s2.list[i1].entries.len() && 0 <= i2 < s2.list.len()
            && 0 <= j2 < s2.list[i2].entries.len() && (i1 != i2 || j1 != j2) implies #[trigger] s2.list[i1].entries[j1].id
        != #[trigger] s2.list[i2].entries[j2].id by {
        assert(s2.list[i1].entries[j1] == s.list[i1].entries[spec_j(i1, j1)]);
        assert(s2.list[i2].entries[j2] == s.list[i2].entries[spec_j(i2, j2)]);
        assert(i1 != i2 || spec_j(i1, j1) != spec_j(i2, j2));
    }
}

/// In a well-formed registry a pool id names at most one record.
pub proof fn lemma_pool_unique(pools: Seq<PoolV>, pool_id: u64, i: int, j: int)
    requires
        pools_wf(pools),
        0 <= i < pools.len(),
        0 <= j < pools.len(),
        pools[i].pool_id == pool_id,
        pools[j].pool_id == pool_id,
    ensures
        i == j,
{
}

/// A record seen at an index is the record the id-indexed reading
/// names.
pub proof fn lemma_pool_at(pools: Seq<PoolV>, pool_id: u64, pos: int)
    requires
        pools_wf(pools),
        0 <= pos < pools.len(),
        pools[pos].pool_id == pool_id,
    ensures
        has_pool(pools, pool_id),
        pool_index(pools, pool_id) == pos,
        pool_of(pools, pool_id) == pools[pos],
{
    assert(has_pool(pools, pool_id));
    let k = pool_index(pools, pool_id);
    lemma_pool_unique(pools, pool_id, k, pos);
}

/// An id that fits strictly between positions `pos - 1` and `pos` of
/// a sorted registry names no record of it.
pub proof fn lemma_pool_absent(pools: Seq<PoolV>, pool_id: u64, pos: int)
    requires
        pools_wf(pools),
        0 <= pos <= pools.len(),
        forall|j: int| 0 <= j < pos ==> (#[trigger] pools[j]).pool_id < pool_id,
        pos < pools.len() ==> pool_id < pools[pos].pool_id,
    ensures
        !has_pool(pools, pool_id),
{
    assert forall|i: int| 0 <= i < pools.len() implies pools[i].pool_id != pool_id by {
        if pos < i {
            assert(pools[pos].pool_id < pools[i].pool_id);
        }
    }
}

/// Replacing one record, id unchanged, changes exactly that pool and
/// nothing else.
pub proof fn lemma_pool_update(pools: Seq<PoolV>, pos: int, p: PoolV)
    requires
        pools_wf(pools),
        0 <= pos < pools.len(),
        p.pool_id == pools[pos].pool_id,
    ensures
        pools_wf(pools.update(pos, p)),
        has_pool(pools.update(pos, p), p.pool_id),
        pool_of(pools.update(pos, p), p.pool_id) == p,
        forall|pid: u64|
            pid != p.pool_id ==> (has_pool(#[trigger] pools.update(pos, p), pid) <==> has_pool(
                pools,
                pid,
            )),
        forall|pid: u64|
            pid != p.pool_id && has_pool(pools, pid) ==> pool_of(
                #[trigger] pools.update(pos, p),
                pid,
            ) == pool_of(pools, pid),
{
    let l2 = pools.update(pos, p);
    assert(forall|i: int| 0 <= i < l2.len() ==> (#[trigger] l2[i]).pool_id == pools[i].pool_id);
    assert(pools_wf(l2));
    lemma_pool_at(l2, p.pool_id, pos);
    assert forall|pid: u64| pid != p.pool_id implies (has_pool(l2, pid) <==> has_pool(
        pools,
        pid,
    )) by {
        if has_pool(pools, pid) {
            let i = pool_index(pools, pid);
            lemma_pool_at(l2, pid, i);
        }
        if has_pool(l2, pid) {
            let i = pool_index(l2, pid);
            lemma_pool_at(pools, pid, i);
        }
    }
    assert forall|pid: u64| pid != p.pool_id && has_pool(pools, pid) implies pool_of(l2, pid)
        == pool_of(pools, pid) by {
        let i = pool_index(pools, pid);
        lemma_pool_at(pools, pid, i);
        assert(i != pos);
        lemma_pool_at(l2, pid, i);
    }
}

/// Inserting a record at its sorted position adds exactly that pool,
/// keeps the registry sorted, and leaves every other record as it
/// was.
pub proof fn lemma_pool_insert(pools: Seq<PoolV>, pos: int, p: PoolV)
    requires
        pools_wf(pools),
        0 <= pos <= pools.len(),
        forall|j: int| 0 <= j < pos ==> (#[trigger] pools[j]).pool_id < p.pool_id,
        pos < pools.len() ==> p.pool_id < pools[pos].pool_id,
    ensures
        pools_wf(pools.insert(pos, p)),
        has_pool(pools.insert(pos, p), p.pool_id),
        pool_of(pools.insert(pos, p), p.pool_id) == p,
        forall|pid: u64|
            pid != p.pool_id ==> (has_pool(#[trigger] pools.insert(pos, p), pid) <==> has_pool(
                pools,
                pid,
            )),
        forall|pid: u64|
            pid != p.pool_id && has_pool(pools, pid) ==> pool_of(
                #[trigger] pools.insert(pos, p),
                pid,
            ) == pool_of(pools, pid),
{
    let l2 = pools.insert(pos, p);
    assert(l2.len() == pools.len() + 1);
    assert(forall|i: int| 0 <= i < pos ==> #[trigger] l2[i] == pools[i]);
    assert(l2[pos] == p);
    assert(forall|i: int| pos < i < l2.len() ==> #[trigger] l2[i] == pools[i - 1]);
    assert forall|i: int, j: int| 0 <= i < j < l2.len() implies (#[trigger] l2[i]).pool_id < (
    #[trigger] l2[j]).pool_id by {
        if i == pos && j - 1 > pos {
            assert(pools[pos].pool_id < pools[j - 1].pool_id || pos == j - 1);
        }
    }
    assert(pools_wf(l2));
    lemma_pool_at(l2, p.pool_id, pos);
    assert forall|pid: u64| pid != p.pool_id implies (has_pool(l2, pid) <==> has_pool(
        pools,
        pid,
    )) by {
        if has_pool(pools, pid) {
            let i = pool_index(pools, pid);
            if i < pos {
                lemma_pool_at(l2, pid, i);
            } else {
                lemma_pool_at(l2, pid, i + 1);
            }
        }
        if has_pool(l2, pid) {
            let i = pool_index(l2, pid);
            assert(i != pos);
            if i < pos {
                lemma_pool_at(pools, pid, i);
            } else {
                lemma_pool_at(pools, pid, i - 1);
            }
        }
    }
    assert forall|pid: u64| pid != p.pool_id && has_pool(pools, pid) implies pool_of(l2, pid)
        == pool_of(pools, pid) by {
        let i = pool_index(pools, pid);
        lemma_pool_at(pools, pid, i);
        if i < pos {
            lemma_pool_at(l2, pid, i);
        } else {
            lemma_pool_at(l2, pid, i + 1);
        }
    }
}

/// Removing one record removes exactly that pool and keeps every
/// other record, still sorted.
pub proof fn lemma_pool_remove(pools: Seq<PoolV>, pos: int)
    requires
        pools_wf(pools),
        0 <= pos < pools.len(),
    ensures
        pools_wf(pools.remove(pos)),
        !has_pool(pools.remove(pos), pools[pos].pool_id),
        forall|pid: u64|
            pid != pools[pos].pool_id ==> (has_pool(#[trigger] pools.remove(pos), pid)
                <==> has_pool(pools, pid)),
        forall|pid: u64|
            pid != pools[pos].pool_id && has_pool(pools, pid) ==> pool_of(
                #[trigger] pools.remove(pos),
                pid,
            ) == pool_of(pools, pid),
{
    let l2 = pools.remove(pos);
    assert(l2.len() == pools.len() - 1);
    assert(forall|i: int| 0 <= i < pos ==> #[trigger] l2[i] == pools[i]);
    assert(forall|i: int| pos <= i < l2.len() ==> #[trigger] l2[i] == pools[i + 1]);
    assert forall|i: int, j: int| 0 <= i < j < l2.len() implies (#[trigger] l2[i]).pool_id < (
    #[trigger] l2[j]).pool_id by {}
    assert(pools_wf(l2));
    assert forall|i: int| 0 <= i < l2.len() implies l2[i].pool_id != pools[pos].pool_id by {
        if i < pos {
            assert(pools[i].pool_id < pools[pos].pool_id);
        } else {
            assert(pools[pos].pool_id < pools[i + 1].pool_id);
        }
    }
    assert(!has_pool(l2, pools[pos].pool_id));
    assert forall|pid: u64| pid != pools[pos].pool_id implies (has_pool(l2, pid) <==> has_pool(
        pools,
        pid,
    )) by {
        if has_pool(pools, pid) {
            let i = pool_index(pools, pid);
            assert(i != pos);
            if i < pos {
                lemma_pool_at(l2, pid, i);
            } else {
                lemma_pool_at(l2, pid, i - 1);
            }
        }
        if has_pool(l2, pid) {
            let i = pool_index(l2, pid);
            if i < pos {
                lemma_pool_at(pools, pid, i);
            } else {
                lemma_pool_at(pools, pid, i + 1);
            }
        }
    }
    assert forall|pid: u64| pid != pools[pos].pool_id && has_pool(pools, pid) implies pool_of(
        l2,
        pid,
    ) == pool_of(pools, pid) by {
        let i = pool_index(pools, pid);
        lemma_pool_at(pools, pid, i);
        assert(i != pos);
        if i < pos {
            lemma_pool_at(l2, pid, i);
        } else {
            lemma_pool_at(l2, pid, i - 1);
        }
    }
}

/// In a well-formed collection a pool id names at most one entry.
pub proof fn lemma_entry_at(es: Seq<EntryV>, pool_id: u64, k: int)
    requires
        entries_wf(es),
        0 <= k < es.len(),
        es[k].pool_id == pool_id,
    ensures
        has_entry(es, pool_id),
        entry_index(es, pool_id) == k,
        entry_of(es, pool_id) == es[k],
{
    assert(has_entry(es, pool_id));
}

/// A collection counts zero entries for a pool id exactly when it
/// holds none.
pub proof fn lemma_count_no_entry(es: Seq<EntryV>, pool_id: u64)
    ensures
        (count_pool(es, pool_id) == 0) <==> !has_entry(es, pool_id),
    decreases es.len(),
{
    if es.len() == 0 {
    } else {
        lemma_count_no_entry(es.drop_last(), pool_id);
        if es.last().pool_id == pool_id {
            assert(es[es.len() - 1].pool_id == pool_id);
            assert(has_entry(es, pool_id));
        } else {
            if has_entry(es, pool_id) {
                let i = choose|i: int| 0 <= i < es.len() && es[i].pool_id == pool_id;
                assert(i != es.len() - 1);
                assert(es.drop_last()[i] == es[i]);
                assert(has_entry(es.drop_last(), pool_id));
            }
            if has_entry(es.drop_last(), pool_id) {
                let i = choose|i: int|
                    0 <= i < es.drop_last().len() && es.drop_last()[i].pool_id == pool_id;
                assert(es[i] == es.drop_last()[i]);
                assert(has_entry(es, pool_id));
            }
        }
    }
}

/// Appending an entry raises the count for its pool id by one and
/// leaves every other count alone.
pub proof fn lemma_count_push(es: Seq<EntryV>, e: EntryV, pool_id: u64)
    ensures
        count_pool(es.push(e), pool_id) == count_pool(es, pool_id) + (if e.pool_id == pool_id {
            1nat
        } else {
            0nat
        }),
{
    assert(es.push(e).drop_last() =~= es);
    assert(es.push(e).last() == e);
}

/// After removing the one entry for a pool id from a well-formed
/// collection, none is left.
pub proof fn lemma_remove_only(es: Seq<EntryV>, pool_id: u64, k: int)
    requires
        entries_wf(es),
        0 <= k < es.len(),
        es[k].pool_id == pool_id,
    ensures
        !has_entry(es.remove(k), pool_id),
{
    let es2 = es.remove(k);
    assert forall|i: int| 0 <= i < es2.len() implies es2[i].pool_id != pool_id by {
        let oi = if i < k {
            i
        } else {
            i + 1
        };
        assert(es2[i] == es[oi]);
        assert(oi != k);
    }
}

/// Removing the first entry for a pool id is removing the entry at
/// the first matching index.
pub proof fn lemma_entries_remove_at(es: Seq<EntryV>, pool_id: u64, idx: int)
    requires
        0 <= idx < es.len(),
        es[idx].pool_id == pool_id,
        forall|j: int| 0 <= j < idx ==> (#[trigger] es[j]).pool_id != pool_id,
    ensures
        entries_remove(es, pool_id) == es.remove(idx),
    decreases idx,
{
    if idx == 0 {
        assert(entries_remove(es, pool_id) == es.drop_first());
        assert(es.drop_first() =~= es.remove(0));
    } else {
        lemma_entries_remove_at(es.drop_first(), pool_id, idx - 1);
        assert(entries_remove(es, pool_id) == seq![es[0]] + entries_remove(
            es.drop_first(),
            pool_id,
        ));
        assert(seq![es[0]] + es.drop_first().remove(idx - 1) =~= es.remove(idx));
    }
}

} // verus!
