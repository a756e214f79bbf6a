//! Cross-operation guarantees of the ledger and the registry.
//!
//! Each proof function here states one guarantee that spans several
//! operations, phrased over the same postcondition predicates the
//! executable operations ensure, so the guarantees hold of any run of
//! those operations.

use vstd::prelude::*;

use crate::contract::create_entry_post;
use crate::contract::create_pool_post;
use crate::contract::delete_entry_post;
use crate::contract::update_entry_post;
use crate::contract::update_pool_post;
use crate::contract::user_has_pool;
use crate::error::ContractError;
use crate::lemmas::lemma_count_no_entry;
use crate::lemmas::lemma_count_push;
use crate::lemmas::lemma_entries_remove_at;
use crate::lemmas::lemma_entry_at;
use crate::lemmas::lemma_remove_only;
use crate::lemmas::lemma_user_at;
use crate::response::Response;
use crate::state::AnnualInfo;
use crate::state::EntryV;
use crate::state::PoolV;
use crate::state::StateV;
use crate::state::TokenInfoV;
use crate::state::count_pool;
use crate::state::entries_of;
use crate::state::entries_update;
use crate::state::entries_wf;
use crate::state::entry_index;
use crate::state::entry_of;
use crate::state::has_entry;
use crate::state::has_pool;
use crate::state::has_user;
use crate::state::pool_of;
use crate::state::user_index;

verus! {

/// After a successful entry creation the user's collection holds
/// exactly one entry for that pool — the freshly numbered one, at the
/// end — and a second creation for the same user and pool can only
/// fail with the duplicate error, leaving the state untouched.
pub proof fn law_create_entry_unique(
    s0: StateV,
    s1: StateV,
    r: Result<Response, ContractError>,
    sender: Seq<char>,
    user: Seq<char>,
    pool_id: u64,
    lp_token_amount: u128,
    token_1_amount: u128,
    token_2_amount: u128,
    pool_addr: Seq<char>,
)
    requires
        s0.wf(),
        s0.entry_seq < u64::MAX,
        create_entry_post(
            s0,
            s1,
            r,
            sender,
            user,
            pool_id,
            lp_token_amount,
            token_1_amount,
            token_2_amount,
            pool_addr,
        ),
        r is Ok,
    ensures
        count_pool(entries_of(s1.list, user), pool_id) == 1,
        user_has_pool(s1.list, user, pool_id),
        entries_of(s1.list, user).last() == (EntryV {
            id: (s0.entry_seq + 1) as u64,
            pool_id,
            lp_token_amount,
            token_1_amount,
            token_2_amount,
            pool_addr,
        }),
        forall|s2: StateV, r2: Result<Response, ContractError>, a: u128, b: u128, c: u128, pa: Seq<
            char,
        >|
            #[trigger] create_entry_post(s1, s2, r2, s1.owner, user, pool_id, a, b, c, pa) ==> (
            r2 matches Err(ContractError::UserEntryDuplicate { .. }) && s2 == s1),
{
    assert(sender == s0.owner);
    assert(!user_has_pool(s0.list, user, pool_id));
    let base = if has_user(s0.list, user) {
        entries_of(s0.list, user)
    } else {
        Seq::<EntryV>::empty()
    };
    let new_entry = EntryV {
        id: (s0.entry_seq + 1) as u64,
        pool_id,
        lp_token_amount,
        token_1_amount,
        token_2_amount,
        pool_addr,
    };
    assert(!has_entry(base, pool_id));
    lemma_count_no_entry(base, pool_id);
    lemma_count_push(base, new_entry, pool_id);
    assert(entries_of(s1.list, user) == base.push(new_entry));
    assert(base.push(new_entry)[base.len() as int] == new_entry);
    assert(has_entry(entries_of(s1.list, user), pool_id));
    assert forall|s2: StateV, r2: Result<Response, ContractError>, a: u128, b: u128, c: u128, pa: Seq<
        char,
    >|
        #[trigger] create_entry_post(s1, s2, r2, s1.owner, user, pool_id, a, b, c, pa) implies (
    r2 matches Err(ContractError::UserEntryDuplicate { .. }) && s2 == s1) by {
        assert(user_has_pool(s1.list, user, pool_id));
    }
}

/// After a successful entry update the user's entry for the pool
/// carries the three new amounts with its id and pool address
/// unchanged, and every other entry of the collection is untouched.
pub proof fn law_update_entry_amounts(
    s0: StateV,
    s1: StateV,
    r: Result<Response, ContractError>,
    sender: Seq<char>,
    user: Seq<char>,
    pool_id: u64,
    lp_token_amount: u128,
    token_1_amount: u128,
    token_2_amount: u128,
)
    requires
        s0.wf(),
        s1.wf(),
        update_entry_post(
            s0,
            s1,
            r,
            sender,
            user,
            pool_id,
            lp_token_amount,
            token_1_amount,
            token_2_amount,
        ),
        sender == s0.owner,
        user_has_pool(s0.list, user, pool_id),
    ensures
        r is Ok,
        has_entry(entries_of(s1.list, user), pool_id),
        entry_of(entries_of(s1.list, user), pool_id) == (EntryV {
            id: entry_of(entries_of(s0.list, user), pool_id).id,
            pool_id,
            lp_token_amount,
            token_1_amount,
            token_2_amount,
            pool_addr: entry_of(entries_of(s0.list, user), pool_id).pool_addr,
        }),
        entries_of(s1.list, user).len() == entries_of(s0.list, user).len(),
        forall|i: int|
            0 <= i < entries_of(s0.list, user).len() && (#[trigger] entries_of(s0.list, user)[i]).pool_id
                != pool_id ==> entries_of(s1.list, user)[i] == entries_of(s0.list, user)[i],
{
    let es0 = entries_of(s0.list, user);
    let es1 = entries_of(s1.list, user);
    let iu = user_index(s0.list, user);
    lemma_user_at(s0.list, user, iu);
    assert(entries_wf(es0));
    let k = entry_index(es0, pool_id);
    assert(0 <= k < es0.len() && es0[k].pool_id == pool_id);
    lemma_entry_at(es0, pool_id, k);
    assert(es1 == entries_update(
        es0,
        pool_id,
        lp_token_amount,
        token_1_amount,
        token_2_amount,
    ));
    assert(es1[k].pool_id == pool_id);
    let iu1 = user_index(s1.list, user);
    lemma_user_at(s1.list, user, iu1);
    assert(entries_wf(es1));
    lemma_entry_at(es1, pool_id, k);
}

/// A successful delete removes exactly the user's entry for the pool
/// — the collection becomes the old one with that one entry taken
/// out, in order — and repeating the same delete can only fail,
/// reporting that the entry no longer exists.
pub proof fn law_delete_entry_exact(
    s0: StateV,
    s1: StateV,
    r: Result<Response, ContractError>,
    sender: Seq<char>,
    user: Seq<char>,
    pool_id: u64,
)
    requires
        s0.wf(),
        s1.wf(),
        delete_entry_post(s0, s1, r, sender, user, pool_id),
        sender == s0.owner,
        user_has_pool(s0.list, user, pool_id),
    ensures
        r is Ok,
        entries_of(s1.list, user) == entries_of(s0.list, user).remove(
            entry_index(entries_of(s0.list, user), pool_id),
        ),
        !has_entry(entries_of(s1.list, user), pool_id),
        count_pool(entries_of(s1.list, user), pool_id) == 0,
        forall|s2: StateV, r2: Result<Response, ContractError>|
            #[trigger] delete_entry_post(s1, s2, r2, s1.owner, user, pool_id) ==> (r2 matches Err(
                ContractError::EntryNotExists { .. },
            ) && s2 == s1),
{
    let es0 = entries_of(s0.list, user);
    let es1 = entries_of(s1.list, user);
    let iu = user_index(s0.list, user);
    lemma_user_at(s0.list, user, iu);
    assert(entries_wf(es0));
    let k = entry_index(es0, pool_id);
    assert(0 <= k < es0.len() && es0[k].pool_id == pool_id);
    lemma_entry_at(es0, pool_id, k);
    assert(forall|j: int| 0 <= j < k ==> (#[trigger] es0[j]).pool_id != pool_id);
    lemma_entries_remove_at(es0, pool_id, k);
    assert(es1 == es0.remove(k));
    lemma_remove_only(es0, pool_id, k);
    lemma_count_no_entry(es1, pool_id);
    assert forall|s2: StateV, r2: Result<Response, ContractError>|
        #[trigger] delete_entry_post(s1, s2, r2, s1.owner, user, pool_id) implies (r2 matches Err(
        ContractError::EntryNotExists { .. },
    ) && s2 == s1) by {
        assert(has_user(s1.list, user));
        assert(!has_entry(entries_of(s1.list, user), pool_id));
    }
}

/// Entry ids are handed out strictly increasing across successful
/// creations, whichever users they target: two creations in a row
/// yield the ids one and two past the starting sequence value.
pub proof fn law_sequence_ids_increase(
    s0: StateV,
    s1: StateV,
    s2: StateV,
    r1: Result<Response, ContractError>,
    r2: Result<Response, ContractError>,
    sender: Seq<char>,
    user_a: Seq<char>,
    pool_a: u64,
    lp_a: u128,
    t1_a: u128,
    t2_a: u128,
    pa_a: Seq<char>,
    user_b: Seq<char>,
    pool_b: u64,
    lp_b: u128,
    t1_b: u128,
    t2_b: u128,
    pa_b: Seq<char>,
)
    requires
        s0.wf(),
        s0.entry_seq + 2 <= u64::MAX,
        create_entry_post(s0, s1, r1, sender, user_a, pool_a, lp_a, t1_a, t2_a, pa_a),
        r1 is Ok,
        create_entry_post(s1, s2, r2, sender, user_b, pool_b, lp_b, t1_b, t2_b, pa_b),
        r2 is Ok,
    ensures
        s1.entry_seq == s0.entry_seq + 1,
        s2.entry_seq == s0.entry_seq + 2,
        entries_of(s1.list, user_a).last().id == s0.entry_seq + 1,
        entries_of(s2.list, user_b).last().id == s0.entry_seq + 2,
{
    assert(sender == s0.owner);
    assert(!user_has_pool(s0.list, user_a, pool_a));
    assert(s1.owner == s0.owner);
    assert(!user_has_pool(s1.list, user_b, pool_b));
}

/// Pool creation is an idempotent overwrite: storing twice under one
/// id keeps the registry's keys as after the first store, with the
/// second record the one that persists, and neither call errs.
pub proof fn law_create_pool_overwrite(
    s0: StateV,
    s1: StateV,
    s2: StateV,
    r1: Result<Response, ContractError>,
    r2: Result<Response, ContractError>,
    sender: Seq<char>,
    pool_id: u64,
    token_1_a: TokenInfoV,
    token_2_a: TokenInfoV,
    apr_a: AnnualInfo,
    apy_a: AnnualInfo,
    tvl_a: u128,
    converted_tvl_a: u128,
    reward_coin_a: Seq<Seq<char>>,
    token_1_b: TokenInfoV,
    token_2_b: TokenInfoV,
    apr_b: AnnualInfo,
    apy_b: AnnualInfo,
    tvl_b: u128,
    converted_tvl_b: u128,
    reward_coin_b: Seq<Seq<char>>,
)
    requires
        s0.wf(),
        sender == s0.owner,
        create_pool_post(
            s0,
            s1,
            r1,
            sender,
            pool_id,
            token_1_a,
            token_2_a,
            apr_a,
            apy_a,
            tvl_a,
            converted_tvl_a,
            reward_coin_a,
        ),
        create_pool_post(
            s1,
            s2,
            r2,
            sender,
            pool_id,
            token_1_b,
            token_2_b,
            apr_b,
            apy_b,
            tvl_b,
            converted_tvl_b,
            reward_coin_b,
        ),
    ensures
        r1 is Ok,
        r2 is Ok,
        has_pool(s2.pools, pool_id),
        pool_of(s2.pools, pool_id) == (PoolV {
            pool_id,
            token_1: token_1_b,
            token_2: token_2_b,
            apr: apr_b,
            apy: apy_b,
            tvl: tvl_b,
            converted_tvl: converted_tvl_b,
            reward_coin: reward_coin_b,
        }),
        s2.pools.len() == s1.pools.len(),
        forall|pid: u64|
            pid != pool_id ==> ((has_pool(#[trigger] s2.pools, pid) <==> has_pool(s0.pools, pid))
                && (has_pool(s0.pools, pid) ==> pool_of(s2.pools, pid) == pool_of(s0.pools, pid))),
{
    assert(s1.owner == s0.owner);
    assert(has_pool(s1.pools, pool_id));
}

/// A successful pool update keeps the token pair and the reward-coin
/// list verbatim while installing the new rates and TVL figures.
pub proof fn law_update_pool_preserves(
    s0: StateV,
    s1: StateV,
    r: Result<Response, ContractError>,
    sender: Seq<char>,
    pool_id: u64,
    apr: AnnualInfo,
    apy: AnnualInfo,
    tvl: u128,
    converted_tvl: u128,
)
    requires
        s0.wf(),
        update_pool_post(s0, s1, r, sender, pool_id, apr, apy, tvl, converted_tvl),
        sender == s0.owner,
        has_pool(s0.pools, pool_id),
    ensures
        r is Ok,
        pool_of(s1.pools, pool_id).token_1 == pool_of(s0.pools, pool_id).token_1,
        pool_of(s1.pools, pool_id).token_2 == pool_of(s0.pools, pool_id).token_2,
        pool_of(s1.pools, pool_id).reward_coin == pool_of(s0.pools, pool_id).reward_coin,
        pool_of(s1.pools, pool_id).apr == apr,
        pool_of(s1.pools, pool_id).apy == apy,
        pool_of(s1.pools, pool_id).tvl == tvl,
        pool_of(s1.pools, pool_id).converted_tvl == converted_tvl,
{
}

} // verus!
