//! The registry's laws: uniqueness of registration, exclusivity of
//! ownership, exactness of the fee rule, and correctness of pagination and
//! lookup, proved over the transition functions of [`crate::contract`].

use vstd::prelude::*;

use crate::contract::{
    execute_trans, fee_ok, owner_updated, register_trans, transfer_trans,
};
use crate::error::ErrorV;
use crate::msg::{ExecuteMsgV, MessageInfoV};
use crate::order::{lemma_lex_asymmetric, lemma_lex_irreflexive, lex_lt};
use crate::state::{
    after_cursor, entries_sorted, find_entry, insert_pos, inserted, lemma_find_entry_at,
    lemma_find_entry_none, lemma_insert_pos_bounds, lemma_inserted_sorted, lemma_skip_count_bounds,
    lemma_skip_count_is, lemma_sorted_unique, page_spec, pending, skip_count, CoinV, EntryV,
    MetadataV, RegistryV,
};
use crate::validate::valid_registration;

verus! {

/// A successful registration records exactly the caller as owner, with the
/// given metadata, and keeps the store well formed.
pub proof fn lemma_register_records(
    s: RegistryV,
    sender: Seq<char>,
    name: Seq<char>,
    meta: MetadataV,
    funds: Seq<CoinV>,
)
    requires
        entries_sorted(s.entries),
        register_trans(s, sender, name, meta, funds).1 is None,
    ensures
        ({
            let s2 = register_trans(s, sender, name, meta, funds).0;
            &&& entries_sorted(s2.entries)
            &&& find_entry(s2.entries, name) == Some(EntryV { owner: sender, metadata: meta })
        }),
{
    let e = EntryV { owner: sender, metadata: meta };
    let es = s.entries;
    let ns = inserted(es, name, e);
    let p = insert_pos(es, name);
    lemma_find_entry_none(es, name);
    lemma_insert_pos_bounds(es, name);
    lemma_inserted_sorted(es, name, e);
    assert(ns[p] == (name, e));
    assert forall|j: int| 0 <= j < p implies (#[trigger] ns[j].0) != name by {
        assert(ns[j] == es[j]);
    }
    lemma_find_entry_at(ns, name, p);
}

/// Uniqueness: once `name` is registered, registering it again fails, the
/// state stands still, and a well-formed attempt is refused as
/// `Unauthorized`, whoever calls and whatever is paid.
pub proof fn lemma_register_unique(
    s: RegistryV,
    sender: Seq<char>,
    name: Seq<char>,
    meta: MetadataV,
    funds: Seq<CoinV>,
)
    requires
        find_entry(s.entries, name) is Some,
    ensures
        ({
            let (s2, err) = register_trans(s, sender, name, meta, funds);
            &&& err is Some
            &&& s2 == s
            &&& fee_ok(funds, s.config.registration_fee) && valid_registration(name, meta)
                ==> err == Some(ErrorV::Unauthorized)
        }),
{
}

/// Uniqueness, chained: after a successful registration of `name`, any
/// second registration of it fails; with the fee paid and a valid request it
/// fails exactly `Unauthorized`.
pub proof fn lemma_register_twice_fails(
    s: RegistryV,
    sender1: Seq<char>,
    meta1: MetadataV,
    funds1: Seq<CoinV>,
    sender2: Seq<char>,
    meta2: MetadataV,
    funds2: Seq<CoinV>,
    name: Seq<char>,
)
    requires
        entries_sorted(s.entries),
        register_trans(s, sender1, name, meta1, funds1).1 is None,
    ensures
        ({
            let s1 = register_trans(s, sender1, name, meta1, funds1).0;
            let (s2, err) = register_trans(s1, sender2, name, meta2, funds2);
            &&& err is Some
            &&& s2 == s1
            &&& fee_ok(funds2, s1.config.registration_fee) && valid_registration(name, meta2)
                ==> err == Some(ErrorV::Unauthorized)
        }),
{
    lemma_register_records(s, sender1, name, meta1, funds1);
    let s1 = register_trans(s, sender1, name, meta1, funds1).0;
    lemma_register_unique(s1, sender2, name, meta2, funds2);
}

/// A registered name stays registered across every operation: no operation
/// ever removes an entry, and the store stays well formed.
pub proof fn lemma_registered_persists(
    s: RegistryV,
    info: MessageInfoV,
    msg: ExecuteMsgV,
    n: Seq<char>,
)
    requires
        entries_sorted(s.entries),
        find_entry(s.entries, n) is Some,
    ensures
        ({
            let (s2, _msgs, _err) = execute_trans(s, info, msg);
            &&& entries_sorted(s2.entries)
            &&& find_entry(s2.entries, n) is Some
        }),
{
    let (s2, _msgs, _err) = execute_trans(s, info, msg);
    lemma_find_entry_none(s.entries, n);
    let k = choose|k: int| 0 <= k < s.entries.len() && (#[trigger] s.entries[k].0) == n;
    match msg {
        ExecuteMsgV::Register { name, metadata } => {
            if register_trans(s, info.sender, name, metadata, info.funds).1 is None {
                lemma_register_records(s, info.sender, name, metadata, info.funds);
                let es = s.entries;
                let p = insert_pos(es, name);
                let ns = inserted(es, name, EntryV { owner: info.sender, metadata });
                lemma_insert_pos_bounds(es, name);
                if k < p {
                    assert(ns[k].0 == n);
                } else {
                    assert(ns[k + 1].0 == n);
                }
                lemma_find_entry_none(ns, n);
            }
        },
        ExecuteMsgV::Transfer { name, to } => {
            if transfer_trans(s, info.sender, name, to, info.funds).1 is None {
                let ns = owner_updated(s.entries, name, to);
                assert(ns[k].0 == n);
                lemma_find_entry_none(ns, n);
                assert forall|i: int, j: int| 0 <= i < j < ns.len() implies lex_lt(
                    #[trigger] ns[i].0,
                    #[trigger] ns[j].0,
                ) by {
                    assert(ns[i].0 == s.entries[i].0);
                    assert(ns[j].0 == s.entries[j].0);
                }
            }
        },
        ExecuteMsgV::SendFundsTo { name: _ } => {},
    }
}

/// How `owner_updated` changes lookups: the named entry's owner is replaced,
/// its metadata kept, and every other name reads unchanged.
proof fn lemma_find_owner_updated(
    es: Seq<(Seq<char>, EntryV)>,
    name: Seq<char>,
    to: Seq<char>,
    m: Seq<char>,
)
    ensures
        find_entry(owner_updated(es, name, to), m) == (match find_entry(es, m) {
            None => None::<EntryV>,
            Some(e) => if m == name {
                Some(EntryV { owner: to, metadata: e.metadata })
            } else {
                Some(e)
            },
        }),
    decreases es.len(),
{
    let ou = owner_updated(es, name, to);
    if es.len() > 0 {
        lemma_find_owner_updated(es.drop_first(), name, to, m);
        assert(ou.drop_first() =~= owner_updated(es.drop_first(), name, to));
        assert(ou[0].0 == es[0].0);
    }
}

/// Ownership exclusivity: with the fee paid, the name registered and a valid
/// destination, a transfer succeeds exactly when the caller is the current
/// owner; it then records the new owner, keeps the metadata and every other
/// entry, and a failed transfer changes nothing.
pub proof fn lemma_transfer_exclusive(
    s: RegistryV,
    caller: Seq<char>,
    name: Seq<char>,
    to: Seq<char>,
    funds: Seq<CoinV>,
)
    requires
        entries_sorted(s.entries),
    ensures
        ({
            let (s2, err) = transfer_trans(s, caller, name, to, funds);
            &&& (err is None <==> {
                &&& fee_ok(funds, s.config.transfer_fee)
                &&& find_entry(s.entries, name) is Some
                &&& find_entry(s.entries, name)->0.owner == caller
                &&& crate::validate::is_valid_addr(to)
            })
            &&& (err is None ==> {
                &&& s2.config == s.config
                &&& find_entry(s2.entries, name) == Some(
                    EntryV { owner: to, metadata: find_entry(s.entries, name)->0.metadata },
                )
                &&& forall|m: Seq<char>| m != name ==> find_entry(s2.entries, m) == find_entry(
                    s.entries,
                    m,
                )
            })
            &&& (err is Some ==> s2 == s)
        }),
{
    let (s2, err) = transfer_trans(s, caller, name, to, funds);
    if err is None {
        lemma_find_owner_updated(s.entries, name, to, name);
        assert forall|m: Seq<char>| m != name implies find_entry(s2.entries, m) == find_entry(
            s.entries,
            m,
        ) by {
            lemma_find_owner_updated(s.entries, name, to, m);
        }
    }
}

/// Fee exactness: funds that are not exactly one unit of the configured fee
/// make `Register` and `Transfer` fail with `InvalidRegistrationFee`, which
/// carries the given funds and the expected fee; the state stands still.
pub proof fn lemma_fee_exactness(
    s: RegistryV,
    sender: Seq<char>,
    name: Seq<char>,
    meta: MetadataV,
    to: Seq<char>,
    funds: Seq<CoinV>,
)
    ensures
        !fee_ok(funds, s.config.registration_fee) ==> register_trans(s, sender, name, meta, funds)
            == (
            s,
            Some(
                ErrorV::InvalidRegistrationFee {
                    given: funds,
                    expected: s.config.registration_fee,
                },
            ),
        ),
        !fee_ok(funds, s.config.transfer_fee) ==> transfer_trans(s, sender, name, to, funds) == (
            s,
            Some(ErrorV::InvalidRegistrationFee { given: funds, expected: s.config.transfer_fee }),
        ),
{
}

/// Each page fits its limit, lists only names strictly beyond the cursor,
/// and lists them in strictly ascending order.
pub proof fn lemma_page_shape(
    es: Seq<(Seq<char>, EntryV)>,
    cursor: Option<Seq<char>>,
    limit: int,
)
    requires
        entries_sorted(es),
        limit >= 0,
    ensures
        ({
            let page = page_spec(es, cursor, limit);
            &&& page.len() <= limit
            &&& forall|k: int| 0 <= k < page.len() ==> after_cursor(#[trigger] page[k].0, cursor)
            &&& forall|i: int, j: int|
                0 <= i < j < page.len() ==> lex_lt(#[trigger] page[i].0, #[trigger] page[j].0)
        }),
{
    let sc = skip_count(es, cursor);
    let page = page_spec(es, cursor, limit);
    lemma_skip_count_bounds(es, cursor);
    assert forall|k: int| 0 <= k < page.len() implies after_cursor(
        #[trigger] page[k].0,
        cursor,
    ) by {
        assert(page[k] == es[sc + k]);
        if k > 0 {
            match cursor {
                None => {},
                Some(c) => {
                    crate::order::lemma_lex_transitive(c, es[sc].0, es[sc + k].0);
                },
            }
        }
    }
    assert forall|i: int, j: int| 0 <= i < j < page.len() implies lex_lt(
        #[trigger] page[i].0,
        #[trigger] page[j].0,
    ) by {
        assert(page[i] == es[sc + i]);
        assert(page[j] == es[sc + j]);
    }
}

/// The full traversal starts at the whole store: with no cursor, nothing is
/// skipped.
pub proof fn lemma_pending_all(es: Seq<(Seq<char>, EntryV)>)
    ensures
        pending(es, None) == es,
{
    lemma_skip_count_is(es, None, 0);
    assert(pending(es, None) =~= es);
}

/// Pagination chains: an empty page means the traversal is complete, and a
/// nonempty page's last name, used as the next cursor, resumes the traversal
/// exactly where the page ended — no omission and no duplicate.
pub proof fn lemma_page_chain(es: Seq<(Seq<char>, EntryV)>, cursor: Option<Seq<char>>, limit: int)
    requires
        entries_sorted(es),
        limit > 0,
    ensures
        ({
            let page = page_spec(es, cursor, limit);
            &&& (page.len() == 0 ==> pending(es, cursor) == Seq::<(Seq<char>, EntryV)>::empty())
            &&& (page.len() > 0 ==> pending(es, Some(page.last().0)) == pending(es, cursor).skip(
                page.len() as int,
            ))
        }),
{
    let sc = skip_count(es, cursor);
    let rest = pending(es, cursor);
    let page = page_spec(es, cursor, limit);
    lemma_skip_count_bounds(es, cursor);
    if page.len() == 0 {
        assert(rest =~= Seq::<(Seq<char>, EntryV)>::empty());
    } else {
        let m = sc + page.len() - 1;
        assert(page.last() == es[m]);
        let last = es[m].0;
        assert forall|k: int| 0 <= k < m + 1 implies !after_cursor(
            #[trigger] es[k].0,
            Some(last),
        ) by {
            if k < m {
                lemma_lex_asymmetric(es[k].0, last);
            } else {
                lemma_lex_irreflexive(last);
            }
        }
        lemma_skip_count_is(es, Some(last), m + 1);
        assert(pending(es, Some(last)) =~= rest.skip(page.len() as int));
    }
}

/// Everything a cursor-driven walk returns from here on: page after page,
/// each page starting strictly after the last name of the one before, until
/// a page comes back empty.
pub open spec fn walk(
    es: Seq<(Seq<char>, EntryV)>,
    cursor: Option<Seq<char>>,
    limit: int,
) -> Seq<(Seq<char>, EntryV)>
    decreases pending(es, cursor).len(),
    when limit > 0 && entries_sorted(es)
    via walk_decreases
{
    let page = page_spec(es, cursor, limit);
    if page.len() == 0 {
        Seq::empty()
    } else {
        page + walk(es, Some(page.last().0), limit)
    }
}

#[via_fn]
proof fn walk_decreases(es: Seq<(Seq<char>, EntryV)>, cursor: Option<Seq<char>>, limit: int) {
    lemma_page_chain(es, cursor, limit);
}

proof fn lemma_walk_pending(es: Seq<(Seq<char>, EntryV)>, cursor: Option<Seq<char>>, limit: int)
    requires
        entries_sorted(es),
        limit > 0,
    ensures
        walk(es, cursor, limit) == pending(es, cursor),
    decreases pending(es, cursor).len(),
{
    let page = page_spec(es, cursor, limit);
    let rest = pending(es, cursor);
    lemma_page_chain(es, cursor, limit);
    if page.len() > 0 {
        lemma_walk_pending(es, Some(page.last().0), limit);
        assert(page + rest.skip(page.len() as int) =~= rest);
    }
}

/// Pagination correctness, whole-walk form: for any page limit, starting
/// with no cursor and passing each page's last name as the next cursor until
/// an empty page yields exactly the registered entries, in ascending order
/// with no omission and no duplicate.
pub proof fn lemma_walk_lists_everything(es: Seq<(Seq<char>, EntryV)>, limit: int)
    requires
        entries_sorted(es),
        limit > 0,
    ensures
        walk(es, None, limit) == es,
{
    lemma_pending_all(es);
    lemma_walk_pending(es, None, limit);
}

/// Lookup and listing agree: a name that `Lookup` finds stands at exactly
/// one position of the full traversal, with the identical entry; a name it
/// does not find stands nowhere.
pub proof fn lemma_lookup_list_consistent(s: RegistryV, name: Seq<char>)
    requires
        entries_sorted(s.entries),
    ensures
        ({
            let es = pending(s.entries, None);
            match find_entry(s.entries, name) {
                Some(e) => exists|i: int|
                    {
                        &&& 0 <= i < es.len()
                        &&& (#[trigger] es[i].0) == name
                        &&& es[i].1 == e
                        &&& forall|j: int|
                            0 <= j < es.len() && j != i ==> (#[trigger] es[j].0) != name
                    },
                None => forall|j: int| 0 <= j < es.len() ==> (#[trigger] es[j].0) != name,
            }
        }),
{
    lemma_pending_all(s.entries);
    let es = s.entries;
    lemma_find_entry_none(es, name);
    lemma_sorted_unique(es);
    match find_entry(es, name) {
        Some(e) => {
            let i = choose|i: int| 0 <= i < es.len() && (#[trigger] es[i].0) == name;
            assert forall|j: int| 0 <= j < i implies (#[trigger] es[j].0) != name by {}
            lemma_find_entry_at(es, name, i);
        },
        None => {},
    }
}

} // verus!
