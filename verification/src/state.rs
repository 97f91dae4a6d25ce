//! Data model: fees, entries, and the registry state that owns them.
//!
//! The registry holds the configured fees and the entry store: a vector of
//! (name, entry) pairs kept strictly sorted by name, which gives unique names
//! and an ordered range scan for pagination.

use vstd::prelude::*;

use crate::order::{lemma_lex_asymmetric, lemma_lex_transitive, lex_cmp, lex_lt, NameOrder};

verus! {

/// An exact amount of one denomination.
#[derive(Debug, PartialEq)]
pub struct Coin {
    pub denom: String,
    pub amount: u128,
}

/// Mathematical value of a [`Coin`].
#[verifier::ext_equal]
pub struct CoinV {
    pub denom: Seq<char>,
    pub amount: u128,
}

impl View for Coin {
    type V = CoinV;

    open spec fn view(&self) -> CoinV {
        CoinV { denom: self.denom@, amount: self.amount }
    }
}

impl Clone for Coin {
    fn clone(&self) -> (r: Self)
        ensures
            r@ == self@,
    {
        Coin { denom: self.denom.clone(), amount: self.amount }
    }
}

/// The two configured fees.
#[derive(Debug, PartialEq)]
pub struct Config {
    pub registration_fee: Coin,
    pub transfer_fee: Coin,
}

impl Clone for Config {
    fn clone(&self) -> (r: Self)
        ensures
            r@ == self@,
    {
        Config {
            registration_fee: self.registration_fee.clone(),
            transfer_fee: self.transfer_fee.clone(),
        }
    }
}

/// Mathematical value of a [`Config`].
#[verifier::ext_equal]
pub struct ConfigV {
    pub registration_fee: CoinV,
    pub transfer_fee: CoinV,
}

impl View for Config {
    type V = ConfigV;

    open spec fn view(&self) -> ConfigV {
        ConfigV { registration_fee: self.registration_fee@, transfer_fee: self.transfer_fee@ }
    }
}

/// Optional data recorded with a registered name.
#[derive(Debug, PartialEq)]
pub struct Metadata {
    pub url: Option<String>,
    pub validator_address: Option<String>,
}

/// Mathematical value of a [`Metadata`].
#[verifier::ext_equal]
pub struct MetadataV {
    pub url: Option<Seq<char>>,
    pub validator_address: Option<Seq<char>>,
}

/// Mathematical value of an optional string.
pub open spec fn opt_view(o: Option<String>) -> Option<Seq<char>> {
    match o {
        Some(s) => Some(s@),
        None => None,
    }
}

impl View for Metadata {
    type V = MetadataV;

    open spec fn view(&self) -> MetadataV {
        MetadataV { url: opt_view(self.url), validator_address: opt_view(self.validator_address) }
    }
}

fn clone_opt(o: &Option<String>) -> (r: Option<String>)
    ensures
        opt_view(r) == opt_view(*o),
{
    match o {
        Some(s) => Some(s.clone()),
        None => None,
    }
}

impl Clone for Metadata {
    fn clone(&self) -> (r: Self)
        ensures
            r@ == self@,
    {
        Metadata { url: clone_opt(&self.url), validator_address: clone_opt(&self.validator_address) }
    }
}

/// One registered name's record: its current owner and its metadata.
#[derive(Debug, PartialEq)]
pub struct Entry {
    pub owner: String,
    pub metadata: Metadata,
}

/// Mathematical value of an [`Entry`].
#[verifier::ext_equal]
pub struct EntryV {
    pub owner: Seq<char>,
    pub metadata: MetadataV,
}

impl View for Entry {
    type V = EntryV;

    open spec fn view(&self) -> EntryV {
        EntryV { owner: self.owner@, metadata: self.metadata@ }
    }
}

impl Clone for Entry {
    fn clone(&self) -> (r: Self)
        ensures
            r@ == self@,
    {
        Entry { owner: self.owner.clone(), metadata: self.metadata.clone() }
    }
}

/// Mathematical value of a list of coins.
pub open spec fn coins_view(v: Seq<Coin>) -> Seq<CoinV> {
    Seq::new(v.len(), |i: int| v[i]@)
}

/// Mathematical value of a list of (name, entry) pairs.
pub open spec fn kv_view(v: Seq<(String, Entry)>) -> Seq<(Seq<char>, EntryV)> {
    Seq::new(v.len(), |i: int| (v[i].0@, v[i].1@))
}

/// The names of `es` are strictly ascending, hence unique.
pub open spec fn entries_sorted(es: Seq<(Seq<char>, EntryV)>) -> bool {
    forall|i: int, j: int|
        0 <= i < j < es.len() ==> lex_lt(#[trigger] es[i].0, #[trigger] es[j].0)
}

/// The entry recorded under `name`: the first pair with that name, if any.
pub open spec fn find_entry(es: Seq<(Seq<char>, EntryV)>, name: Seq<char>) -> Option<EntryV>
    decreases es.len(),
{
    if es.len() == 0 {
        None
    } else if es[0].0 == name {
        Some(es[0].1)
    } else {
        find_entry(es.drop_first(), name)
    }
}

/// How many leading entries a scan from `name` skips: the number of names
/// lexicographically below it.
pub open spec fn insert_pos(es: Seq<(Seq<char>, EntryV)>, name: Seq<char>) -> int
    decreases es.len(),
{
    if es.len() == 0 {
        0
    } else if lex_lt(es[0].0, name) {
        1 + insert_pos(es.drop_first(), name)
    } else {
        0
    }
}

/// `es` with `(name, e)` inserted at its sorted position.
pub open spec fn inserted(
    es: Seq<(Seq<char>, EntryV)>,
    name: Seq<char>,
    e: EntryV,
) -> Seq<(Seq<char>, EntryV)> {
    let p = insert_pos(es, name);
    es.take(p) + seq![(name, e)] + es.skip(p)
}

/// Whether `name` lies strictly beyond the pagination cursor.
pub open spec fn after_cursor(name: Seq<char>, cursor: Option<Seq<char>>) -> bool {
    match cursor {
        None => true,
        Some(c) => lex_lt(c, name),
    }
}

/// How many leading entries a page starting after `cursor` skips.
pub open spec fn skip_count(es: Seq<(Seq<char>, EntryV)>, cursor: Option<Seq<char>>) -> int
    decreases es.len(),
{
    if es.len() == 0 {
        0
    } else if after_cursor(es[0].0, cursor) {
        0
    } else {
        1 + skip_count(es.drop_first(), cursor)
    }
}

/// The entries still ahead of a traversal that has passed `cursor`.
pub open spec fn pending(
    es: Seq<(Seq<char>, EntryV)>,
    cursor: Option<Seq<char>>,
) -> Seq<(Seq<char>, EntryV)> {
    es.skip(skip_count(es, cursor))
}

/// One page of a listing: the first `limit` entries beyond `cursor`.
pub open spec fn page_spec(
    es: Seq<(Seq<char>, EntryV)>,
    cursor: Option<Seq<char>>,
    limit: int,
) -> Seq<(Seq<char>, EntryV)> {
    let rest = pending(es, cursor);
    rest.take(if limit < rest.len() { limit } else { rest.len() as int })
}

pub proof fn lemma_sorted_unique(es: Seq<(Seq<char>, EntryV)>)
    requires
        entries_sorted(es),
    ensures
        forall|i: int, j: int|
            0 <= i < es.len() && 0 <= j < es.len() && i != j ==> (#[trigger] es[i].0)
                != (#[trigger] es[j].0),
{
    assert forall|i: int, j: int|
        0 <= i < es.len() && 0 <= j < es.len() && i != j implies (#[trigger] es[i].0)
        != (#[trigger] es[j].0) by {
        if i < j {
            lemma_lex_asymmetric(es[i].0, es[j].0);
        } else {
            lemma_lex_asymmetric(es[j].0, es[i].0);
        }
    }
}

pub proof fn lemma_find_entry_none(es: Seq<(Seq<char>, EntryV)>, name: Seq<char>)
    ensures
        find_entry(es, name) is None <==> (forall|k: int|
            0 <= k < es.len() ==> (#[trigger] es[k].0) != name),
    decreases es.len(),
{
    if es.len() > 0 {
        let esd = es.drop_first();
        lemma_find_entry_none(esd, name);
        assert forall|k: int| 0 <= k < esd.len() implies #[trigger] esd[k] == es[k + 1] by {}
        assert forall|k: int| 1 <= k < es.len() implies #[trigger] es[k] == esd[k - 1] by {}
    }
}

pub proof fn lemma_find_entry_at(es: Seq<(Seq<char>, EntryV)>, name: Seq<char>, i: int)
    requires
        0 <= i < es.len(),
        es[i].0 == name,
        forall|j: int| 0 <= j < i ==> (#[trigger] es[j].0) != name,
    ensures
        find_entry(es, name) == Some(es[i].1),
    decreases i,
{
    if i > 0 {
        lemma_find_entry_at(es.drop_first(), name, i - 1);
    }
}

pub proof fn lemma_insert_pos_bounds(es: Seq<(Seq<char>, EntryV)>, name: Seq<char>)
    ensures
        0 <= insert_pos(es, name) <= es.len(),
        forall|k: int| 0 <= k < insert_pos(es, name) ==> lex_lt(#[trigger] es[k].0, name),
        insert_pos(es, name) < es.len() ==> !lex_lt(es[insert_pos(es, name)].0, name),
    decreases es.len(),
{
    if es.len() > 0 && lex_lt(es[0].0, name) {
        let esd = es.drop_first();
        lemma_insert_pos_bounds(esd, name);
        assert forall|k: int| 0 <= k < esd.len() implies #[trigger] esd[k] == es[k + 1] by {}
        assert forall|k: int| 1 <= k < es.len() implies #[trigger] es[k] == esd[k - 1] by {}
    }
}

pub proof fn lemma_insert_pos_is(es: Seq<(Seq<char>, EntryV)>, name: Seq<char>, i: int)
    requires
        0 <= i <= es.len(),
        forall|k: int| 0 <= k < i ==> lex_lt(#[trigger] es[k].0, name),
        i < es.len() ==> !lex_lt(es[i].0, name),
    ensures
        insert_pos(es, name) == i,
    decreases es.len(),
{
    if es.len() > 0 && lex_lt(es[0].0, name) {
        lemma_insert_pos_is(es.drop_first(), name, i - 1);
    }
}

/// Inserting an absent name at its sorted position keeps the store sorted.
pub proof fn lemma_inserted_sorted(es: Seq<(Seq<char>, EntryV)>, name: Seq<char>, e: EntryV)
    requires
        entries_sorted(es),
        forall|k: int| 0 <= k < es.len() ==> (#[trigger] es[k].0) != name,
    ensures
        entries_sorted(inserted(es, name, e)),
{
    let p = insert_pos(es, name);
    let ns = inserted(es, name, e);
    lemma_insert_pos_bounds(es, name);
    assert forall|k: int| p <= k < es.len() implies lex_lt(name, #[trigger] es[k].0) by {
        crate::order::lemma_lex_connected(es[p].0, name);
        if k > p {
            lemma_lex_transitive(name, es[p].0, es[k].0);
        }
    }
    assert forall|i: int, j: int| 0 <= i < j < ns.len() implies lex_lt(
        #[trigger] ns[i].0,
        #[trigger] ns[j].0,
    ) by {
        if i < p && j == p {
        } else if i == p && j > p {
        } else if i < p && j > p {
            assert(lex_lt(es[i].0, name));
            assert(lex_lt(name, es[j - 1].0));
            lemma_lex_transitive(es[i].0, name, es[j - 1].0);
        }
    }
}

pub proof fn lemma_skip_count_bounds(es: Seq<(Seq<char>, EntryV)>, cursor: Option<Seq<char>>)
    ensures
        0 <= skip_count(es, cursor) <= es.len(),
        forall|k: int|
            0 <= k < skip_count(es, cursor) ==> !after_cursor(#[trigger] es[k].0, cursor),
        skip_count(es, cursor) < es.len() ==> after_cursor(es[skip_count(es, cursor)].0, cursor),
    decreases es.len(),
{
    if es.len() > 0 && !after_cursor(es[0].0, cursor) {
        let esd = es.drop_first();
        lemma_skip_count_bounds(esd, cursor);
        assert forall|k: int| 0 <= k < esd.len() implies #[trigger] esd[k] == es[k + 1] by {}
        assert forall|k: int| 1 <= k < es.len() implies #[trigger] es[k] == esd[k - 1] by {}
    }
}

pub proof fn lemma_skip_count_is(
    es: Seq<(Seq<char>, EntryV)>,
    cursor: Option<Seq<char>>,
    i: int,
)
    requires
        0 <= i <= es.len(),
        forall|k: int| 0 <= k < i ==> !after_cursor(#[trigger] es[k].0, cursor),
        i < es.len() ==> after_cursor(es[i].0, cursor),
    ensures
        skip_count(es, cursor) == i,
    decreases es.len(),
{
    if es.len() > 0 && !after_cursor(es[0].0, cursor) {
        lemma_skip_count_is(es.drop_first(), cursor, i - 1);
    }
}

proof fn lemma_lex_chain(es: Seq<(Seq<char>, EntryV)>, i: int, j: int)
    requires
        forall|k: int| 0 <= k < es.len() - 1 ==> lex_lt(#[trigger] es[k].0, es[k + 1].0),
        0 <= i < j < es.len(),
    ensures
        lex_lt(es[i].0, es[j].0),
    decreases j - i,
{
    if j > i + 1 {
        lemma_lex_chain(es, i, j - 1);
        lemma_lex_transitive(es[i].0, es[j - 1].0, es[j].0);
    }
}

/// Ascending adjacent names make the whole store ascend.
proof fn lemma_adjacent_sorted(es: Seq<(Seq<char>, EntryV)>)
    requires
        forall|k: int| 0 <= k < es.len() - 1 ==> lex_lt(#[trigger] es[k].0, es[k + 1].0),
    ensures
        entries_sorted(es),
{
    assert forall|i: int, j: int| 0 <= i < j < es.len() implies lex_lt(
        #[trigger] es[i].0,
        #[trigger] es[j].0,
    ) by {
        lemma_lex_chain(es, i, j);
    }
}

/// The registry: the configured fees and the sorted entry store.
pub struct Registry {
    config: Config,
    entries: Vec<(String, Entry)>,
}

/// Mathematical value of a [`Registry`].
#[verifier::ext_equal]
pub struct RegistryV {
    pub config: ConfigV,
    pub entries: Seq<(Seq<char>, EntryV)>,
}

impl View for Registry {
    type V = RegistryV;

    closed spec fn view(&self) -> RegistryV {
        RegistryV { config: self.config@, entries: kv_view(self.entries@) }
    }
}

impl Registry {
    /// The entry store never holds two entries under one name: its names
    /// ascend strictly.
    pub open spec fn wf(&self) -> bool {
        entries_sorted(self@.entries)
    }

    /// A fresh registry with the given fees and no entries.
    pub fn new(config: Config) -> (r: Registry)
        ensures
            r.wf(),
            r@.config == config@,
            r@.entries == Seq::<(Seq<char>, EntryV)>::empty(),
    {
        let r = Registry { config, entries: Vec::new() };
        proof {
            assert(r@.entries =~= Seq::<(Seq<char>, EntryV)>::empty());
        }
        r
    }

    /// Reopen a registry from a stored configuration and entry list. The
    /// list must be strictly ascending by name, as [`Registry::page`] hands
    /// it out; anything else is refused.
    pub fn open(config: Config, entries: Vec<(String, Entry)>) -> (r: Option<Registry>)
        ensures
            match r {
                Some(reg) => {
                    &&& reg.wf()
                    &&& reg@.config == config@
                    &&& reg@.entries == kv_view(entries@)
                },
                None => !entries_sorted(kv_view(entries@)),
            },
    {
        let ghost es = kv_view(entries@);
        let n = entries.len();
        let mut i: usize = 0;
        while i < n && i + 1 < n
            invariant
                i <= n,
                n == es.len(),
                es == kv_view(entries@),
                forall|k: int| 0 <= k < i ==> lex_lt(#[trigger] es[k].0, es[k + 1].0),
            decreases n - i,
        {
            if lex_cmp(entries[i].0.as_str(), entries[i + 1].0.as_str()) != NameOrder::Before {
                proof {
                    assert(!lex_lt(es[i as int].0, es[i as int + 1].0));
                }
                return None;
            }
            i = i + 1;
        }
        proof {
            lemma_adjacent_sorted(es);
        }
        Some(Registry { config, entries })
    }

    /// The configured fees.
    pub fn config(&self) -> (c: &Config)
        ensures
            c@ == self@.config,
    {
        &self.config
    }

    /// Point read: the position of `name` in the store, if present.
    pub fn find_index(&self, name: &str) -> (r: Option<usize>)
        ensures
            match r {
                Some(i) => {
                    &&& i < self@.entries.len()
                    &&& self@.entries[i as int].0 == name@
                    &&& find_entry(self@.entries, name@) == Some(self@.entries[i as int].1)
                },
                None => find_entry(self@.entries, name@) is None,
            },
    {
        let n = self.entries.len();
        let mut i: usize = 0;
        while i < n
            invariant
                i <= n,
                n == self@.entries.len(),
                forall|k: int| 0 <= k < i ==> (#[trigger] self@.entries[k].0) != name@,
            decreases n - i,
        {
            if lex_cmp(self.entries[i].0.as_str(), name) == NameOrder::Same {
                proof {
                    lemma_find_entry_at(self@.entries, name@, i as int);
                }
                return Some(i);
            }
            i = i + 1;
        }
        proof {
            lemma_find_entry_none(self@.entries, name@);
        }
        None
    }

    /// The pair stored at position `i`.
    pub fn entry_at(&self, i: usize) -> (r: &(String, Entry))
        requires
            i < self@.entries.len(),
        ensures
            r.0@ == self@.entries[i as int].0,
            r.1@ == self@.entries[i as int].1,
    {
        &self.entries[i]
    }

    /// Create the entry for a name not yet in the store, keeping the order.
    pub fn insert_entry(&mut self, name: String, entry: Entry)
        requires
            old(self).wf(),
            find_entry(old(self)@.entries, name@) is None,
        ensures
            final(self).wf(),
            final(self)@.config == old(self)@.config,
            final(self)@.entries == inserted(old(self)@.entries, name@, entry@),
    {
        proof {
            lemma_find_entry_none(old(self)@.entries, name@);
            lemma_insert_pos_bounds(old(self)@.entries, name@);
            lemma_inserted_sorted(old(self)@.entries, name@, entry@);
        }
        let ghost es = self@.entries;
        let n = self.entries.len();
        let mut i: usize = 0;
        while i < n && lex_cmp(self.entries[i].0.as_str(), name.as_str()) == NameOrder::Before
            invariant
                i <= n,
                n == es.len(),
                self@.entries == es,
                forall|k: int| 0 <= k < i ==> lex_lt(#[trigger] es[k].0, name@),
            decreases n - i,
        {
            i = i + 1;
        }
        proof {
            lemma_insert_pos_is(es, name@, i as int);
        }
        self.entries.insert(i, (name, entry));
        proof {
            assert(final(self)@.entries =~= inserted(es, name@, entry@));
        }
    }

    /// Overwrite the owner of the entry at position `i`; nothing else moves.
    pub fn set_owner(&mut self, i: usize, new_owner: String)
        requires
            old(self).wf(),
            i < old(self)@.entries.len(),
        ensures
            final(self).wf(),
            final(self)@.config == old(self)@.config,
            final(self)@.entries == old(self)@.entries.update(
                i as int,
                (
                    old(self)@.entries[i as int].0,
                    EntryV { owner: new_owner@, metadata: old(self)@.entries[i as int].1.metadata },
                ),
            ),
    {
        let ghost es = self@.entries;
        let (name, entry) = self.entries.remove(i);
        self.entries.insert(
            i,
            (name, Entry { owner: new_owner, metadata: entry.metadata }),
        );
        proof {
            let nes = final(self)@.entries;
            let target = es.update(
                i as int,
                (es[i as int].0, EntryV { owner: new_owner@, metadata: es[i as int].1.metadata }),
            );
            assert(nes =~= target);
            assert forall|p: int, q: int| 0 <= p < q < nes.len() implies lex_lt(
                #[trigger] nes[p].0,
                #[trigger] nes[q].0,
            ) by {
                assert(nes[p].0 == es[p].0);
                assert(nes[q].0 == es[q].0);
            }
        }
    }

    /// Ordered range scan: up to `limit` entries strictly beyond the cursor.
    pub fn page(&self, start_after: &Option<String>, limit: usize) -> (r: Vec<(String, Entry)>)
        requires
            self.wf(),
        ensures
            kv_view(r@) == page_spec(self@.entries, opt_view(*start_after), limit as int),
    {
        let ghost es = self@.entries;
        let ghost cursor = opt_view(*start_after);
        let n = self.entries.len();
        let mut i: usize = 0;
        match start_after {
            None => {
                proof {
                    lemma_skip_count_is(es, cursor, 0);
                }
            },
            Some(c) => {
                while i < n && lex_cmp(c.as_str(), self.entries[i].0.as_str()) != NameOrder::Before
                    invariant
                        i <= n,
                        n == es.len(),
                        self@.entries == es,
                        cursor == Some(c@),
                        forall|k: int| 0 <= k < i ==> !after_cursor(#[trigger] es[k].0, cursor),
                    decreases n - i,
                {
                    i = i + 1;
                }
                proof {
                    lemma_skip_count_is(es, cursor, i as int);
                }
            },
        }
        let mut out: Vec<(String, Entry)> = Vec::new();
        let start = i;
        while i < n && out.len() < limit
            invariant
                start <= i <= n,
                n == es.len(),
                self@.entries == es,
                out.len() == i - start,
                out.len() <= limit,
                forall|k: int| 0 <= k < out.len() ==> kv_view(out@)[k] == es[start + k],
            decreases n - i,
        {
            let ghost prev = out@;
            let pair = &self.entries[i];
            let name_c = pair.0.clone();
            let entry_c = pair.1.clone();
            out.push((name_c, entry_c));
            i = i + 1;
            proof {
                assert forall|k: int| 0 <= k < out@.len() implies kv_view(out@)[k] == es[start
                    + k] by {
                    if k < prev.len() {
                        assert(out@[k] == prev[k]);
                        assert(kv_view(prev)[k] == es[start + k]);
                    } else {
                        assert(out@[k] == prev.push((out@[k].0, out@[k].1))[k]);
                    }
                }
            }
        }
        proof {
            assert(kv_view(out@) =~= page_spec(es, cursor, limit as int));
        }
        out
    }
}

} // verus!
