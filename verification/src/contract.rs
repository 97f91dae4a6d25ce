//! The registry engine: register, transfer and fund forwarding against the
//! entry store, and the read-only query service.
//!
//! Each operation is specified by a transition function on mathematical
//! values: the executable code is proved to return exactly the state and
//! outcome that the transition gives.

use vstd::prelude::*;

use crate::error::{ContractError, ErrorV};
use crate::msg::{
    dir_view, BankSendMsg, BankSendMsgV, EntryListResponse, ExecuteMsg, ExecuteMsgV,
    InstantiateMsg, MessageInfo, MessageInfoV, QueryAnswer, QueryAnswerV, QueryMsg, QueryMsgV,
    RegistrationMsg, Response, ValidatorInfo, ValidatorInfoV,
};
use crate::state::{
    coins_view, find_entry, inserted, lemma_sorted_unique, opt_view, page_spec, Coin, CoinV,
    Config, Entry, EntryV, MetadataV, Registry, RegistryV,
};
use crate::validate::{
    addr_is_valid, is_valid_addr, valid_registration, validate_registration, violated_field,
};

verus! {

/// Page length of `List` when no limit is given.
pub const DEFAULT_LIMIT: u32 = 100;

/// The exact-fee rule: exactly one attached fund unit, equal to the fee.
pub open spec fn fee_ok(funds: Seq<CoinV>, expected: CoinV) -> bool {
    funds.len() == 1 && funds[0] == expected
}

/// What `Register` does: the next state and the outcome.
pub open spec fn register_trans(
    s: RegistryV,
    sender: Seq<char>,
    name: Seq<char>,
    meta: MetadataV,
    funds: Seq<CoinV>,
) -> (RegistryV, Option<ErrorV>) {
    if !fee_ok(funds, s.config.registration_fee) {
        (
            s,
            Some(
                ErrorV::InvalidRegistrationFee {
                    given: funds,
                    expected: s.config.registration_fee,
                },
            ),
        )
    } else if !valid_registration(name, meta) {
        (s, Some(ErrorV::Validation { field: violated_field(name, meta) }))
    } else if find_entry(s.entries, name) is Some {
        (s, Some(ErrorV::Unauthorized))
    } else {
        (
            RegistryV {
                config: s.config,
                entries: inserted(s.entries, name, EntryV { owner: sender, metadata: meta }),
            },
            None,
        )
    }
}

/// `es` with the owner of the entry named `name` replaced by `to`.
pub open spec fn owner_updated(
    es: Seq<(Seq<char>, EntryV)>,
    name: Seq<char>,
    to: Seq<char>,
) -> Seq<(Seq<char>, EntryV)> {
    Seq::new(
        es.len(),
        |i: int|
            if es[i].0 == name {
                (es[i].0, EntryV { owner: to, metadata: es[i].1.metadata })
            } else {
                es[i]
            },
    )
}

/// What `Transfer` does: the next state and the outcome.
pub open spec fn transfer_trans(
    s: RegistryV,
    sender: Seq<char>,
    name: Seq<char>,
    to: Seq<char>,
    funds: Seq<CoinV>,
) -> (RegistryV, Option<ErrorV>) {
    if !fee_ok(funds, s.config.transfer_fee) {
        (
            s,
            Some(ErrorV::InvalidRegistrationFee { given: funds, expected: s.config.transfer_fee }),
        )
    } else {
        match find_entry(s.entries, name) {
            None => (s, Some(ErrorV::NotFound)),
            Some(e) => {
                if e.owner != sender {
                    (s, Some(ErrorV::Unauthorized))
                } else if !is_valid_addr(to) {
                    (s, Some(ErrorV::Validation { field: "to"@ }))
                } else {
                    (
                        RegistryV { config: s.config, entries: owner_updated(s.entries, name, to) },
                        None,
                    )
                }
            },
        }
    }
}

/// What `SendFundsTo` does: the instruction it emits and the outcome. The
/// state never changes, and no caller check is made: any caller may forward
/// its attached funds to the recorded owner.
pub open spec fn send_funds_trans(s: RegistryV, name: Seq<char>, funds: Seq<CoinV>) -> (
    Option<BankSendMsgV>,
    Option<ErrorV>,
) {
    match find_entry(s.entries, name) {
        None => (None, Some(ErrorV::NotFound)),
        Some(e) => (Some(BankSendMsgV { to_address: e.owner, amount: funds }), None),
    }
}

/// Everything `execute` does: next state, emitted instructions, outcome.
pub open spec fn execute_trans(s: RegistryV, info: MessageInfoV, msg: ExecuteMsgV) -> (
    RegistryV,
    Seq<BankSendMsgV>,
    Option<ErrorV>,
) {
    match msg {
        ExecuteMsgV::Register { name, metadata } => {
            let (s2, err) = register_trans(s, info.sender, name, metadata, info.funds);
            (s2, Seq::empty(), err)
        },
        ExecuteMsgV::Transfer { name, to } => {
            let (s2, err) = transfer_trans(s, info.sender, name, to, info.funds);
            (s2, Seq::empty(), err)
        },
        ExecuteMsgV::SendFundsTo { name } => {
            let (m, err) = send_funds_trans(s, name, info.funds);
            (
                s,
                match m {
                    Some(x) => seq![x],
                    None => Seq::empty(),
                },
                err,
            )
        },
    }
}

/// One-time initialization: a registry with the given fees and no entries.
pub fn instantiate(msg: InstantiateMsg) -> (r: Registry)
    ensures
        r.wf(),
        r@.config.registration_fee == msg.registration_fee@,
        r@.config.transfer_fee == msg.transfer_fee@,
        r@.entries == Seq::<(Seq<char>, EntryV)>::empty(),
{
    Registry::new(
        Config { registration_fee: msg.registration_fee, transfer_fee: msg.transfer_fee },
    )
}

fn clone_coins(v: &Vec<Coin>) -> (r: Vec<Coin>)
    ensures
        coins_view(r@) == coins_view(v@),
{
    let mut r: Vec<Coin> = Vec::new();
    let n = v.len();
    let mut i: usize = 0;
    while i < n
        invariant
            i <= n,
            n == v@.len(),
            r@.len() == i,
            forall|k: int| 0 <= k < i ==> (#[trigger] r@[k])@ == v@[k]@,
        decreases n - i,
    {
        r.push(v[i].clone());
        i = i + 1;
    }
    proof {
        assert(coins_view(r@) =~= coins_view(v@));
    }
    r
}

/// The shared fee check: accept exactly one fund unit equal to the fee.
fn ensure_funds_paid(funds: &Vec<Coin>, expected: &Coin) -> (r: Result<(), ContractError>)
    ensures
        match r {
            Ok(_) => fee_ok(coins_view(funds@), expected@),
            Err(e) => {
                &&& !fee_ok(coins_view(funds@), expected@)
                &&& e@ == (ErrorV::InvalidRegistrationFee {
                    given: coins_view(funds@),
                    expected: expected@,
                })
            },
        },
{
    if funds.len() == 1 {
        let c = &funds[0];
        if c.denom == expected.denom && c.amount == expected.amount {
            proof {
                assert(coins_view(funds@)[0] == c@);
            }
            return Ok(());
        }
        proof {
            assert(coins_view(funds@)[0] == c@);
        }
    }
    Err(
        ContractError::InvalidRegistrationFee {
            given: clone_coins(funds),
            expected: expected.clone(),
        },
    )
}

fn execute_register(
    registry: &mut Registry,
    info: MessageInfo,
    registration_msg: RegistrationMsg,
) -> (r: Result<Response, ContractError>)
    requires
        old(registry).wf(),
    ensures
        final(registry).wf(),
        ({
            let (s2, err) = register_trans(
                old(registry)@,
                info@.sender,
                registration_msg.name@,
                registration_msg.metadata@,
                info@.funds,
            );
            &&& final(registry)@ == s2
            &&& match r {
                Ok(resp) => err is None && resp@ == Seq::<BankSendMsgV>::empty(),
                Err(e) => err == Some(e@),
            }
        }),
{
    let MessageInfo { sender, funds } = info;
    match ensure_funds_paid(&funds, &registry.config().registration_fee) {
        Err(e) => {
            return Err(e);
        },
        Ok(_) => {},
    }
    match validate_registration(&registration_msg) {
        Err(e) => {
            return Err(e);
        },
        Ok(_) => {},
    }
    let RegistrationMsg { name, metadata } = registration_msg;
    match registry.find_index(name.as_str()) {
        Some(_) => Err(ContractError::Unauthorized),
        None => {
            registry.insert_entry(name, Entry { owner: sender, metadata });
            let resp = Response { messages: Vec::new() };
            proof {
                assert(resp@ =~= Seq::<BankSendMsgV>::empty());
            }
            Ok(resp)
        },
    }
}

fn execute_transfer(registry: &mut Registry, info: MessageInfo, name: String, to: String) -> (r:
    Result<Response, ContractError>)
    requires
        old(registry).wf(),
    ensures
        final(registry).wf(),
        ({
            let (s2, err) = transfer_trans(old(registry)@, info@.sender, name@, to@, info@.funds);
            &&& final(registry)@ == s2
            &&& match r {
                Ok(resp) => err is None && resp@ == Seq::<BankSendMsgV>::empty(),
                Err(e) => err == Some(e@),
            }
        }),
{
    let MessageInfo { sender, funds } = info;
    match ensure_funds_paid(&funds, &registry.config().transfer_fee) {
        Err(e) => {
            return Err(e);
        },
        Ok(_) => {},
    }
    let i = match registry.find_index(name.as_str()) {
        None => {
            return Err(ContractError::NotFound);
        },
        Some(i) => i,
    };
    let is_owner = registry.entry_at(i).1.owner == sender;
    if !is_owner {
        return Err(ContractError::Unauthorized);
    }
    if !addr_is_valid(to.as_str()) {
        return Err(ContractError::Validation { field: "to".to_owned() });
    }
    let ghost es = registry@.entries;
    registry.set_owner(i, to);
    proof {
        lemma_sorted_unique(es);
        assert(owner_updated(es, name@, to@) =~= es.update(
            i as int,
            (es[i as int].0, EntryV { owner: to@, metadata: es[i as int].1.metadata }),
        ));
        assert(registry@ =~= transfer_trans(old(registry)@, sender@, name@, to@, coins_view(
            funds@,
        )).0);
    }
    let resp = Response { messages: Vec::new() };
    proof {
        assert(resp@ =~= Seq::<BankSendMsgV>::empty());
    }
    Ok(resp)
}

fn execute_send_funds_to(registry: &mut Registry, info: MessageInfo, name: String) -> (r: Result<
    Response,
    ContractError,
>)
    requires
        old(registry).wf(),
    ensures
        final(registry).wf(),
        final(registry)@ == old(registry)@,
        ({
            let (m, err) = send_funds_trans(old(registry)@, name@, info@.funds);
            match r {
                Ok(resp) => err is None && resp@ == (match m {
                    Some(x) => seq![x],
                    None => Seq::<BankSendMsgV>::empty(),
                }),
                Err(e) => err == Some(e@),
            }
        }),
{
    let MessageInfo { sender: _, funds } = info;
    match registry.find_index(name.as_str()) {
        None => Err(ContractError::NotFound),
        Some(i) => {
            let owner = registry.entry_at(i).1.owner.clone();
            let resp = Response {
                messages: vec![BankSendMsg { to_address: owner, amount: funds }],
            };
            proof {
                let m = send_funds_trans(old(registry)@, name@, info@.funds).0->0;
                assert(resp@ =~= seq![m]);
            }
            Ok(resp)
        },
    }
}

/// Run one state-mutating operation. Either it succeeds and the registry
/// moves to the next state, or it fails and the registry is unchanged.
pub fn execute(registry: &mut Registry, info: MessageInfo, msg: ExecuteMsg) -> (r: Result<
    Response,
    ContractError,
>)
    requires
        old(registry).wf(),
    ensures
        final(registry).wf(),
        ({
            let (s2, msgs, err) = execute_trans(old(registry)@, info@, msg@);
            &&& final(registry)@ == s2
            &&& match r {
                Ok(resp) => err is None && resp@ == msgs,
                Err(e) => err == Some(e@) && final(registry)@ == old(registry)@,
            }
        }),
{
    match msg {
        ExecuteMsg::Register(registration_msg) => execute_register(registry, info, registration_msg),
        ExecuteMsg::Transfer { name, to } => execute_transfer(registry, info, name, to),
        ExecuteMsg::SendFundsTo { name } => execute_send_funds_to(registry, info, name),
    }
}

/// What `Lookup` answers: the entry, or `NotFound`.
pub open spec fn lookup_trans(s: RegistryV, name: Seq<char>) -> Result<EntryV, ErrorV> {
    match find_entry(s.entries, name) {
        Some(e) => Ok(e),
        None => Err(ErrorV::NotFound),
    }
}

/// Exact point read of one entry.
pub fn query_lookup(registry: &Registry, name: String) -> (r: Result<Entry, ContractError>)
    ensures
        match r {
            Ok(e) => lookup_trans(registry@, name@) == Ok::<EntryV, ErrorV>(e@),
            Err(e) => lookup_trans(registry@, name@) == Err::<EntryV, ErrorV>(e@),
        },
{
    match registry.find_index(name.as_str()) {
        None => Err(ContractError::NotFound),
        Some(i) => Ok(registry.entry_at(i).1.clone()),
    }
}

/// The page limit that applies when the caller names none.
pub open spec fn limit_value(limit: Option<u32>) -> int {
    match limit {
        Some(l) => l as int,
        None => DEFAULT_LIMIT as int,
    }
}

/// What `List` answers: the first `limit` entries strictly after the cursor,
/// in ascending name order.
pub open spec fn list_trans(
    s: RegistryV,
    start_after: Option<Seq<char>>,
    limit: Option<u32>,
) -> Seq<(Seq<char>, EntryV)> {
    page_spec(s.entries, start_after, limit_value(limit))
}

/// Paginated listing of the registered entries.
pub fn query_list(registry: &Registry, start_after: Option<String>, limit: Option<u32>) -> (r:
    EntryListResponse)
    requires
        registry.wf(),
    ensures
        r@ == list_trans(registry@, opt_view(start_after), limit),
{
    let lim: usize = match limit {
        Some(l) => l as usize,
        None => DEFAULT_LIMIT as usize,
    };
    let entries = registry.page(&start_after, lim);
    EntryListResponse { entries }
}

/// The first directory record with the given address, if any.
pub open spec fn dir_find(dir: Seq<ValidatorInfoV>, addr: Seq<char>) -> Option<ValidatorInfoV>
    decreases dir.len(),
{
    if dir.len() == 0 {
        None
    } else if dir[0].address == addr {
        Some(dir[0])
    } else {
        dir_find(dir.drop_first(), addr)
    }
}

proof fn lemma_dir_find_at(dir: Seq<ValidatorInfoV>, addr: Seq<char>, i: int)
    requires
        0 <= i < dir.len(),
        dir[i].address == addr,
        forall|j: int| 0 <= j < i ==> (#[trigger] dir[j].address) != addr,
    ensures
        dir_find(dir, addr) == Some(dir[i]),
    decreases i,
{
    if i > 0 {
        lemma_dir_find_at(dir.drop_first(), addr, i - 1);
    }
}

proof fn lemma_dir_find_none(dir: Seq<ValidatorInfoV>, addr: Seq<char>)
    ensures
        dir_find(dir, addr) is None <==> (forall|j: int|
            0 <= j < dir.len() ==> (#[trigger] dir[j].address) != addr),
    decreases dir.len(),
{
    if dir.len() > 0 {
        let dird = dir.drop_first();
        lemma_dir_find_none(dird, addr);
        assert forall|k: int| 0 <= k < dird.len() implies #[trigger] dird[k] == dir[k + 1] by {}
        assert forall|k: int| 1 <= k < dir.len() implies #[trigger] dir[k] == dird[k - 1] by {}
    }
}

/// What `QueryValidatorInfo` answers: the directory record recorded for the
/// name, or `NotFound` / `NotAValidator`.
pub open spec fn validator_info_trans(
    s: RegistryV,
    dir: Seq<ValidatorInfoV>,
    name: Seq<char>,
) -> Result<ValidatorInfoV, ErrorV> {
    match find_entry(s.entries, name) {
        None => Err(ErrorV::NotFound),
        Some(e) => match e.metadata.validator_address {
            None => Err(ErrorV::NotAValidator),
            Some(addr) => match dir_find(dir, addr) {
                None => Err(ErrorV::NotAValidator),
                Some(v) => Ok(v),
            },
        },
    }
}

/// Resolve the validator address recorded for a name against the external
/// validator directory, handed in as a snapshot.
pub fn query_validator_info(
    registry: &Registry,
    directory: &Vec<ValidatorInfo>,
    name: String,
) -> (r: Result<ValidatorInfo, ContractError>)
    ensures
        match r {
            Ok(v) => validator_info_trans(registry@, dir_view(directory@), name@) == Ok::<
                ValidatorInfoV,
                ErrorV,
            >(v@),
            Err(e) => validator_info_trans(registry@, dir_view(directory@), name@) == Err::<
                ValidatorInfoV,
                ErrorV,
            >(e@),
        },
{
    let i = match registry.find_index(name.as_str()) {
        None => {
            return Err(ContractError::NotFound);
        },
        Some(i) => i,
    };
    let pair = registry.entry_at(i);
    let addr = match &pair.1.metadata.validator_address {
        None => {
            return Err(ContractError::NotAValidator);
        },
        Some(a) => a,
    };
    let n = directory.len();
    let mut j: usize = 0;
    while j < n
        invariant
            j <= n,
            n == directory@.len(),
            i < registry@.entries.len(),
            find_entry(registry@.entries, name@) == Some(registry@.entries[i as int].1),
            registry@.entries[i as int].1.metadata.validator_address == Some(addr@),
            forall|k: int| 0 <= k < j ==> (#[trigger] dir_view(directory@)[k].address) != addr@,
        decreases n - j,
    {
        if directory[j].address == *addr {
            proof {
                lemma_dir_find_at(dir_view(directory@), addr@, j as int);
                assert(dir_view(directory@)[j as int] == directory@[j as int]@);
            }
            return Ok(directory[j].clone());
        }
        j = j + 1;
    }
    proof {
        lemma_dir_find_none(dir_view(directory@), addr@);
    }
    Err(ContractError::NotAValidator)
}

/// Everything `query` answers.
pub open spec fn query_trans(s: RegistryV, dir: Seq<ValidatorInfoV>, q: QueryMsgV) -> Result<
    QueryAnswerV,
    ErrorV,
> {
    match q {
        QueryMsgV::Lookup { name } => match lookup_trans(s, name) {
            Ok(e) => Ok(QueryAnswerV::Entry(e)),
            Err(e) => Err(e),
        },
        QueryMsgV::List { start_after, limit } => Ok(
            QueryAnswerV::List(list_trans(s, start_after, limit)),
        ),
        QueryMsgV::QueryValidatorInfo { name } => match validator_info_trans(s, dir, name) {
            Ok(v) => Ok(QueryAnswerV::ValidatorInfo(v)),
            Err(e) => Err(e),
        },
    }
}

/// Run one read-only query. The registry is never changed; the validator
/// directory collaborator is handed in as a snapshot.
pub fn query(registry: &Registry, directory: &Vec<ValidatorInfo>, msg: QueryMsg) -> (r: Result<
    QueryAnswer,
    ContractError,
>)
    requires
        registry.wf(),
    ensures
        match r {
            Ok(a) => query_trans(registry@, dir_view(directory@), msg@) == Ok::<
                QueryAnswerV,
                ErrorV,
            >(a@),
            Err(e) => query_trans(registry@, dir_view(directory@), msg@) == Err::<
                QueryAnswerV,
                ErrorV,
            >(e@),
        },
{
    match msg {
        QueryMsg::Lookup { name } => match query_lookup(registry, name) {
            Ok(e) => Ok(QueryAnswer::Entry(e)),
            Err(e) => Err(e),
        },
        QueryMsg::List { start_after, limit } => Ok(
            QueryAnswer::List(query_list(registry, start_after, limit)),
        ),
        QueryMsg::QueryValidatorInfo { name } => match query_validator_info(
            registry,
            directory,
            name,
        ) {
            Ok(v) => Ok(QueryAnswer::ValidatorInfo(v)),
            Err(e) => Err(e),
        },
    }
}

} // verus!
