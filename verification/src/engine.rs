//! The execution engine as the tracer sees it: world state, block
//! metadata, gas accounting and substate scopes, with every host-capability
//! query and mutation the tracer forwards.
//!
//! Storage is a list of key/value pairs read under a last-write-wins rule;
//! the engine's step execution itself is carried per instruction by the
//! [`crate::machine::StepEvent`] data attached to each program.

use vstd::prelude::*;

use crate::exit::{Capture, ExitError, ExitReason, ExitSucceed};
use crate::machine::{
    copy_values, empty_program_model, pm, Context, CreateScheme, Program, ProgramModel,
    StepOutcome, Transfer,
};
use crate::opcode::OpId;

verus! {

/// Reads a pair list as a mapping: the last write of a key wins.
pub open spec fn slookup(s: Seq<(u64, u64)>, k: u64) -> Option<u64>
    decreases s.len(),
{
    if s.len() == 0 {
        None
    } else if s.last().0 == k {
        Some(s.last().1)
    } else {
        slookup(s.drop_last(), k)
    }
}

/// The value a storage read yields: the last write, or zero.
pub open spec fn slookup_or_zero(s: Seq<(u64, u64)>, k: u64) -> u64 {
    match slookup(s, k) {
        Some(v) => v,
        None => 0,
    }
}

/// One account of the world state.
pub struct Account {
    /// The account's address.
    pub address: u64,
    /// The account's balance.
    pub balance: u64,
    /// The account's nonce, as the legacy creation scheme consumes it.
    pub nonce: u64,
    /// The hash of the account's code, as the engine reports it.
    pub code_hash: u64,
    /// The account's code and the engine's behaviour for it.
    pub program: Program,
    /// The account's storage as a pair list, read last-write-wins.
    pub storage: Vec<(u64, u64)>,
    /// The storage as it stood before the enclosing transaction.
    pub original_storage: Vec<(u64, u64)>,
}

/// One nested execution scope.
#[derive(Clone, Copy, Debug, PartialEq, Eq, Structural)]
pub struct Substate {
    /// The gas allowance the scope was entered with.
    pub gas_limit: u64,
    /// Whether the scope forbids mutation.
    pub is_static: bool,
}

/// One emitted log.
pub struct LogRecord {
    /// The emitting account.
    pub address: u64,
    /// The log's topics.
    pub topics: Vec<u64>,
    /// The log's payload.
    pub data: Vec<u8>,
}

/// The block-level metadata the engine serves.
#[derive(Clone, Copy, Debug, PartialEq, Eq, Structural)]
pub struct BlockEnv {
    /// The effective gas price of the enclosing transaction.
    pub gas_price: u64,
    /// The origin of the enclosing transaction.
    pub origin: u64,
    /// The current block number.
    pub block_number: u64,
    /// The current block's beneficiary.
    pub block_coinbase: u64,
    /// The current block's timestamp.
    pub block_timestamp: u64,
    /// The current block's difficulty.
    pub block_difficulty: u64,
    /// The current block's gas limit.
    pub block_gas_limit: u64,
    /// The chain identifier.
    pub chain_id: u64,
}

/// The execution engine: world state, block metadata, gas, substate scopes
/// and the records its mutations leave.
pub struct Engine {
    /// The world's accounts; addresses are distinct.
    pub accounts: Vec<Account>,
    /// The block metadata served to runs.
    pub block: BlockEnv,
    /// The gas remaining in the engine's accounting.
    pub gas: u64,
    /// The deepest nesting of substate scopes the engine admits.
    pub max_depth: u64,
    /// The substate scopes, innermost last; never empty.
    pub substates: Vec<Substate>,
    /// The logs emitted so far.
    pub logs: Vec<LogRecord>,
    /// The accounts marked for deletion, in marking order.
    pub deletions: Vec<u64>,
}

/// Whether the accounts carry distinct addresses.
pub open spec fn distinct_addresses(accs: Seq<Account>) -> bool {
    forall|i: int, j: int|
        0 <= i < j < accs.len() ==> accs[i].address != accs[j].address
}

/// Whether an address is among the accounts.
pub open spec fn has_account(accs: Seq<Account>, a: u64) -> bool {
    exists|i: int| 0 <= i < accs.len() && accs[i].address == a
}

/// The index of an address among the accounts; meaningful only when the
/// address is present and addresses are distinct.
pub open spec fn account_index(accs: Seq<Account>, a: u64) -> int {
    choose|i: int| 0 <= i < accs.len() && accs[i].address == a
}

/// The storage pair list of an account, or empty when absent.
pub open spec fn storage_pairs(accs: Seq<Account>, a: u64) -> Seq<(u64, u64)> {
    if has_account(accs, a) {
        accs[account_index(accs, a)].storage@
    } else {
        Seq::empty()
    }
}

/// The pre-transaction storage pair list of an account, or empty.
pub open spec fn original_pairs(accs: Seq<Account>, a: u64) -> Seq<(u64, u64)> {
    if has_account(accs, a) {
        accs[account_index(accs, a)].original_storage@
    } else {
        Seq::empty()
    }
}

/// The balance of an account, or zero when absent.
pub open spec fn balance_of(accs: Seq<Account>, a: u64) -> u64 {
    if has_account(accs, a) {
        accs[account_index(accs, a)].balance
    } else {
        0
    }
}

/// The nonce of an account, or zero when absent.
pub open spec fn nonce_of(accs: Seq<Account>, a: u64) -> u64 {
    if has_account(accs, a) {
        accs[account_index(accs, a)].nonce
    } else {
        0
    }
}

/// The code hash of an account, or zero when absent.
pub open spec fn code_hash_of(accs: Seq<Account>, a: u64) -> u64 {
    if has_account(accs, a) {
        accs[account_index(accs, a)].code_hash
    } else {
        0
    }
}

/// The code of an account, or empty when absent.
pub open spec fn code_of(accs: Seq<Account>, a: u64) -> Seq<u8> {
    if has_account(accs, a) {
        accs[account_index(accs, a)].program.code@
    } else {
        Seq::empty()
    }
}

/// The behaviour of an account's code, or the empty program when absent.
pub open spec fn program_of(accs: Seq<Account>, a: u64) -> ProgramModel {
    if has_account(accs, a) {
        pm(accs[account_index(accs, a)].program)
    } else {
        empty_program_model()
    }
}

/// Whether every accessor the tracer's contracts read — storage, original
/// storage, balance, nonce, code, code hash and behaviour — agrees between
/// two account lists at every address.
pub open spec fn views_eq(a1: Seq<Account>, a2: Seq<Account>) -> bool {
    forall|x: u64|
        #![all_triggers]
        {
            &&& storage_pairs(a1, x) == storage_pairs(a2, x)
            &&& original_pairs(a1, x) == original_pairs(a2, x)
            &&& balance_of(a1, x) == balance_of(a2, x)
            &&& nonce_of(a1, x) == nonce_of(a2, x)
            &&& code_hash_of(a1, x) == code_hash_of(a2, x)
            &&& code_of(a1, x) == code_of(a2, x)
            &&& program_of(a1, x) == program_of(a2, x)
        }
}

/// With distinct addresses, the account index is the one index carrying
/// the address.
pub proof fn lemma_index_unique(accs: Seq<Account>, a: u64)
    requires
        distinct_addresses(accs),
        has_account(accs, a),
    ensures
        0 <= account_index(accs, a) < accs.len(),
        accs[account_index(accs, a)].address == a,
        forall|j: int|
            0 <= j < accs.len() && accs[j].address == a ==> j == account_index(accs, a),
{
    let w = choose|i: int| 0 <= i < accs.len() && accs[i].address == a;
    assert(0 <= w < accs.len() && accs[w].address == a);
    assert forall|j: int|
        0 <= j < accs.len() && accs[j].address == a implies j == account_index(accs, a) by {
        let k = account_index(accs, a);
        if j < k {
            assert(accs[j].address != accs[k].address);
        } else if k < j {
            assert(accs[k].address != accs[j].address);
        }
    }
}

/// Replacing one account by another of the same address leaves every
/// accessor at every other address unchanged.
pub proof fn lemma_views_after_update(s: Seq<Account>, i: int, acc: Account)
    requires
        distinct_addresses(s),
        0 <= i < s.len(),
        acc.address == s[i].address,
    ensures
        distinct_addresses(s.update(i, acc)),
        forall|x: u64| has_account(s.update(i, acc), x) == #[trigger] has_account(s, x),
        has_account(s, acc.address),
        account_index(s, acc.address) == i,
        account_index(s.update(i, acc), acc.address) == i,
        forall|x: u64|
            x != acc.address && has_account(s, x) ==> #[trigger] account_index(s.update(i, acc), x)
                == account_index(s, x),
{
    let u = s.update(i, acc);
    assert(forall|j: int| 0 <= j < s.len() ==> u[j].address == s[j].address);
    assert forall|x: u64| has_account(u, x) == has_account(s, x) by {
        if has_account(u, x) {
            let j = choose|j: int| 0 <= j < u.len() && u[j].address == x;
            assert(s[j].address == x);
            assert(has_account(s, x));
        }
        if has_account(s, x) {
            let j = choose|j: int| 0 <= j < s.len() && s[j].address == x;
            assert(u[j].address == x);
            assert(has_account(u, x));
        }
    }
    assert(distinct_addresses(u));
    assert(u[i].address == acc.address);
    assert(has_account(u, acc.address));
    lemma_index_unique(s, acc.address);
    lemma_index_unique(u, acc.address);
    assert forall|x: u64|
        x != acc.address && has_account(s, x) implies #[trigger] account_index(u, x)
        == account_index(s, x) by {
        lemma_index_unique(s, x);
        lemma_index_unique(u, x);
        let j = account_index(s, x);
        assert(u[j].address == x);
    }
}

/// Appending an account at a fresh address leaves every accessor at every
/// other address unchanged.
pub proof fn lemma_views_after_push(s: Seq<Account>, acc: Account)
    requires
        distinct_addresses(s),
        !has_account(s, acc.address),
    ensures
        distinct_addresses(s.push(acc)),
        forall|x: u64|
            #[trigger] has_account(s.push(acc), x) == (has_account(s, x) || x == acc.address),
        account_index(s.push(acc), acc.address) == s.len(),
        forall|x: u64|
            x != acc.address && has_account(s, x) ==> #[trigger] account_index(s.push(acc), x)
                == account_index(s, x),
{
    let u = s.push(acc);
    assert forall|x: u64|
        #[trigger] has_account(u, x) == (has_account(s, x) || x == acc.address) by {
        if has_account(u, x) {
            let j = choose|j: int| 0 <= j < u.len() && u[j].address == x;
            if j < s.len() {
                assert(s[j].address == x);
            } else {
                assert(x == acc.address);
            }
        }
        if has_account(s, x) {
            let j = choose|j: int| 0 <= j < s.len() && s[j].address == x;
            assert(u[j].address == x);
        }
        if x == acc.address {
            assert(u[s.len() as int].address == x);
        }
    }
    assert forall|i: int, j: int| 0 <= i < j < u.len() implies u[i].address != u[j].address by {
        if j < s.len() {
            assert(s[i].address != s[j].address);
        } else {
            assert(u[j].address == acc.address);
            assert(has_account(s, u[i].address));
        }
    }
    lemma_index_unique(u, acc.address);
    assert(u[s.len() as int].address == acc.address);
    assert forall|x: u64|
        x != acc.address && has_account(s, x) implies #[trigger] account_index(u, x)
        == account_index(s, x) by {
        lemma_index_unique(s, x);
        lemma_index_unique(u, x);
        let j = account_index(s, x);
        assert(u[j].address == x);
    }
}

impl Engine {
    /// Well-formedness: at least one scope is always active, nesting never
    /// exceeds the engine's bound, and account addresses are distinct.
    pub open spec fn wf(self) -> bool {
        &&& 1 <= self.substates@.len()
        &&& self.substates@.len() - 1 <= self.max_depth
        &&& distinct_addresses(self.accounts@)
    }

    /// The current nesting depth: the number of scopes entered beyond the
    /// base scope.
    pub open spec fn depth_spec(self) -> u64 {
        (self.substates@.len() - 1) as u64
    }

    /// Whether everything but the accounts and the substates — block, gas,
    /// bound, logs, deletions — is unchanged between two engine states.
    pub open spec fn frame_eq(self, other: Engine) -> bool {
        &&& self.block == other.block
        &&& self.gas == other.gas
        &&& self.max_depth == other.max_depth
        &&& self.logs@ == other.logs@
        &&& self.deletions@ == other.deletions@
    }

    /// Sets up an engine over `accounts` under `block`, with `gas`
    /// remaining and nesting bounded by `max_depth`; the base scope is
    /// non-static and unbounded.
    pub fn new(accounts: Vec<Account>, block: BlockEnv, gas: u64, max_depth: u64) -> (r: Engine)
        requires
            distinct_addresses(accounts@),
        ensures
            r.wf(),
            r.accounts == accounts,
            r.block == block,
            r.gas == gas,
            r.max_depth == max_depth,
            r.depth_spec() == 0,
            r.substates@ =~= seq![Substate { gas_limit: u64::MAX, is_static: false }],
            r.logs@ =~= Seq::<LogRecord>::empty(),
            r.deletions@ =~= Seq::<u64>::empty(),
    {
        let mut substates: Vec<Substate> = Vec::new();
        substates.push(Substate { gas_limit: u64::MAX, is_static: false });
        Engine {
            accounts,
            block,
            gas,
            max_depth,
            substates,
            logs: Vec::new(),
            deletions: Vec::new(),
        }
    }

    /// The current nesting depth.
    pub fn depth(&self) -> (r: u64)
        requires
            self.wf(),
        ensures
            r == self.depth_spec(),
    {
        (self.substates.len() - 1) as u64
    }

    /// The innermost scope's static flag.
    pub fn is_static(&self) -> (r: bool)
        requires
            self.wf(),
        ensures
            r == self.substates@.last().is_static,
    {
        self.substates[self.substates.len() - 1].is_static
    }

    /// Enters a nested scope bound to `gas_limit`.
    pub fn enter_substate(&mut self, gas_limit: u64, is_static: bool)
        requires
            old(self).wf(),
            old(self).depth_spec() < old(self).max_depth,
        ensures
            final(self).wf(),
            final(self).accounts == old(self).accounts,
            final(self).frame_eq(*old(self)),
            final(self).substates@ == old(self).substates@.push(
                Substate { gas_limit, is_static },
            ),
            final(self).depth_spec() == old(self).depth_spec() + 1,
    {
        self.substates.push(Substate { gas_limit, is_static });
    }

    /// Leaves the innermost nested scope.
    pub fn exit_substate(&mut self)
        requires
            old(self).wf(),
            old(self).depth_spec() >= 1,
        ensures
            final(self).wf(),
            final(self).accounts == old(self).accounts,
            final(self).frame_eq(*old(self)),
            final(self).substates@ == old(self).substates@.drop_last(),
    {
        self.substates.pop();
    }

    /// The index of the account at `address`, when present.
    fn find_account(&self, address: u64) -> (r: Option<usize>)
        requires
            self.wf(),
        ensures
            match r {
                Some(i) => {
                    &&& has_account(self.accounts@, address)
                    &&& i == account_index(self.accounts@, address)
                    &&& i < self.accounts@.len()
                    &&& self.accounts@[i as int].address == address
                },
                None => !has_account(self.accounts@, address),
            },
    {
        let mut i: usize = 0;
        while i < self.accounts.len()
            invariant
                self.wf(),
                0 <= i <= self.accounts@.len(),
                forall|j: int| 0 <= j < i ==> self.accounts@[j].address != address,
            decreases self.accounts@.len() - i,
        {
            if self.accounts[i].address == address {
                proof {
                    lemma_index_unique(self.accounts@, address);
                }
                return Some(i);
            }
            i = i + 1;
        }
        None
    }

    /// The account at `address`, when present.
    pub fn account(&self, address: u64) -> (r: Option<&Account>)
        requires
            self.wf(),
        ensures
            match r {
                Some(acc) => {
                    &&& has_account(self.accounts@, address)
                    &&& *acc == self.accounts@[account_index(self.accounts@, address)]
                    &&& acc.address == address
                },
                None => !has_account(self.accounts@, address),
            },
    {
        match self.find_account(address) {
            Some(i) => Some(&self.accounts[i]),
            None => None,
        }
    }

    /// Materializes the account at `address`: when absent, a fresh empty
    /// account appears there; every accessor of every address reads as
    /// before.
    pub fn account_mut(&mut self, address: u64)
        requires
            old(self).wf(),
        ensures
            final(self).wf(),
            final(self).frame_eq(*old(self)),
            final(self).substates == old(self).substates,
            has_account(final(self).accounts@, address),
            views_eq(final(self).accounts@, old(self).accounts@),
            forall|x: u64|
                has_account(old(self).accounts@, x) ==> #[trigger] has_account(
                    final(self).accounts@,
                    x,
                ),
            forall|x: u64|
                #[trigger] has_account(final(self).accounts@, x) == (has_account(
                    old(self).accounts@,
                    x,
                ) || x == address),
    {
        let existing = self.find_account(address);
        if existing.is_some() {
            return ;
        }
        let fresh = Account {
            address,
            balance: 0,
            nonce: 0,
            code_hash: 0,
            program: Program {
                code: Vec::new(),
                steps: Vec::new(),
                end: ExitReason::Succeed(ExitSucceed::Stopped),
                ret: Vec::new(),
            },
            storage: Vec::new(),
            original_storage: Vec::new(),
        };
        proof {
            lemma_views_after_push(self.accounts@, fresh);
        }
        self.accounts.push(fresh);
        proof {
            let olda = old(self).accounts@;
            let newa = self.accounts@;
            lemma_index_unique(newa, address);
            assert(pm(fresh.program) =~= empty_program_model());
            assert forall|x: u64|
                {
                    &&& #[trigger] storage_pairs(newa, x) == storage_pairs(olda, x)
                    &&& original_pairs(newa, x) == original_pairs(olda, x)
                    &&& balance_of(newa, x) == balance_of(olda, x)
                    &&& nonce_of(newa, x) == nonce_of(olda, x)
                    &&& code_hash_of(newa, x) == code_hash_of(olda, x)
                    &&& code_of(newa, x) == code_of(olda, x)
                    &&& program_of(newa, x) == program_of(olda, x)
                } by {
                if x == address {
                    assert(account_index(newa, x) == olda.len());
                    assert(storage_pairs(newa, x) =~= storage_pairs(olda, x));
                    assert(original_pairs(newa, x) =~= original_pairs(olda, x));
                    assert(code_of(newa, x) =~= code_of(olda, x));
                } else if has_account(olda, x) {
                    assert(account_index(newa, x) == account_index(olda, x));
                    assert(newa[account_index(olda, x)] == olda[account_index(olda, x)]);
                }
            }
        }
    }
}

/// Whether a reason carries the run's produced output: it does on success
/// and on revert.
pub fn keeps_output(reason: ExitReason) -> (r: bool)
    ensures
        r == reason.keeps_output(),
{
    match reason {
        ExitReason::Succeed(_) => true,
        ExitReason::Revert => true,
        _ => false,
    }
}

/// Reads a pair list from the end: the last write of a key wins.
pub fn lookup_pairs(v: &Vec<(u64, u64)>, k: u64) -> (r: Option<u64>)
    ensures
        r == slookup(v@, k),
{
    let mut i: usize = v.len();
    proof {
        assert(v@.subrange(0, v@.len() as int) =~= v@);
    }
    while i > 0
        invariant
            0 <= i <= v@.len(),
            slookup(v@, k) == slookup(v@.subrange(0, i as int), k),
        decreases i,
    {
        i = i - 1;
        let pair = v[i];
        proof {
            let sub1 = v@.subrange(0, i + 1 as int);
            assert(sub1.last() == v@[i as int]);
            assert(sub1.drop_last() =~= v@.subrange(0, i as int));
        }
        if pair.0 == k {
            return Some(pair.1);
        }
    }
    None
}

impl Engine {
    /// The balance of the account at `address`, or zero.
    pub fn balance(&self, address: u64) -> (r: u64)
        requires
            self.wf(),
        ensures
            r == balance_of(self.accounts@, address),
    {
        match self.account(address) {
            Some(acc) => acc.balance,
            None => 0,
        }
    }

    /// The code of the account at `address`, or empty.
    pub fn code(&self, address: u64) -> (r: Vec<u8>)
        requires
            self.wf(),
        ensures
            r@ == code_of(self.accounts@, address),
    {
        match self.account(address) {
            Some(acc) => copy_values(&acc.program.code),
            None => Vec::new(),
        }
    }

    /// The code size of the account at `address`, or zero.
    pub fn code_size(&self, address: u64) -> (r: u64)
        requires
            self.wf(),
        ensures
            r == code_of(self.accounts@, address).len(),
    {
        match self.account(address) {
            Some(acc) => acc.program.code.len() as u64,
            None => 0,
        }
    }

    /// The code hash of the account at `address`, or zero.
    pub fn code_hash(&self, address: u64) -> (r: u64)
        requires
            self.wf(),
        ensures
            r == code_hash_of(self.accounts@, address),
    {
        match self.account(address) {
            Some(acc) => acc.code_hash,
            None => 0,
        }
    }

    /// The storage value of the account at `address` under `index`, or
    /// zero.
    pub fn storage(&self, address: u64, index: u64) -> (r: u64)
        requires
            self.wf(),
        ensures
            r == slookup_or_zero(storage_pairs(self.accounts@, address), index),
    {
        match self.account(address) {
            Some(acc) => match lookup_pairs(&acc.storage, index) {
                Some(v) => v,
                None => 0,
            },
            None => 0,
        }
    }

    /// The pre-transaction storage value of the account at `address`
    /// under `index`, or zero.
    pub fn original_storage(&self, address: u64, index: u64) -> (r: u64)
        requires
            self.wf(),
        ensures
            r == slookup_or_zero(original_pairs(self.accounts@, address), index),
    {
        match self.account(address) {
            Some(acc) => match lookup_pairs(&acc.original_storage, index) {
                Some(v) => v,
                None => 0,
            },
            None => 0,
        }
    }

    /// Whether an account stands at `address`.
    pub fn account_exists(&self, address: u64) -> (r: bool)
        requires
            self.wf(),
        ensures
            r == has_account(self.accounts@, address),
    {
        self.find_account(address).is_some()
    }

    /// The gas remaining in the engine's accounting.
    pub fn gas(&self) -> (r: u64)
        ensures
            r == self.gas,
    {
        self.gas
    }

    /// Whether `address` has been marked for deletion.
    pub fn deleted(&self, address: u64) -> (r: bool)
        ensures
            r == self.deletions@.contains(address),
    {
        let mut i: usize = 0;
        while i < self.deletions.len()
            invariant
                0 <= i <= self.deletions@.len(),
                forall|j: int| 0 <= j < i ==> self.deletions@[j] != address,
            decreases self.deletions@.len() - i,
        {
            if self.deletions[i] == address {
                return true;
            }
            i = i + 1;
        }
        false
    }

    /// The address a creation scheme derives in the current world.
    pub fn create_address(&self, scheme: CreateScheme) -> (r: u64)
        requires
            self.wf(),
        ensures
            match scheme {
                CreateScheme::Legacy { caller } => r == crate::model::created_address(
                    caller,
                    nonce_of(self.accounts@, caller),
                ),
            },
    {
        match scheme {
            CreateScheme::Legacy { caller } => {
                let nonce = match self.account(caller) {
                    Some(acc) => acc.nonce,
                    None => 0,
                };
                ((caller << 16u64) | (caller >> 48u64)) ^ (nonce << 32u64) ^ (nonce >> 32u64)
                    ^ 0x5851f42d4c957f2d
            },
        }
    }

    /// Writes `value` under `index` into the storage of the account at
    /// `address`, materializing the account when absent.  Every other
    /// accessor of every address reads as before.
    pub fn set_storage(&mut self, address: u64, index: u64, value: u64) -> (r: Result<
        (),
        ExitError,
    >)
        requires
            old(self).wf(),
        ensures
            final(self).wf(),
            final(self).frame_eq(*old(self)),
            final(self).substates == old(self).substates,
            r == Ok::<(), ExitError>(()),
            storage_pairs(final(self).accounts@, address) == storage_pairs(
                old(self).accounts@,
                address,
            ).push((index, value)),
            forall|x: u64|
                x != address ==> #[trigger] storage_pairs(final(self).accounts@, x)
                    == storage_pairs(old(self).accounts@, x),
            forall|x: u64|
                #![all_triggers]
                {
                    &&& original_pairs(final(self).accounts@, x) == original_pairs(
                        old(self).accounts@,
                        x,
                    )
                    &&& balance_of(final(self).accounts@, x) == balance_of(old(self).accounts@, x)
                    &&& nonce_of(final(self).accounts@, x) == nonce_of(old(self).accounts@, x)
                    &&& code_hash_of(final(self).accounts@, x) == code_hash_of(
                        old(self).accounts@,
                        x,
                    )
                    &&& code_of(final(self).accounts@, x) == code_of(old(self).accounts@, x)
                    &&& program_of(final(self).accounts@, x) == program_of(old(self).accounts@, x)
                },
    {
        self.account_mut(address);
        let ghost mid = self.accounts@;
        let i = match self.find_account(address) {
            Some(i) => i,
            None => {
                proof {
                    assert(false);
                }
                0
            },
        };
        let mut acc = self.accounts.remove(i);
        acc.storage.push((index, value));
        let ghost acc2 = acc;
        proof {
            lemma_views_after_update(mid, i as int, acc2);
        }
        self.accounts.insert(i, acc);
        proof {
            assert(self.accounts@ =~= mid.update(i as int, acc2));
            let newa = self.accounts@;
            lemma_index_unique(newa, address);
            assert(storage_pairs(newa, address) == acc2.storage@);
            assert(storage_pairs(newa, address) =~= storage_pairs(mid, address).push(
                (index, value),
            ));
            assert forall|x: u64|
                x != address implies #[trigger] storage_pairs(newa, x) == storage_pairs(mid, x) by {
                if has_account(mid, x) {
                    assert(account_index(newa, x) == account_index(mid, x));
                    assert(newa[account_index(mid, x)] == mid[account_index(mid, x)]);
                }
            }
            assert forall|x: u64|
                #![all_triggers]
                {
                    &&& original_pairs(newa, x) == original_pairs(mid, x)
                    &&& balance_of(newa, x) == balance_of(mid, x)
                    &&& nonce_of(newa, x) == nonce_of(mid, x)
                    &&& code_hash_of(newa, x) == code_hash_of(mid, x)
                    &&& code_of(newa, x) == code_of(mid, x)
                    &&& program_of(newa, x) == program_of(mid, x)
                } by {
                if x == address {
                    assert(account_index(newa, x) == i as int);
                    assert(account_index(mid, x) == i as int);
                } else if has_account(mid, x) {
                    assert(account_index(newa, x) == account_index(mid, x));
                    assert(newa[account_index(mid, x)] == mid[account_index(mid, x)]);
                }
            }
        }
        Ok(())
    }

    /// Emits a log for `address` with `topics` and `data`.
    pub fn log(&mut self, address: u64, topics: Vec<u64>, data: Vec<u8>) -> (r: Result<
        (),
        ExitError,
    >)
        requires
            old(self).wf(),
        ensures
            final(self).wf(),
            r == Ok::<(), ExitError>(()),
            final(self).accounts == old(self).accounts,
            final(self).substates == old(self).substates,
            final(self).block == old(self).block,
            final(self).gas == old(self).gas,
            final(self).max_depth == old(self).max_depth,
            final(self).deletions@ == old(self).deletions@,
            final(self).logs@.len() == old(self).logs@.len() + 1,
            final(self).logs@.drop_last() == old(self).logs@,
            final(self).logs@.last().address == address,
            final(self).logs@.last().topics@ == topics@,
            final(self).logs@.last().data@ == data@,
    {
        self.logs.push(LogRecord { address, topics, data });
        proof {
            assert(self.logs@.drop_last() =~= old(self).logs@);
        }
        Ok(())
    }

    /// Marks `address` for deletion in favour of `target`; the engine
    /// settles balances itself.
    pub fn mark_delete(&mut self, address: u64, target: u64) -> (r: Result<(), ExitError>)
        requires
            old(self).wf(),
        ensures
            final(self).wf(),
            r == Ok::<(), ExitError>(()),
            final(self).accounts == old(self).accounts,
            final(self).substates == old(self).substates,
            final(self).block == old(self).block,
            final(self).gas == old(self).gas,
            final(self).max_depth == old(self).max_depth,
            final(self).logs@ == old(self).logs@,
            final(self).deletions@ == old(self).deletions@.push(address),
    {
        let _ = target;
        self.deletions.push(address);
        Ok(())
    }

    /// Validates an instruction against the current context and stack.
    /// The model engine defers legality to its cost tables, whose
    /// outcomes the step events carry, so validation itself accepts.
    pub fn pre_validate(&self, context: &Context, opcode: OpId, stack: &Vec<u64>) -> (r: Result<
        (),
        ExitError,
    >)
        ensures
            r == Ok::<(), ExitError>(()),
    {
        let _ = context;
        let _ = opcode;
        let _ = stack;
        Ok(())
    }

    /// Takes the program of the account at `address` out, leaving an
    /// empty one behind; storage, nonces and every other accessor read as
    /// before.
    pub fn take_program(&mut self, address: u64) -> (r: Program)
        requires
            old(self).wf(),
            has_account(old(self).accounts@, address),
        ensures
            final(self).wf(),
            final(self).frame_eq(*old(self)),
            final(self).substates == old(self).substates,
            pm(r) == program_of(old(self).accounts@, address),
            r.code@ == code_of(old(self).accounts@, address),
            forall|x: u64| #[trigger] has_account(final(self).accounts@, x) == has_account(old(self).accounts@, x),
            forall|x: u64|
                #![all_triggers]
                {
                    &&& storage_pairs(final(self).accounts@, x) == storage_pairs(
                        old(self).accounts@,
                        x,
                    )
                    &&& original_pairs(final(self).accounts@, x) == original_pairs(
                        old(self).accounts@,
                        x,
                    )
                    &&& balance_of(final(self).accounts@, x) == balance_of(old(self).accounts@, x)
                    &&& nonce_of(final(self).accounts@, x) == nonce_of(old(self).accounts@, x)
                    &&& code_hash_of(final(self).accounts@, x) == code_hash_of(
                        old(self).accounts@,
                        x,
                    )
                },
            forall|x: u64|
                x != address ==> #[trigger] program_of(final(self).accounts@, x) == program_of(
                    old(self).accounts@,
                    x,
                ) && code_of(final(self).accounts@, x) == code_of(old(self).accounts@, x),
    {
        let ghost olda = self.accounts@;
        let i = match self.find_account(address) {
            Some(i) => i,
            None => {
                proof {
                    assert(false);
                }
                0
            },
        };
        let acc = self.accounts.remove(i);
        let Account { address: a, balance, nonce, code_hash, program, storage, original_storage } =
            acc;
        let replaced = Account {
            address: a,
            balance,
            nonce,
            code_hash,
            program: Program {
                code: Vec::new(),
                steps: Vec::new(),
                end: ExitReason::Succeed(ExitSucceed::Stopped),
                ret: Vec::new(),
            },
            storage,
            original_storage,
        };
        let ghost acc2 = replaced;
        proof {
            lemma_views_after_update(olda, i as int, acc2);
        }
        self.accounts.insert(i, replaced);
        proof {
            assert(self.accounts@ =~= olda.update(i as int, acc2));
            let newa = self.accounts@;
            assert(pm(program) == program_of(olda, address));
            assert forall|x: u64|
                #![all_triggers]
                {
                    &&& storage_pairs(newa, x) == storage_pairs(olda, x)
                    &&& original_pairs(newa, x) == original_pairs(olda, x)
                    &&& balance_of(newa, x) == balance_of(olda, x)
                    &&& nonce_of(newa, x) == nonce_of(olda, x)
                    &&& code_hash_of(newa, x) == code_hash_of(olda, x)
                } by {
                if x == address {
                    assert(account_index(newa, x) == i as int);
                    assert(account_index(olda, x) == i as int);
                } else if has_account(olda, x) {
                    assert(account_index(newa, x) == account_index(olda, x));
                    assert(newa[account_index(olda, x)] == olda[account_index(olda, x)]);
                }
            }
            assert forall|x: u64|
                x != address implies #[trigger] program_of(newa, x) == program_of(olda, x)
                && code_of(newa, x) == code_of(olda, x) by {
                if has_account(olda, x) {
                    assert(account_index(newa, x) == account_index(olda, x));
                    assert(newa[account_index(olda, x)] == olda[account_index(olda, x)]);
                }
            }
        }
        program
    }

    /// Runs a program's steps without recording anything: the engine's
    /// own execution, as the non-tracing path delegates to it.  Failures
    /// of the cost table, the gasometer or positioning terminate the run
    /// exactly as the model reads the events.
    #[verifier::loop_isolation(false)]
    fn run_steps(&mut self, program: &Program, ctx: Context) -> (r: ExitReason)
        requires
            old(self).wf(),
        ensures
            final(self).wf(),
            final(self).substates@ == old(self).substates@,
            final(self).frame_eq(*old(self)),
            views_eq(final(self).accounts@, old(self).accounts@),
            forall|x: u64|
                has_account(old(self).accounts@, x) ==> #[trigger] has_account(
                    final(self).accounts@,
                    x,
                ),
            r == crate::model::run_from(
                program.steps@,
                0,
                program.end,
                ctx,
                crate::model::world(*old(self)),
                old(self).depth_spec() as nat,
                false,
                crate::model::trace_fuel(*old(self)),
            ).reason,
        decreases old(self).max_depth - old(self).depth_spec(), 2int,
    {
        let ghost w = crate::model::world(*old(self));
        let ghost d = old(self).depth_spec() as nat;
        let ghost f = crate::model::trace_fuel(*old(self));
        let ghost steps = program.steps@;
        let ghost end = program.end;
        let ghost m = crate::model::run_from(steps, 0, end, ctx, w, d, false, f);
        let mut i: usize = 0;
        loop
            invariant
                self.wf(),
                self.substates@ == old(self).substates@,
                self.frame_eq(*old(self)),
                views_eq(self.accounts@, old(self).accounts@),
                forall|x: u64|
                    has_account(old(self).accounts@, x) ==> #[trigger] has_account(
                        self.accounts@,
                        x,
                    ),
                self.depth_spec() as nat == d,
                self.max_depth == old(self).max_depth,
                0 <= i <= steps.len(),
                steps == program.steps@,
                end == program.end,
                m.reason == crate::model::run_from(steps, i as int, end, ctx, w, d, false, f).reason,
            decreases steps.len() - i,
        {
            if i >= program.steps.len() {
                proof {
                    assert(crate::model::run_from(steps, i as int, end, ctx, w, d, false, f).reason
                        == end);
                }
                return program.end;
            }
            let ev = &program.steps[i];
            let ghost sub = crate::model::run_from(steps, i as int, end, ctx, w, d, false, f);
            match ev.table_cost {
                Ok(_) => (),
                Err(e) => {
                    proof {
                        assert(sub.reason == ExitReason::Error(e));
                    }
                    return ExitReason::Error(e);
                },
            }
            match ev.reduced_cost {
                Ok(_) => (),
                Err(e) => {
                    proof {
                        assert(sub.reason == ExitReason::Error(e));
                    }
                    return ExitReason::Error(e);
                },
            }
            match ev.position {
                Ok(_) => (),
                Err(reason) => {
                    proof {
                        assert(sub.reason == reason);
                    }
                    return reason;
                },
            }
            let ghost rest = crate::model::run_from(steps, i + 1 as int, end, ctx, w, d, false, f);
            match &ev.outcome {
                StepOutcome::Continue => {
                    proof {
                        assert(sub.reason == rest.reason);
                    }
                },
                StepOutcome::Exit(r2) => {
                    proof {
                        assert(sub.reason == *r2);
                    }
                    return *r2;
                },
                StepOutcome::Trap => {
                    proof {
                        assert(sub.reason == ExitReason::Fatal(
                            crate::exit::ExitFatal::UnhandledInterrupt,
                        ));
                    }
                    return ExitReason::Fatal(crate::exit::ExitFatal::UnhandledInterrupt);
                },
                StepOutcome::Call(ce) => {
                    proof {
                        assert(sub.reason == rest.reason);
                    }
                    let input = copy_values(&ce.input);
                    let _ = self.call_inner(
                        ce.target,
                        ce.transfer,
                        input,
                        &ce.program,
                        ce.target_gas,
                        ce.is_static,
                        ctx,
                    );
                },
                StepOutcome::Create(ce) => {
                    proof {
                        assert(sub.reason == rest.reason);
                    }
                    let _ = self.create_inner(ce.caller, ce.scheme, ce.value, &ce.init, ce.target_gas);
                },
            }
            i = i + 1;
        }
    }

    /// The engine's own execution of a nested call, charging and
    /// committing as usual; nothing is recorded.
    pub fn call_inner(
        &mut self,
        code_address: u64,
        transfer: Option<Transfer>,
        input: Vec<u8>,
        program: &Program,
        target_gas: Option<u64>,
        is_static: bool,
        context: Context,
    ) -> (r: Capture<(ExitReason, Vec<u8>)>)
        requires
            old(self).wf(),
        ensures
            final(self).wf(),
            final(self).substates@ == old(self).substates@,
            final(self).frame_eq(*old(self)),
            views_eq(final(self).accounts@, old(self).accounts@),
            forall|x: u64|
                has_account(old(self).accounts@, x) ==> #[trigger] has_account(
                    final(self).accounts@,
                    x,
                ),
            ({
                let w = crate::model::world(*old(self));
                let d = old(self).depth_spec() as nat;
                let f = crate::model::trace_fuel(*old(self));
                let m = crate::model::call_run(code_address, transfer, pm(*program), w, d, false, f);
                match r {
                    Capture::Exit(t) => t.0 == m.reason && t.1@ == crate::model::call_output(
                        code_address,
                        transfer,
                        pm(*program),
                        w,
                        d,
                        false,
                        f,
                    ),
                    Capture::Trap => false,
                }
            }),
        decreases old(self).max_depth - old(self).depth_spec(), 1int,
    {
        let _ = input;
        let _ = is_static;
        let _ = context;
        let ghost w = crate::model::world(*old(self));
        let ghost d = old(self).depth_spec() as nat;
        let ghost f = crate::model::trace_fuel(*old(self));
        let (caller_eff, value_eff) = match transfer {
            Some(t) => (t.source, t.value),
            None => (code_address, 0),
        };
        self.account_mut(code_address);
        proof {
            crate::model::lemma_world_eq(*self, *old(self));
        }
        if self.depth() >= self.max_depth {
            return Capture::Exit((ExitReason::Error(ExitError::CallTooDeep), Vec::new()));
        }
        let gas_limit = match target_gas {
            Some(g) => g,
            None => u64::MAX,
        };
        self.enter_substate(gas_limit, false);
        let ghost mid = *self;
        proof {
            crate::model::lemma_world_eq(mid, *old(self));
        }
        let ctx = Context { address: code_address, caller: caller_eff, apparent_value: value_eff };
        proof {
            assert(ctx == crate::model::call_context(code_address, transfer));
        }
        let reason = self.run_steps(program, ctx);
        self.exit_substate();
        proof {
            assert(self.substates@ =~= old(self).substates@);
        }
        let output = if keeps_output(reason) {
            copy_values(&program.ret)
        } else {
            Vec::new()
        };
        Capture::Exit((reason, output))
    }

    /// The engine's own execution of a nested creation, charging and
    /// committing as usual; nothing is recorded.
    pub fn create_inner(
        &mut self,
        caller: u64,
        scheme: CreateScheme,
        value: u64,
        init: &Program,
        target_gas: Option<u64>,
    ) -> (r: Capture<(ExitReason, Option<u64>, Vec<u8>)>)
        requires
            old(self).wf(),
        ensures
            final(self).wf(),
            final(self).substates@ == old(self).substates@,
            final(self).frame_eq(*old(self)),
            views_eq(final(self).accounts@, old(self).accounts@),
            forall|x: u64|
                has_account(old(self).accounts@, x) ==> #[trigger] has_account(
                    final(self).accounts@,
                    x,
                ),
            ({
                let w = crate::model::world(*old(self));
                let d = old(self).depth_spec() as nat;
                let f = crate::model::trace_fuel(*old(self));
                let m = crate::model::create_run(caller, value, pm(*init), w, d, false, f);
                match r {
                    Capture::Exit(t) => t.0 == m.reason && t.1 == crate::model::create_address_result(
                        caller,
                        value,
                        pm(*init),
                        w,
                        d,
                        false,
                        f,
                    ) && t.2@ == crate::model::create_output(caller, value, pm(*init), w, d, false, f),
                    Capture::Trap => false,
                }
            }),
        decreases old(self).max_depth - old(self).depth_spec(), 1int,
    {
        let _ = scheme;
        let ghost w = crate::model::world(*old(self));
        let ghost d = old(self).depth_spec() as nat;
        let ghost f = crate::model::trace_fuel(*old(self));
        let address = self.create_address(CreateScheme::Legacy { caller });
        proof {
            assert(w.nonce[caller] == nonce_of(old(self).accounts@, caller));
        }
        if self.depth() >= self.max_depth {
            return Capture::Exit((ExitReason::Error(ExitError::CallTooDeep), None, Vec::new()));
        }
        let gas_limit = match target_gas {
            Some(g) => g,
            None => u64::MAX,
        };
        self.enter_substate(gas_limit, false);
        let ghost mid = *self;
        proof {
            crate::model::lemma_world_eq(mid, *old(self));
        }
        let ctx = Context { address, caller, apparent_value: value };
        let reason = self.run_steps(init, ctx);
        self.exit_substate();
        proof {
            assert(self.substates@ =~= old(self).substates@);
        }
        if keeps_output(reason) {
            let output = copy_values(&init.ret);
            Capture::Exit((reason, Some(address), output))
        } else {
            Capture::Exit((reason, None, Vec::new()))
        }
    }

    /// Puts `program` back as the program of the account at `address`;
    /// storage, nonces and every other accessor read as before.
    pub fn put_program(&mut self, address: u64, program: Program)
        requires
            old(self).wf(),
            has_account(old(self).accounts@, address),
        ensures
            final(self).wf(),
            final(self).frame_eq(*old(self)),
            final(self).substates == old(self).substates,
            program_of(final(self).accounts@, address) == pm(program),
            code_of(final(self).accounts@, address) == program.code@,
            forall|x: u64| #[trigger] has_account(final(self).accounts@, x) == has_account(old(self).accounts@, x),
            forall|x: u64|
                #![all_triggers]
                {
                    &&& storage_pairs(final(self).accounts@, x) == storage_pairs(
                        old(self).accounts@,
                        x,
                    )
                    &&& original_pairs(final(self).accounts@, x) == original_pairs(
                        old(self).accounts@,
                        x,
                    )
                    &&& balance_of(final(self).accounts@, x) == balance_of(old(self).accounts@, x)
                    &&& nonce_of(final(self).accounts@, x) == nonce_of(old(self).accounts@, x)
                    &&& code_hash_of(final(self).accounts@, x) == code_hash_of(
                        old(self).accounts@,
                        x,
                    )
                },
            forall|x: u64|
                x != address ==> #[trigger] program_of(final(self).accounts@, x) == program_of(
                    old(self).accounts@,
                    x,
                ) && code_of(final(self).accounts@, x) == code_of(old(self).accounts@, x),
    {
        let ghost olda = self.accounts@;
        let i = match self.find_account(address) {
            Some(i) => i,
            None => {
                proof {
                    assert(false);
                }
                0
            },
        };
        let acc = self.accounts.remove(i);
        let Account { address: a, balance, nonce, code_hash, program: _, storage, original_storage } =
            acc;
        let replaced = Account {
            address: a,
            balance,
            nonce,
            code_hash,
            program,
            storage,
            original_storage,
        };
        let ghost acc2 = replaced;
        proof {
            lemma_views_after_update(olda, i as int, acc2);
        }
        self.accounts.insert(i, replaced);
        proof {
            assert(self.accounts@ =~= olda.update(i as int, acc2));
            let newa = self.accounts@;
            assert forall|x: u64|
                #![all_triggers]
                {
                    &&& storage_pairs(newa, x) == storage_pairs(olda, x)
                    &&& original_pairs(newa, x) == original_pairs(olda, x)
                    &&& balance_of(newa, x) == balance_of(olda, x)
                    &&& nonce_of(newa, x) == nonce_of(olda, x)
                    &&& code_hash_of(newa, x) == code_hash_of(olda, x)
                } by {
                if x == address {
                    assert(account_index(newa, x) == i as int);
                    assert(account_index(olda, x) == i as int);
                } else if has_account(olda, x) {
                    assert(account_index(newa, x) == account_index(olda, x));
                    assert(newa[account_index(olda, x)] == olda[account_index(olda, x)]);
                }
            }
            assert forall|x: u64|
                x != address implies #[trigger] program_of(newa, x) == program_of(olda, x)
                && code_of(newa, x) == code_of(olda, x) by {
                if has_account(olda, x) {
                    assert(account_index(newa, x) == account_index(olda, x));
                    assert(newa[account_index(olda, x)] == olda[account_index(olda, x)]);
                }
            }
        }
    }
}

} // verus!
