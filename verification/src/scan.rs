//! The scan: fresh mnemonics, one address per script type, a balance lookup
//! for each, and the count of what was found.
//!
//! The library decides and keeps the books; the caller does the lookups.
//! [`Scan::step`] takes what happened last and says what to do next.

use crate::address::{
    canonical_path, canonical_steps, derive_address_at, derive_address_spec,
    derive_private_key_at, derive_private_key_spec, DerivedAddress, DerivedAddressView,
};
use crate::error::{MnemonicFault, WalletError};
use crate::mnemonic::{
    count_words, generate, lemma_valid_phrase_validates, valid_phrase, Mnemonic,
};
use crate::network::{Network, ScriptType};
use vstd::pervasive::unreached;
use vstd::prelude::*;

verus! {

/// What a provider answered for one address: the totals, in satoshis, of
/// what the address received and of what it spent.
#[derive(Debug, PartialEq, Eq)]
pub struct BalanceProbe {
    address: String,
    funded: u64,
    spent: u64,
}

/// What a [`BalanceProbe`] holds, as mathematical values.
pub struct BalanceProbeView {
    pub address: Seq<char>,
    pub funded: u64,
    pub spent: u64,
}

impl View for BalanceProbe {
    type V = BalanceProbeView;

    closed spec fn view(&self) -> BalanceProbeView {
        BalanceProbeView { address: self.address@, funded: self.funded, spent: self.spent }
    }
}

impl BalanceProbeView {
    /// What is left on the address.
    pub open spec fn balance(self) -> int {
        self.funded - self.spent
    }
}

impl BalanceProbe {
    #[verifier::type_invariant]
    spec fn inv(self) -> bool {
        self.spent <= self.funded
    }

    /// A probe from the totals that a provider reported. An address cannot
    /// have spent more than it received: such an answer is a provider error.
    pub fn new(address: String, funded: u64, spent: u64) -> (r: Result<BalanceProbe, WalletError>)
        ensures
            spent <= funded ==> r is Ok && r.unwrap()@ == (BalanceProbeView {
                address: address@,
                funded,
                spent,
            }),
            spent > funded ==> r == Err::<BalanceProbe, WalletError>(WalletError::ProviderError),
    {
        if spent <= funded {
            Ok(BalanceProbe { address, funded, spent })
        } else {
            Err(WalletError::ProviderError)
        }
    }

    /// The address that was asked about.
    pub fn address(&self) -> (r: &str)
        ensures
            r@ == self@.address,
    {
        self.address.as_str()
    }

    /// The total received.
    pub fn funded(&self) -> (r: u64)
        ensures
            r == self@.funded,
    {
        self.funded
    }

    /// The total spent, which is at most the total received.
    pub fn spent(&self) -> (r: u64)
        ensures
            r == self@.spent,
            r <= self@.funded,
    {
        proof {
            use_type_invariant(self);
        }
        self.spent
    }

    /// What is left on the address: received less spent.
    pub fn balance(&self) -> (r: u64)
        ensures
            r == self@.balance(),
    {
        proof {
            use_type_invariant(self);
        }
        self.funded - self.spent
    }

    /// Whether anything is left on the address.
    pub fn is_funded(&self) -> (r: bool)
        ensures
            r == (self@.balance() > 0),
    {
        self.balance() > 0
    }
}

/// How one lookup ended.
#[derive(Clone, Copy, Debug, PartialEq, Eq, Structural)]
pub enum Verdict {
    /// The address holds a balance.
    Found,
    /// The address holds nothing.
    NotFound,
    /// The provider failed, or answered for another address.
    Failed,
}

/// The counts of a scan.
#[derive(Clone, Copy, Debug, PartialEq, Eq)]
pub struct ScanStats {
    /// Addresses with a balance.
    pub found: u128,
    /// Addresses without a balance.
    pub not_found: u128,
    /// Lookups that failed.
    pub failed: u128,
}

/// The counts, as mathematical values.
pub struct StatsView {
    pub found: nat,
    pub not_found: nat,
    pub failed: nat,
}

impl View for ScanStats {
    type V = StatsView;

    open spec fn view(&self) -> StatsView {
        StatsView {
            found: self.found as nat,
            not_found: self.not_found as nat,
            failed: self.failed as nat,
        }
    }
}

impl StatsView {
    /// The number of lookups counted.
    pub open spec fn total(self) -> nat {
        self.found + self.not_found + self.failed
    }

    /// The counts after one more lookup.
    pub open spec fn with(self, verdict: Verdict) -> StatsView {
        match verdict {
            Verdict::Found => StatsView { found: self.found + 1, ..self },
            Verdict::NotFound => StatsView { not_found: self.not_found + 1, ..self },
            Verdict::Failed => StatsView { failed: self.failed + 1, ..self },
        }
    }

    /// The sum of two counts.
    pub open spec fn plus(self, other: StatsView) -> StatsView {
        StatsView {
            found: self.found + other.found,
            not_found: self.not_found + other.not_found,
            failed: self.failed + other.failed,
        }
    }
}

/// The counts of a list of verdicts.
pub open spec fn tally(verdicts: Seq<Verdict>) -> StatsView
    decreases verdicts.len(),
{
    if verdicts.len() == 0 {
        StatsView { found: 0, not_found: 0, failed: 0 }
    } else {
        tally(verdicts.drop_last()).with(verdicts.last())
    }
}

/// The verdict on a lookup for an address. A failure of the provider, and
/// an answer for another address, count as failed; otherwise the balance
/// decides.
pub open spec fn verdict_spec(address: Seq<char>, lookup: Result<BalanceProbeView, WalletError>)
    -> Verdict {
    match lookup {
        Err(_) => Verdict::Failed,
        Ok(probe) => if probe.address != address {
            Verdict::Failed
        } else if probe.balance() > 0 {
            Verdict::Found
        } else {
            Verdict::NotFound
        },
    }
}

/// The view of a lookup.
pub open spec fn lookup_view(lookup: Result<BalanceProbe, WalletError>) -> Result<
    BalanceProbeView,
    WalletError,
> {
    match lookup {
        Ok(probe) => Ok(probe@),
        Err(e) => Err(e),
    }
}

/// Every lookup is counted once.
pub proof fn lemma_tally_total(verdicts: Seq<Verdict>)
    ensures
        tally(verdicts).total() == verdicts.len(),
    decreases verdicts.len(),
{
    if verdicts.len() > 0 {
        lemma_tally_total(verdicts.drop_last());
    }
}

/// The counts of two lists in a row are the sums of their counts, so the
/// order in which lookups end does not matter.
pub proof fn lemma_tally_concat(first: Seq<Verdict>, rest: Seq<Verdict>)
    ensures
        tally(first + rest) == tally(first).plus(tally(rest)),
        tally(first + rest) == tally(rest + first),
    decreases rest.len(),
{
    lemma_tally_sum(first, rest);
    lemma_tally_sum(rest, first);
}

proof fn lemma_tally_sum(first: Seq<Verdict>, rest: Seq<Verdict>)
    ensures
        tally(first + rest) == tally(first).plus(tally(rest)),
    decreases rest.len(),
{
    if rest.len() > 0 {
        lemma_tally_sum(first, rest.drop_last());
        assert((first + rest).drop_last() =~= first + rest.drop_last());
    }
}

/// A failed lookup changes no count but its own: the lookups before and
/// after it are counted as if it had not happened.
pub proof fn lemma_failure_is_isolated(before: Seq<Verdict>, after: Seq<Verdict>)
    ensures
        tally(before + seq![Verdict::Failed] + after).found == tally(before + after).found,
        tally(before + seq![Verdict::Failed] + after).not_found == tally(
            before + after,
        ).not_found,
        tally(before + seq![Verdict::Failed] + after).failed == tally(before + after).failed + 1,
{
    let one = seq![Verdict::Failed];
    lemma_tally_sum(before, one);
    lemma_tally_sum(before + one, after);
    lemma_tally_sum(before, after);
    assert(tally(one) == tally(one.drop_last()).with(Verdict::Failed));
}

/// Where no address holds a balance and no lookup fails, every lookup is
/// counted as not found.
pub proof fn lemma_tally_all_not_found(verdicts: Seq<Verdict>)
    requires
        forall|i: int| 0 <= i < verdicts.len() ==> verdicts[i] == Verdict::NotFound,
    ensures
        tally(verdicts) == (StatsView { found: 0, not_found: verdicts.len(), failed: 0 }),
    decreases verdicts.len(),
{
    if verdicts.len() > 0 {
        lemma_tally_all_not_found(verdicts.drop_last());
    }
}

/// No count ever goes down: the counts of a list are at least the counts of
/// any list that it continues.
pub proof fn lemma_tally_monotone(earlier: Seq<Verdict>, later: Seq<Verdict>)
    requires
        earlier.is_prefix_of(later),
    ensures
        tally(earlier).found <= tally(later).found,
        tally(earlier).not_found <= tally(later).not_found,
        tally(earlier).failed <= tally(later).failed,
{
    let rest = later.skip(earlier.len() as int);
    assert(earlier + rest =~= later);
    lemma_tally_sum(earlier, rest);
}

/// The verdict on a lookup for an address.
pub fn verdict(address: &str, lookup: &Result<BalanceProbe, WalletError>) -> (r: Verdict)
    ensures
        r == verdict_spec(address@, lookup_view(*lookup)),
{
    match lookup {
        Err(_) => Verdict::Failed,
        Ok(probe) => if !same_text(probe.address(), address) {
            Verdict::Failed
        } else if probe.is_funded() {
            Verdict::Found
        } else {
            Verdict::NotFound
        },
    }
}

/// Whether two texts are the same.
pub fn same_text(a: &str, b: &str) -> (r: bool)
    ensures
        r == (a@ == b@),
{
    let x = String::from_str(a);
    let y = String::from_str(b);
    x == y
}

impl ScanStats {
    /// No lookups yet.
    pub fn new() -> (r: ScanStats)
        ensures
            r@ == tally(Seq::<Verdict>::empty()),
    {
        ScanStats { found: 0, not_found: 0, failed: 0 }
    }

    /// The number of lookups counted, where it fits.
    pub fn total(&self) -> (r: Option<u128>)
        ensures
            self@.total() <= u128::MAX ==> r == Some(self@.total() as u128),
            self@.total() > u128::MAX ==> r is None,
    {
        match self.found.checked_add(self.not_found) {
            None => None,
            Some(sum) => sum.checked_add(self.failed),
        }
    }

    /// Counts one more lookup.
    pub(crate) fn record(&mut self, verdict: Verdict)
        requires
            old(self)@.total() < u128::MAX,
        ensures
            final(self)@ == old(self)@.with(verdict),
    {
        match verdict {
            Verdict::Found => {
                self.found = self.found + 1;
            },
            Verdict::NotFound => {
                self.not_found = self.not_found + 1;
            },
            Verdict::Failed => {
                self.failed = self.failed + 1;
            },
        }
    }
}

/// Counts a list of verdicts.
pub fn tally_of(verdicts: &Vec<Verdict>) -> (r: ScanStats)
    ensures
        r@ == tally(verdicts@),
{
    let mut stats = ScanStats::new();
    let mut i: usize = 0;
    while i < verdicts.len()
        invariant
            i <= verdicts.len(),
            stats@ == tally(verdicts@.take(i as int)),
        decreases verdicts.len() - i,
    {
        proof {
            lemma_tally_total(verdicts@.take(i as int));
            assert(verdicts@.take(i + 1).drop_last() =~= verdicts@.take(i as int));
        }
        stats.record(verdicts[i]);
        i += 1;
    }
    proof {
        assert(verdicts@.take(i as int) =~= verdicts@);
    }
    stats
}

/// One address of an iteration, with its private key for export.
#[derive(Debug, PartialEq, Eq)]
pub struct Candidate {
    pub derived: DerivedAddress,
    /// The private key in wallet import format.
    pub wif: String,
}

/// What a [`Candidate`] holds, as mathematical values.
pub struct CandidateView {
    pub derived: DerivedAddressView,
    pub wif: Seq<char>,
}

impl View for Candidate {
    type V = CandidateView;

    open spec fn view(&self) -> CandidateView {
        CandidateView { derived: self.derived@, wif: self.wif@ }
    }
}

impl Candidate {
    /// The same candidate, as a value of its own.
    pub fn duplicate(&self) -> (r: Candidate)
        ensures
            r@ == self@,
    {
        Candidate {
            derived: DerivedAddress {
                address: self.derived.address.clone(),
                path: self.derived.path.duplicate(),
                script_type: self.derived.script_type,
                network: self.derived.network,
            },
            wif: self.wif.clone(),
        }
    }
}

/// The views of a list of candidates.
pub open spec fn candidate_views(list: Seq<Candidate>) -> Seq<CandidateView> {
    Seq::new(list.len(), |i: int| list[i]@)
}

/// The candidate of a script type: the address and the private key at the
/// script type's canonical path, without passphrase.
pub open spec fn candidate_spec(phrase: Seq<char>, script_type: ScriptType, network: Network)
    -> Result<CandidateView, WalletError> {
    let steps = canonical_steps(script_type, network);
    match derive_address_spec(phrase, steps, network, Seq::<char>::empty()) {
        Err(e) => Err(e),
        Ok(derived) => match derive_private_key_spec(
            phrase,
            steps,
            network,
            Seq::<char>::empty(),
        ) {
            Err(e) => Err(e),
            Ok(wif) => Ok(CandidateView { derived, wif }),
        },
    }
}

/// The candidates of the first `n` script types, or the first error.
pub open spec fn candidates_spec(phrase: Seq<char>, network: Network, n: nat) -> Result<
    Seq<CandidateView>,
    WalletError,
>
    decreases n,
{
    if n == 0 {
        Ok(Seq::<CandidateView>::empty())
    } else {
        match candidates_spec(phrase, network, (n - 1) as nat) {
            Err(e) => Err(e),
            Ok(list) => match candidate_spec(phrase, ScriptType::all()[n - 1], network) {
                Err(e) => Err(e),
                Ok(candidate) => Ok(list.push(candidate)),
            },
        }
    }
}

/// There is one candidate for each script type, in the order of
/// [`ScriptType::all`], each at its canonical path.
pub proof fn lemma_candidates(phrase: Seq<char>, network: Network, n: nat)
    requires
        n <= 4,
    ensures
        candidates_spec(phrase, network, n) matches Ok(list) ==> {
            &&& list.len() == n
            &&& forall|i: int|
                0 <= i < n ==> {
                    &&& (#[trigger] list[i]).derived.script_type == ScriptType::all()[i]
                    &&& list[i].derived.path == canonical_steps(ScriptType::all()[i], network)
                    &&& list[i].derived.network == network
                }
        },
    decreases n,
{
    if n > 0 {
        lemma_candidates(phrase, network, (n - 1) as nat);
        crate::address::lemma_canonical_path(ScriptType::all()[n - 1], network);
    }
}

/// Derives the four candidates of a mnemonic, one per script type.
#[verifier::loop_isolation(false)]
pub fn derive_candidates(mnemonic: &Mnemonic, network: Network) -> (r: Result<
    Vec<Candidate>,
    WalletError,
>)
    ensures
        match r {
            Ok(list) => candidates_spec(mnemonic@, network, 4) == Ok::<
                Seq<CandidateView>,
                WalletError,
            >(candidate_views(list@)) && list@.len() == 4,
            Err(e) => candidates_spec(mnemonic@, network, 4) == Err::<
                Seq<CandidateView>,
                WalletError,
            >(e),
        },
{
    let mut list: Vec<Candidate> = Vec::new();
    let mut i: usize = 0;
    proof {
        assert(candidate_views(list@) =~= Seq::<CandidateView>::empty());
    }
    while i < 4
        invariant
            i <= 4,
            list@.len() == i,
            candidates_spec(mnemonic@, network, i as nat) == Ok::<
                Seq<CandidateView>,
                WalletError,
            >(candidate_views(list@)),
        decreases 4 - i,
    {
        let script_type = match ScriptType::nth(i) {
            Some(script_type) => script_type,
            None => unreached(),
        };
        let path = canonical_path(script_type, network);
        let ghost before = candidate_views(list@);
        proof {
            reveal_strlit("");
        }
        let derived = match derive_address_at(mnemonic, &path, network, None) {
            Ok(derived) => derived,
            Err(e) => {
                proof {
                    lemma_candidates_fail_later(mnemonic@, network, (i + 1) as nat, 4);
                }
                return Err(e);
            },
        };
        let wif = match derive_private_key_at(mnemonic, &path, network, None) {
            Ok(wif) => wif,
            Err(e) => {
                proof {
                    lemma_candidates_fail_later(mnemonic@, network, (i + 1) as nat, 4);
                }
                return Err(e);
            },
        };
        let candidate = Candidate { derived, wif };
        list.push(candidate);
        proof {
            assert(candidate_views(list@) =~= before.push(candidate@));
        }
        i += 1;
    }
    Ok(list)
}

/// Once a candidate fails, every longer list fails with the same error.
pub proof fn lemma_candidates_fail_later(phrase: Seq<char>, network: Network, bad: nat, n: nat)
    requires
        bad <= n,
        candidates_spec(phrase, network, bad) is Err,
    ensures
        candidates_spec(phrase, network, n) == candidates_spec(phrase, network, bad),
    decreases n - bad,
{
    if bad < n {
        lemma_candidates_fail_later(phrase, network, bad, (n - 1) as nat);
    }
}

/// What the caller reports to the scan.
#[derive(Debug, PartialEq, Eq)]
pub enum Event {
    /// Nothing to report: the last action needed no answer.
    Continue,
    /// The outcome of the lookup that the last action asked for.
    Answer(Result<BalanceProbe, WalletError>),
}

/// What the scan asks of the caller.
#[derive(Debug, PartialEq, Eq)]
pub enum Action {
    /// An iteration has begun with this mnemonic. Report `Continue`.
    Begin { iteration: u64, mnemonic: String },
    /// Look up the balance of the candidate's address and report the answer.
    Query { candidate: Candidate },
    /// Every iteration is done; these are the final counts.
    Finish { stats: ScanStats },
}

/// An [`Event`], as mathematical values.
pub enum EventView {
    Continue,
    Answer(Result<BalanceProbeView, WalletError>),
}

/// An [`Action`], as mathematical values.
pub enum ActionView {
    Begin { iteration: nat, mnemonic: Seq<char> },
    Query { candidate: CandidateView },
    Finish { stats: StatsView },
}

impl View for Event {
    type V = EventView;

    open spec fn view(&self) -> EventView {
        match self {
            Event::Continue => EventView::Continue,
            Event::Answer(lookup) => EventView::Answer(lookup_view(*lookup)),
        }
    }
}

impl View for Action {
    type V = ActionView;

    open spec fn view(&self) -> ActionView {
        match self {
            Action::Begin { iteration, mnemonic } => ActionView::Begin {
                iteration: *iteration as nat,
                mnemonic: mnemonic@,
            },
            Action::Query { candidate } => ActionView::Query { candidate: candidate@ },
            Action::Finish { stats } => ActionView::Finish { stats: stats@ },
        }
    }
}

/// The view of what a step returns.
pub open spec fn outcome_view(outcome: Result<Action, WalletError>) -> Result<
    ActionView,
    WalletError,
> {
    match outcome {
        Ok(action) => Ok(action@),
        Err(e) => Err(e),
    }
}

/// The view of a mnemonic that may have failed to generate.
pub open spec fn fresh_view(fresh: Result<Mnemonic, WalletError>) -> Result<
    Seq<char>,
    WalletError,
> {
    match fresh {
        Ok(mnemonic) => Ok(mnemonic@),
        Err(e) => Err(e),
    }
}

/// The state of a scan, as mathematical values.
pub struct ScanView {
    /// The network of the addresses.
    pub network: Network,
    /// The iterations to run.
    pub iterations: nat,
    /// The iterations begun so far.
    pub started: nat,
    /// The candidates of the current iteration.
    pub queue: Seq<CandidateView>,
    /// How many of them have been looked up.
    pub cursor: nat,
    /// Whether a lookup has been asked for and not answered.
    pub awaiting: bool,
    /// The verdicts on all lookups so far, in order.
    pub history: Seq<Verdict>,
}

impl ScanView {
    /// The state of a scan that has not begun.
    pub open spec fn initial(iterations: nat, network: Network) -> ScanView {
        ScanView {
            network,
            iterations,
            started: 0,
            queue: Seq::<CandidateView>::empty(),
            cursor: 0,
            awaiting: false,
            history: Seq::<Verdict>::empty(),
        }
    }

    /// What holds of every state that a scan can reach. Each iteration that
    /// has begun accounts for four lookups, done or still to do.
    pub open spec fn wf(self) -> bool {
        &&& self.started <= self.iterations
        &&& self.cursor <= self.queue.len()
        &&& self.awaiting ==> self.cursor < self.queue.len()
        &&& self.queue.len() == if self.started == 0 {
            0nat
        } else {
            4nat
        }
        &&& self.history.len() + (self.queue.len() - self.cursor) == 4 * self.started
    }

    /// Whether nothing is left to do.
    pub open spec fn finished(self) -> bool {
        self.cursor == self.queue.len() && self.started == self.iterations
    }

    /// The counts so far.
    pub open spec fn stats(self) -> StatsView {
        tally(self.history)
    }

    /// The state after an event is taken in. An answer is counted if a lookup
    /// was asked for, and passed over otherwise.
    pub open spec fn absorb(self, event: EventView) -> ScanView {
        match event {
            EventView::Answer(lookup) => if self.awaiting {
                ScanView {
                    cursor: self.cursor + 1,
                    awaiting: false,
                    history: self.history.push(
                        verdict_spec(self.queue[self.cursor as int].derived.address, lookup),
                    ),
                    ..self
                }
            } else {
                self
            },
            EventView::Continue => self,
        }
    }

    /// Whether the next step begins an iteration, and so needs a mnemonic.
    pub open spec fn needs_mnemonic(self) -> bool {
        self.cursor == self.queue.len() && self.started < self.iterations
    }

    /// The state and the action that follow on an event. `fresh` is the
    /// mnemonic for the next iteration, which is used if one begins.
    ///
    /// After the event is taken in: if a candidate is left, its lookup is
    /// asked for. Else, if an iteration is left, it begins: with the four
    /// candidates of the mnemonic, or not at all if the mnemonic or a
    /// candidate failed. Else the scan is finished.
    pub open spec fn transition(self, event: EventView, fresh: Result<Seq<char>, WalletError>)
        -> (ScanView, Result<ActionView, WalletError>) {
        let mid = self.absorb(event);
        if mid.cursor < mid.queue.len() {
            (
                ScanView { awaiting: true, ..mid },
                Ok(ActionView::Query { candidate: mid.queue[mid.cursor as int] }),
            )
        } else if mid.started < mid.iterations {
            match fresh {
                Err(e) => (mid, Err(e)),
                Ok(phrase) => match candidates_spec(phrase, mid.network, 4) {
                    Err(e) => (mid, Err(e)),
                    Ok(queue) => (
                        ScanView {
                            started: mid.started + 1,
                            queue,
                            cursor: 0,
                            awaiting: false,
                            ..mid
                        },
                        Ok(ActionView::Begin { iteration: mid.started + 1, mnemonic: phrase }),
                    ),
                },
            }
        } else {
            (mid, Ok(ActionView::Finish { stats: mid.stats() }))
        }
    }
}

/// Every step leads from a reachable state to a reachable state, keeps what
/// was counted, and lets no count go down.
pub proof fn lemma_transition_wf(
    pre: ScanView,
    event: EventView,
    fresh: Result<Seq<char>, WalletError>,
)
    requires
        pre.wf(),
    ensures
        pre.transition(event, fresh).0.wf(),
        pre.transition(event, fresh).0.iterations == pre.iterations,
        pre.transition(event, fresh).0.network == pre.network,
        pre.history.is_prefix_of(pre.transition(event, fresh).0.history),
        pre.stats().found <= pre.transition(event, fresh).0.stats().found,
        pre.stats().not_found <= pre.transition(event, fresh).0.stats().not_found,
        pre.stats().failed <= pre.transition(event, fresh).0.stats().failed,
{
    let mid = pre.absorb(event);
    lemma_tally_monotone(pre.history, pre.transition(event, fresh).0.history);
    if mid.cursor >= mid.queue.len() && mid.started < mid.iterations {
        if let Ok(phrase) = fresh {
            lemma_candidates(phrase, mid.network, 4);
        }
    }
}

/// A scan that is finished has counted four lookups for each iteration.
pub proof fn lemma_finished_total(state: ScanView)
    requires
        state.wf(),
        state.finished(),
    ensures
        state.stats().total() == 4 * state.iterations,
{
    lemma_tally_total(state.history);
}

/// A scan: the state between two steps.
pub struct Scan {
    network: Network,
    iterations: u64,
    started: u64,
    queue: Vec<Candidate>,
    cursor: usize,
    awaiting: bool,
    stats: ScanStats,
    history: Ghost<Seq<Verdict>>,
}

impl View for Scan {
    type V = ScanView;

    closed spec fn view(&self) -> ScanView {
        ScanView {
            network: self.network,
            iterations: self.iterations as nat,
            started: self.started as nat,
            queue: candidate_views(self.queue@),
            cursor: self.cursor as nat,
            awaiting: self.awaiting,
            history: self.history@,
        }
    }
}

impl Scan {
    #[verifier::type_invariant]
    spec fn inv(self) -> bool {
        self@.wf() && self.stats@ == tally(self.history@)
    }

    /// A scan of so many iterations that has not begun.
    pub fn new(iterations: u64, network: Network) -> (r: Scan)
        ensures
            r@ == ScanView::initial(iterations as nat, network),
    {
        let queue: Vec<Candidate> = Vec::new();
        proof {
            assert(candidate_views(queue@) =~= Seq::<CandidateView>::empty());
        }
        Scan {
            network,
            iterations,
            started: 0,
            queue,
            cursor: 0,
            awaiting: false,
            stats: ScanStats::new(),
            history: Ghost(Seq::<Verdict>::empty()),
        }
    }

    /// The counts so far.
    pub fn stats(&self) -> (r: ScanStats)
        ensures
            r@ == self@.stats(),
            self@.wf(),
            self@.finished() ==> r@.total() == 4 * self@.iterations,
    {
        proof {
            use_type_invariant(self);
            if self@.finished() {
                lemma_finished_total(self@);
            }
        }
        self.stats
    }

    /// Whether the next step begins an iteration, and so needs a mnemonic.
    pub fn needs_mnemonic(&self, event: &Event) -> (r: bool)
        ensures
            r == self@.absorb(event@).needs_mnemonic(),
    {
        proof {
            use_type_invariant(self);
        }
        let answered = self.awaiting && match event {
            Event::Answer(_) => true,
            Event::Continue => false,
        };
        let cursor = if answered {
            self.cursor + 1
        } else {
            self.cursor
        };
        cursor == self.queue.len() && self.started < self.iterations
    }

    /// One step of the scan for a given mnemonic: takes in the event and
    /// says what to do next. The mnemonic is used only if an iteration
    /// begins.
    pub fn transition(self, event: Event, fresh: Result<Mnemonic, WalletError>) -> (r: (
        Scan,
        Result<Action, WalletError>,
    ))
        ensures
            (r.0@, outcome_view(r.1)) == self@.transition(event@, fresh_view(fresh)),
            r.0@.wf(),
    {
        proof {
            use_type_invariant(&self);
            lemma_transition_wf(self@, event@, fresh_view(fresh));
        }
        Scan::proceed(self.absorb(event), fresh)
    }

    /// Takes in an event: an answer is counted if a lookup was asked for.
    fn absorb(self, event: Event) -> (r: Scan)
        ensures
            r@ == self@.absorb(event@),
    {
        proof {
            use_type_invariant(&self);
        }
        match event {
            Event::Continue => self,
            Event::Answer(lookup) => if self.awaiting {
                let Scan { network, iterations, started, queue, cursor, stats, history, .. } = self;
                let found = verdict(queue[cursor].derived.address.as_str(), &lookup);
                let mut stats = stats;
                proof {
                    lemma_tally_total(history@);
                    assert(history@.push(found).drop_last() =~= history@);
                }
                stats.record(found);
                Scan {
                    network,
                    iterations,
                    started,
                    queue,
                    cursor: cursor + 1,
                    awaiting: false,
                    stats,
                    history: Ghost(history@.push(found)),
                }
            } else {
                self
            },
        }
    }

    /// What follows once the event has been taken in.
    fn proceed(mid: Scan, fresh: Result<Mnemonic, WalletError>) -> (r: (
        Scan,
        Result<Action, WalletError>,
    ))
        ensures
            (r.0@, outcome_view(r.1)) == mid@.transition(
                EventView::Continue,
                fresh_view(fresh),
            ),
    {
        proof {
            use_type_invariant(&mid);
            lemma_transition_wf(mid@, EventView::Continue, fresh_view(fresh));
        }
        if mid.cursor < mid.queue.len() {
            let candidate = mid.queue[mid.cursor].duplicate();
            let Scan { network, iterations, started, queue, cursor, stats, history, .. } = mid;
            let asked = Scan {
                network,
                iterations,
                started,
                queue,
                cursor,
                awaiting: true,
                stats,
                history,
            };
            (asked, Ok(Action::Query { candidate }))
        } else if mid.started < mid.iterations {
            match fresh {
                Err(e) => (mid, Err(e)),
                Ok(mnemonic) => match derive_candidates(&mnemonic, mid.network) {
                    Err(e) => (mid, Err(e)),
                    Ok(queue) => {
                        let iteration = mid.started + 1;
                        let begun = Scan {
                            network: mid.network,
                            iterations: mid.iterations,
                            started: iteration,
                            queue,
                            cursor: 0,
                            awaiting: false,
                            stats: mid.stats,
                            history: mid.history,
                        };
                        let mnemonic = String::from_str(mnemonic.as_str());
                        (begun, Ok(Action::Begin { iteration, mnemonic }))
                    },
                },
            }
        } else {
            let stats = mid.stats;
            (mid, Ok(Action::Finish { stats }))
        }
    }

    /// One step of the scan: takes in the event and says what to do next.
    /// Where an iteration begins, its mnemonic is freshly generated: twelve
    /// English words. The step is then the transition for what the generator
    /// gave: a mnemonic or a candidate that fails is the error of the step,
    /// and leaves the scan where it was after the event.
    pub fn step(self, event: Event) -> (r: (Scan, Result<Action, WalletError>))
        ensures
            r.0@.wf(),
            !self@.absorb(event@).needs_mnemonic() ==> forall|fresh: Result<Seq<char>, WalletError>|
                (r.0@, outcome_view(r.1)) == #[trigger] self@.transition(event@, fresh),
            self@.absorb(event@).needs_mnemonic() ==> exists|fresh: Result<Seq<char>, WalletError>|
                freshly_generated(fresh) && (r.0@, outcome_view(r.1)) == #[trigger] self@.transition(
                    event@,
                    fresh,
                ),
            self@.absorb(event@).needs_mnemonic() ==> match r.1 {
                Ok(Action::Begin { iteration, mnemonic }) => freshly_generated(
                    Ok::<Seq<char>, WalletError>(mnemonic@),
                ) && (r.0@, outcome_view(r.1)) == self@.transition(
                    event@,
                    Ok::<Seq<char>, WalletError>(mnemonic@),
                ),
                Ok(_) => false,
                Err(e) => r.0@ == self@.absorb(event@),
            },
    {
        let fresh = if self.needs_mnemonic(&event) {
            generate(None, None)
        } else {
            Err(WalletError::InvalidMnemonic(MnemonicFault::Other))
        };
        let ghost given = fresh_view(fresh);
        proof {
            use_type_invariant(&self);
            if let Ok(phrase) = given {
                lemma_valid_phrase_validates(phrase);
            }
            assert(freshly_generated(given));
            assert forall|other: Result<Seq<char>, WalletError>|
                !self@.absorb(event@).needs_mnemonic() implies #[trigger] self@.transition(
                event@,
                other,
            ) == self@.transition(event@, given) by {
                lemma_mnemonic_unused(self@, event@, other, given);
            }
        }
        self.transition(event, fresh)
    }
}

/// What the generator can hand to a step that begins an iteration: a valid
/// mnemonic of twelve words, or a failure to make one.
pub open spec fn freshly_generated(fresh: Result<Seq<char>, WalletError>) -> bool {
    match fresh {
        Ok(phrase) => valid_phrase(phrase) && count_words(phrase) == 12,
        Err(e) => e is InvalidMnemonic,
    }
}

/// Where no iteration begins, the mnemonic at hand makes no difference.
pub proof fn lemma_mnemonic_unused(
    pre: ScanView,
    event: EventView,
    one: Result<Seq<char>, WalletError>,
    other: Result<Seq<char>, WalletError>,
)
    requires
        pre.wf(),
        !pre.absorb(event).needs_mnemonic(),
    ensures
        pre.transition(event, one) == pre.transition(event, other),
{
}

} // verus!
