//! The deployment sequencer: processes the ordered package list strictly
//! left to right, skipping already-bound names, resolving each package's
//! declared addresses, handing out one publish request at a time, applying
//! the chunked-publish retry policy, and accumulating the records the report
//! is written from.
//!
//! The sequencer owns the mutable address book and the growing record list
//! for the duration of a run. The caller performs the outside work — loading
//! a manifest, running a publish, prompting — and feeds every outcome back
//! in; each step function says exactly how the state moves.

use vstd::prelude::*;

use crate::address::AddressBook;
use crate::address::ChainAddress;
use crate::deploy_config::DeployConfig;
use crate::errors::DeployError;
use crate::manifest::MoveTomlFile;
use crate::manifest::entry_names;
use crate::manifest::get_named_addresses;
use crate::manifest::keeps_other_names;
use crate::network::AptosNetwork;
use crate::network::DeployModuleType;
use crate::resolver::Substitution;
use crate::resolver::resolvable;
use crate::resolver::resolve;
use crate::resolver::substitutions_match;
use crate::resolver::unresolved_at;

verus! {

/// One on-chain transaction's summary, as the underlying chain tool reports
/// it. A package may take more than one transaction (create-object then
/// publish, or a chunked multi-transaction publish).
#[derive(Debug, Clone, PartialEq, Eq)]
pub struct TxSummary {
    pub transaction_hash: String,
    pub gas_used: u64,
    pub success: bool,
}

/// The record of one deployed package: where it came from, the name it
/// bound, the address it resolved to, and its transactions in order.
#[derive(Debug, PartialEq, Eq)]
pub struct TransactionRecord {
    pub module_location: String,
    pub address_name: String,
    pub deployed_at: ChainAddress,
    pub tx_info: Vec<TxSummary>,
}

/// The persisted, resumable outcome of a run: written exactly once at run
/// end, success or failure, reflecting only the packages that completed.
#[derive(Debug)]
pub struct DeployReport {
    pub account: ChainAddress,
    pub network: AptosNetwork,
    pub info: Vec<TransactionRecord>,
}

/// The structured parameters of one publish call into the chain tool: no
/// command strings, every argument explicit.
#[derive(Debug, PartialEq, Eq)]
pub struct PublishRequest {
    pub module_location: String,
    pub address_name: String,
    pub module_type: DeployModuleType,
    pub named_addresses: Vec<Substitution>,
    pub include_artifacts: bool,
    pub assume_yes: bool,
    pub chunked: bool,
}

/// Where the sequencer stands between two calls.
#[derive(Clone, Copy, Debug, PartialEq, Eq, Structural)]
pub enum SequencerPhase {
    /// The next pending package, if any, has not been started.
    Ready,
    /// A publish request was handed out; its outcome is awaited.
    AwaitingOutcome,
    /// The publish payload was too large; the operator must confirm the
    /// chunked retry.
    AwaitingChunkConfirmation,
    /// The chunked retry was handed out; its outcome is awaited.
    AwaitingRetryOutcome,
    /// A fatal error ended the sequence. The records accumulated so far are
    /// kept for the report.
    Aborted,
}

/// What one polling step asks the caller to do next.
#[derive(Debug, PartialEq, Eq)]
pub enum PollStep {
    /// Every package was processed; the run completed.
    Finished,
    /// The package's address name is already bound: no publish call, no new
    /// record; the sequencer moved on to the next package.
    Skipped { address_name: String },
    /// The caller must load this package's manifest and hand it to
    /// `resolve_package`.
    NeedManifest { module_location: String, address_name: String },
}

/// What follows a too-large publish failure on a chunk-capable network.
#[derive(Clone, Copy, Debug, PartialEq, Eq, Structural)]
pub enum ChunkDecision {
    /// The non-interactive flag is set: retry right away with chunked
    /// publishing enabled; the pending request was updated accordingly.
    Retry,
    /// The operator must confirm the chunked retry first.
    NeedConfirmation,
}

/// The address a successful publish bound: the freshly created object's
/// address in `Object` mode, the sender's own address in `Account` mode.
pub open spec fn spec_deployed_at(
    module_type: DeployModuleType,
    object_address: Option<ChainAddress>,
    sender: Seq<u8>,
) -> Seq<u8> {
    match module_type {
        DeployModuleType::Object => object_address->0@,
        DeployModuleType::Account => sender,
    }
}

/// The declared names a package's table contributes to resolution: in
/// `Object` mode the package's own entry is dropped first.
pub open spec fn prepared_names(
    move_toml: MoveTomlFile,
    self_name: Seq<char>,
    module_type: DeployModuleType,
) -> Seq<Seq<char>> {
    if module_type is Object {
        entry_names(move_toml.addresses@.filter(keeps_other_names(self_name)))
    } else {
        entry_names(move_toml.addresses@)
    }
}

/// The views of a list of names.
pub open spec fn name_views(names: Seq<String>) -> Seq<Seq<char>> {
    names.map_values(|s: String| s@)
}

/// No two packages were assigned the same address name.
pub open spec fn distinct_names(names: Seq<String>) -> bool {
    forall|i: int, j: int|
        0 <= i < j < names.len() ==> (#[trigger] names[i])@ != (#[trigger] names[j])@
}

/// The completed package indices come in strictly increasing order.
pub open spec fn increasing(c: Seq<int>) -> bool {
    forall|a: int, b: int| 0 <= a < b < c.len() ==> #[trigger] c[a] < #[trigger] c[b]
}

/// Every completed index lies before the cursor.
pub open spec fn below(c: Seq<int>, idx: int) -> bool {
    forall|a: int| 0 <= a < c.len() ==> 0 <= #[trigger] c[a] < idx
}

/// Each record belongs to its completed package: same position in the input
/// lists, same address name, same location.
pub open spec fn tracked_records(
    records: Seq<TransactionRecord>,
    c: Seq<int>,
    locations: Seq<String>,
    names: Seq<String>,
) -> bool {
    &&& records.len() == c.len()
    &&& forall|a: int|
        0 <= a < c.len() ==> {
            &&& 0 <= #[trigger] c[a] < names.len()
            &&& c[a] < locations.len()
            &&& records[a].address_name@ == names[c[a]]@
            &&& records[a].module_location@ == locations[c[a]]@
        }
}

/// The names bound by the completed packages.
pub open spec fn bound_names(names: Seq<String>, c: Seq<int>) -> Set<Seq<char>> {
    Set::new(
        |n: Seq<char>|
            exists|a: int|
                0 <= a < c.len() && 0 <= #[trigger] c[a] < names.len() && names[c[a]]@ == n,
    )
}

/// No completed package's name was among the seeded ones (else it would
/// have been skipped).
pub open spec fn fresh_completed(
    names: Seq<String>,
    c: Seq<int>,
    initial: Set<Seq<char>>,
) -> bool {
    forall|a: int|
        0 <= a < c.len() && 0 <= #[trigger] c[a] < names.len() ==> !initial.contains(names[c[a]]@)
}

/// The book resolves every recorded name to the recorded address.
pub open spec fn recorded_addresses_agree(
    book: Map<Seq<char>, Seq<u8>>,
    records: Seq<TransactionRecord>,
) -> bool {
    forall|a: int|
        0 <= a < records.len() ==> book[(#[trigger] records[a]).address_name@]
            == records[a].deployed_at@
}

/// Every processed package's name is bound.
pub open spec fn prefix_bound(dom: Set<Seq<char>>, names: Seq<String>, idx: int) -> bool {
    forall|i: int| 0 <= i < idx && i < names.len() ==> dom.contains((#[trigger] names[i])@)
}

/// The second request is the first with chunked publishing enabled and
/// nothing else changed.
pub open spec fn chunked_update(
    before: Option<PublishRequest>,
    after: Option<PublishRequest>,
) -> bool {
    &&& before matches Some(b) && after matches Some(a) && {
        &&& a.module_location == b.module_location
        &&& a.address_name == b.address_name
        &&& a.module_type == b.module_type
        &&& a.named_addresses == b.named_addresses
        &&& a.include_artifacts == b.include_artifacts
        &&& a.assume_yes == b.assume_yes
        &&& a.chunked
    }
}

/// The core state machine of a run.
pub struct DeploymentSequencer {
    pub module_type: DeployModuleType,
    pub network: AptosNetwork,
    pub assume_yes: bool,
    pub publish_code: bool,
    pub sender: ChainAddress,
    pub modules_path: Vec<String>,
    pub addresses_name: Vec<String>,
    pub book: AddressBook,
    pub records: Vec<TransactionRecord>,
    pub idx: usize,
    pub phase: SequencerPhase,
    pub pending: Option<PublishRequest>,
    pub pending_size: Option<(u64, u64)>,
    /// The names the address book was seeded with.
    pub initial_names: Ghost<Set<Seq<char>>>,
    /// The package indices the records were produced by, in order.
    pub completed: Ghost<Seq<int>>,
}

impl DeploymentSequencer {
    /// The address name assigned to the package at `i`.
    pub open spec fn name_at(self, i: int) -> Seq<char> {
        self.addresses_name@[i]@
    }

    /// The location of the package at `i`.
    pub open spec fn location_at(self, i: int) -> Seq<char> {
        self.modules_path@[i]@
    }

    /// The number of packages.
    pub open spec fn len(self) -> nat {
        self.addresses_name@.len()
    }

    /// A publish request was handed out and not yet resolved into a record
    /// or an abort.
    pub open spec fn in_flight(self) -> bool {
        ||| self.phase is AwaitingOutcome
        ||| self.phase is AwaitingChunkConfirmation
        ||| self.phase is AwaitingRetryOutcome
    }

    /// Every package's address name is already bound in the book: the state
    /// a resumed run starts in when the previous run completed everything.
    pub open spec fn all_names_bound(self) -> bool {
        prefix_bound(self.book@.dom(), self.addresses_name@, self.addresses_name@.len() as int)
    }

    /// The state invariant: every step establishes it again.
    ///
    /// The records pair up with a strictly increasing sequence of processed
    /// package indices, each record binding exactly its package's name; the
    /// book holds exactly the seeded names plus the recorded ones, with the
    /// recorded addresses; every processed package's name is bound; and an
    /// in-flight request matches the current package.
    pub open spec fn wf(self) -> bool {
        &&& self.book.wf()
        &&& self.modules_path@.len() == self.addresses_name@.len()
        &&& self.idx <= self.len()
        &&& distinct_names(self.addresses_name@)
        &&& increasing(self.completed@)
        &&& below(self.completed@, self.idx as int)
        &&& tracked_records(self.records@, self.completed@, self.modules_path@, self.addresses_name@)
        &&& fresh_completed(self.addresses_name@, self.completed@, self.initial_names@)
        &&& self.book@.dom() == self.initial_names@.union(
            bound_names(self.addresses_name@, self.completed@),
        )
        &&& recorded_addresses_agree(self.book@, self.records@)
        &&& prefix_bound(self.book@.dom(), self.addresses_name@, self.idx as int)
        &&& (self.in_flight() ==> {
            &&& self.idx < self.len()
            &&& !self.book@.dom().contains(self.name_at(self.idx as int))
            &&& self.pending matches Some(req) && {
                &&& req.module_location@ == self.location_at(self.idx as int)
                &&& req.address_name@ == self.name_at(self.idx as int)
                &&& req.module_type == self.module_type
                &&& req.include_artifacts == self.publish_code
                &&& req.assume_yes == self.assume_yes
            }
        })
        &&& (self.phase is AwaitingOutcome ==> (self.pending matches Some(req) && !req.chunked))
        &&& (self.phase is AwaitingChunkConfirmation ==> (self.pending matches Some(req)
            && !req.chunked && self.pending_size is Some))
        &&& (self.phase is AwaitingRetryOutcome ==> (self.pending matches Some(req) && req.chunked))
    }

    /// Everything fixed for the run stays what it was.
    pub open spec fn same_run(self, other: Self) -> bool {
        &&& self.module_type == other.module_type
        &&& self.network == other.network
        &&& self.assume_yes == other.assume_yes
        &&& self.publish_code == other.publish_code
        &&& self.sender == other.sender
        &&& self.modules_path == other.modules_path
        &&& self.addresses_name == other.addresses_name
        &&& self.initial_names == other.initial_names
    }

    /// Starts a run over a validated configuration: the book is seeded from
    /// the pre-populated map, no records yet, the first package pending.
    pub fn new(config: DeployConfig, sender: ChainAddress) -> (s: Self)
        requires
            config.valid(),
        ensures
            s.wf(),
            s.module_type == config.module_type,
            s.network == config.network,
            s.assume_yes == config.yes,
            s.publish_code == config.publish_code,
            s.sender == sender,
            s.modules_path == config.modules_path,
            s.addresses_name == config.addresses_name,
            s.book@ == config.deployed_addresses@,
            s.records@ == Seq::<TransactionRecord>::empty(),
            s.idx == 0,
            s.phase is Ready,
            s.initial_names@ == config.deployed_addresses@.dom(),
            s.completed@ == Seq::<int>::empty(),
    {
        let book = config.deployed_addresses;
        let ghost init_names = book@.dom();
        let s = DeploymentSequencer {
            module_type: config.module_type,
            network: config.network,
            assume_yes: config.yes,
            publish_code: config.publish_code,
            sender,
            modules_path: config.modules_path,
            addresses_name: config.addresses_name,
            book,
            records: Vec::new(),
            idx: 0,
            phase: SequencerPhase::Ready,
            pending: None,
            pending_size: None,
            initial_names: Ghost(init_names),
            completed: Ghost(Seq::empty()),
        };
        proof {
            assert(s.book@.dom() =~= s.initial_names@.union(
                bound_names(s.addresses_name@, s.completed@),
            ));
        }
        s
    }

    /// One step of the per-package loop. Skips a package whose address name
    /// is already bound — no publish call, no new record — and otherwise
    /// asks the caller for the package's manifest.
    pub fn poll(&mut self) -> (r: PollStep)
        requires
            old(self).wf(),
            old(self).phase is Ready,
        ensures
            final(self).wf(),
            final(self).phase is Ready,
            final(self).same_run(*old(self)),
            final(self).book == old(self).book,
            final(self).records == old(self).records,
            final(self).completed == old(self).completed,
            r is Finished <==> old(self).idx == old(self).len(),
            r is Finished ==> final(self).idx == old(self).idx,
            r is Skipped <==> (old(self).idx < old(self).len() && old(self).book@.dom().contains(
                old(self).name_at(old(self).idx as int),
            )),
            r matches PollStep::Skipped { address_name } ==> address_name@ == old(self).name_at(
                old(self).idx as int,
            ) && final(self).idx == old(self).idx + 1,
            r is NeedManifest <==> (old(self).idx < old(self).len()
                && !old(self).book@.dom().contains(old(self).name_at(old(self).idx as int))),
            r matches PollStep::NeedManifest { module_location, address_name } ==> module_location@
                == old(self).location_at(old(self).idx as int) && address_name@ == old(
                self,
            ).name_at(old(self).idx as int) && final(self).idx == old(self).idx,
            old(self).all_names_bound() ==> !(r is NeedManifest) && final(self).all_names_bound(),
    {
        if self.idx == self.addresses_name.len() {
            return PollStep::Finished;
        }
        let already = self.book.contains_name(&self.addresses_name[self.idx]);
        if already {
            let address_name = self.addresses_name[self.idx].clone();
            let ghost idx0 = self.idx as int;
            self.idx = self.idx + 1;
            proof {
                assert forall|i: int|
                    0 <= i < self.idx && i < self.addresses_name@.len() implies self.book@.dom().contains(
                    (#[trigger] self.addresses_name@[i])@,
                ) by {
                    if i < idx0 {
                        assert(prefix_bound(old(self).book@.dom(), old(self).addresses_name@, idx0));
                    }
                }
                assert(below(self.completed@, self.idx as int)) by {
                    assert(below(old(self).completed@, idx0));
                }
            }
            PollStep::Skipped { address_name }
        } else {
            PollStep::NeedManifest {
                module_location: self.modules_path[self.idx].clone(),
                address_name: self.addresses_name[self.idx].clone(),
            }
        }
    }

    /// Resolves the current package against the book and hands out the
    /// publish request, or aborts the run: a manifest that does not declare
    /// the package's own name, or a dependency that was not deployed
    /// earlier, is fatal.
    pub fn resolve_package(&mut self, move_toml: MoveTomlFile) -> (r: Result<(), DeployError>)
        requires
            old(self).wf(),
            old(self).phase is Ready,
            old(self).idx < old(self).len(),
            !old(self).book@.dom().contains(old(self).name_at(old(self).idx as int)),
        ensures
            final(self).wf(),
            final(self).same_run(*old(self)),
            final(self).book == old(self).book,
            final(self).records == old(self).records,
            final(self).completed == old(self).completed,
            final(self).idx == old(self).idx,
            r is Ok <==> (move_toml.declares(old(self).name_at(old(self).idx as int))
                && resolvable(
                prepared_names(
                    move_toml,
                    old(self).name_at(old(self).idx as int),
                    old(self).module_type,
                ),
                old(self).book@,
                old(self).name_at(old(self).idx as int),
            )),
            r is Ok ==> {
                &&& final(self).phase is AwaitingOutcome
                &&& final(self).pending matches Some(req) && {
                    &&& req.module_location@ == old(self).location_at(old(self).idx as int)
                    &&& req.address_name@ == old(self).name_at(old(self).idx as int)
                    &&& req.module_type == old(self).module_type
                    &&& req.include_artifacts == old(self).publish_code
                    &&& req.assume_yes == old(self).assume_yes
                    &&& !req.chunked
                    &&& substitutions_match(
                        req.named_addresses@,
                        prepared_names(
                            move_toml,
                            old(self).name_at(old(self).idx as int),
                            old(self).module_type,
                        ),
                        old(self).book@,
                        old(self).sender@,
                    )
                }
            },
            r is Err ==> final(self).phase is Aborted,
            !move_toml.declares(old(self).name_at(old(self).idx as int)) ==> (r matches Err(e) && (
            e matches DeployError::AddressNameNotInManifest { address_name, module_location }
                && address_name@ == old(self).name_at(old(self).idx as int) && module_location@
                == old(self).location_at(old(self).idx as int))),
            move_toml.declares(old(self).name_at(old(self).idx as int)) && !resolvable(
                prepared_names(
                    move_toml,
                    old(self).name_at(old(self).idx as int),
                    old(self).module_type,
                ),
                old(self).book@,
                old(self).name_at(old(self).idx as int),
            ) ==> (r matches Err(e) && (e matches DeployError::DependencyOrder {
                missing,
                dependent,
            } && {
                let names = prepared_names(
                    move_toml,
                    old(self).name_at(old(self).idx as int),
                    old(self).module_type,
                );
                &&& dependent@ == old(self).name_at(old(self).idx as int)
                &&& exists|i: int|
                    #![trigger names[i]]
                    unresolved_at(names, old(self).book@, dependent@, i) && missing@ == names[i]
                        && forall|j: int|
                        0 <= j < i ==> !unresolved_at(names, old(self).book@, dependent@, j)
            })),
    {
        let self_name = self.addresses_name[self.idx].clone();
        let location = self.modules_path[self.idx].clone();
        let table = match get_named_addresses(move_toml, &location, &self_name, self.module_type) {
            Ok(t) => t,
            Err(e) => {
                self.phase = SequencerPhase::Aborted;
                return Err(e);
            },
        };
        let named_addresses = match resolve(&table, &self.book, &self_name, &self.sender) {
            Ok(subs) => subs,
            Err(e) => {
                self.phase = SequencerPhase::Aborted;
                return Err(e);
            },
        };
        let req = PublishRequest {
            module_location: location,
            address_name: self_name,
            module_type: self.module_type,
            named_addresses,
            include_artifacts: self.publish_code,
            assume_yes: self.assume_yes,
            chunked: false,
        };
        self.pending = Some(req);
        self.phase = SequencerPhase::AwaitingOutcome;
        Ok(())
    }

    /// The publish request currently handed out.
    pub fn current_request(&self) -> (r: &PublishRequest)
        requires
            self.wf(),
            self.in_flight(),
        ensures
            self.pending matches Some(req) && r == req,
    {
        match &self.pending {
            Some(req) => req,
            None => vstd::pervasive::unreached(),
        }
    }

    /// Records a successful publish: the resulting address — the sender in
    /// `Account` mode, the freshly created object in `Object` mode — is
    /// bound in the book, a record is appended, and the sequencer moves on
    /// to the next package.
    pub fn on_publish_success(
        &mut self,
        tx_info: Vec<TxSummary>,
        object_address: Option<ChainAddress>,
    )
        requires
            old(self).wf(),
            old(self).phase is AwaitingOutcome || old(self).phase is AwaitingRetryOutcome,
            old(self).module_type is Object ==> object_address is Some,
        ensures
            final(self).wf(),
            final(self).same_run(*old(self)),
            final(self).phase is Ready,
            final(self).idx == old(self).idx + 1,
            final(self).book@ == old(self).book@.insert(
                old(self).name_at(old(self).idx as int),
                spec_deployed_at(old(self).module_type, object_address, old(self).sender@),
            ),
            final(self).records@.len() == old(self).records@.len() + 1,
            forall|a: int|
                0 <= a < old(self).records@.len() ==> final(self).records@[a] == old(
                    self,
                ).records@[a],
            final(self).records@.last().module_location@ == old(self).location_at(
                old(self).idx as int,
            ),
            final(self).records@.last().address_name@ == old(self).name_at(old(self).idx as int),
            final(self).records@.last().deployed_at@ == spec_deployed_at(
                old(self).module_type,
                object_address,
                old(self).sender@,
            ),
            final(self).records@.last().tx_info == tx_info,
            final(self).completed@ == old(self).completed@.push(old(self).idx as int),
    {
        proof {
            assert(old(self).in_flight());
        }
        let ghost idx0 = self.idx as int;
        let ghost name0 = self.name_at(idx0);
        let deployed_at: ChainAddress = match self.module_type {
            DeployModuleType::Account => self.sender.clone(),
            DeployModuleType::Object => object_address.unwrap(),
        };
        let location = self.modules_path[self.idx].clone();
        let address_name = self.addresses_name[self.idx].clone();
        let book_addr = deployed_at.clone();
        self.book.insert(address_name.clone(), book_addr);
        let rec = TransactionRecord {
            module_location: location,
            address_name,
            deployed_at,
            tx_info,
        };
        self.records.push(rec);
        let n = self.addresses_name.len();
        proof {
            assert(self.idx < n);
        }
        self.idx = self.idx + 1;
        self.phase = SequencerPhase::Ready;
        self.pending = None;
        self.pending_size = None;
        self.completed = Ghost(self.completed@.push(idx0));
        proof {
            let names = self.addresses_name@;
            let oldc = old(self).completed@;
            let newc = self.completed@;
            assert(!old(self).initial_names@.contains(name0)) by {
                assert(!old(self).book@.dom().contains(name0));
                assert(!old(self).initial_names@.union(bound_names(names, oldc)).contains(name0));
            }
            assert(below(newc, self.idx as int)) by {
                assert(below(oldc, idx0));
                assert forall|a: int| 0 <= a < newc.len() implies 0 <= #[trigger] newc[a]
                    < self.idx by {
                    if a < oldc.len() {
                        assert(newc[a] == oldc[a]);
                    }
                }
            }
            assert(increasing(newc)) by {
                assert forall|a: int, b: int| 0 <= a < b < newc.len() implies #[trigger] newc[a]
                    < #[trigger] newc[b] by {
                    if b < oldc.len() {
                        assert(newc[a] == oldc[a] && newc[b] == oldc[b]);
                    } else {
                        assert(newc[b] == idx0);
                        assert(newc[a] == oldc[a]);
                        assert(oldc[a] < idx0);
                    }
                }
            }
            assert(bound_names(names, newc) =~= bound_names(names, oldc).insert(name0)) by {
                assert forall|n: Seq<char>|
                    bound_names(names, newc).contains(n) implies bound_names(
                    names,
                    oldc,
                ).insert(name0).contains(n) by {
                    let a = choose|a: int|
                        0 <= a < newc.len() && 0 <= #[trigger] newc[a] < names.len()
                            && names[newc[a]]@ == n;
                    if a < oldc.len() {
                        assert(oldc[a] == newc[a]);
                        assert(bound_names(names, oldc).contains(n));
                    } else {
                        assert(newc[a] == idx0);
                    }
                }
                assert forall|n: Seq<char>|
                    bound_names(names, oldc).insert(name0).contains(n) implies bound_names(
                    names,
                    newc,
                ).contains(n) by {
                    if n == name0 {
                        assert(newc[oldc.len() as int] == idx0);
                        assert(names[idx0]@ == name0);
                    } else {
                        let a = choose|a: int|
                            0 <= a < oldc.len() && 0 <= #[trigger] oldc[a] < names.len()
                                && names[oldc[a]]@ == n;
                        assert(newc[a] == oldc[a]);
                    }
                }
            }
            assert(self.book@.dom() =~= self.initial_names@.union(bound_names(names, newc))) by {
                assert(self.book@ == old(self).book@.insert(name0, deployed_at@));
            }
            assert(tracked_records(self.records@, newc, self.modules_path@, names)) by {
                assert forall|a: int| 0 <= a < newc.len() implies {
                    &&& 0 <= #[trigger] newc[a] < names.len()
                    &&& newc[a] < self.modules_path@.len()
                    &&& self.records@[a].address_name@ == names[newc[a]]@
                    &&& self.records@[a].module_location@ == self.modules_path@[newc[a]]@
                } by {
                    if a < oldc.len() {
                        assert(newc[a] == oldc[a]);
                        assert(self.records@[a] == old(self).records@[a]);
                    } else {
                        assert(newc[a] == idx0);
                        assert(self.records@[a] == rec);
                    }
                }
            }
            assert(recorded_addresses_agree(self.book@, self.records@)) by {
                assert forall|a: int|
                    0 <= a < self.records@.len() implies self.book@[(
                #[trigger] self.records@[a]).address_name@] == self.records@[a].deployed_at@ by {
                    if a < old(self).records@.len() {
                        assert(self.records@[a] == old(self).records@[a]);
                        assert(oldc[a] < idx0);
                        assert(old(self).records@[a].address_name@ == names[oldc[a]]@);
                        assert(names[oldc[a]]@ != name0) by {
                            assert(distinct_names(names));
                        }
                    } else {
                        assert(self.records@[a] == rec);
                    }
                }
            }
            assert(prefix_bound(self.book@.dom(), names, self.idx as int)) by {
                assert forall|i: int|
                    0 <= i < self.idx && i < names.len() implies self.book@.dom().contains(
                    (#[trigger] names[i])@,
                ) by {
                    if i < idx0 {
                        assert(prefix_bound(old(self).book@.dom(), names, idx0));
                        assert(old(self).book@.dom().contains(names[i]@));
                    } else {
                        assert(names[i]@ == name0);
                    }
                }
            }
            assert(fresh_completed(names, newc, self.initial_names@)) by {
                assert forall|a: int|
                    0 <= a < newc.len() && 0 <= #[trigger] newc[a]
                        < names.len() implies !self.initial_names@.contains(names[newc[a]]@) by {
                    if a < oldc.len() {
                        assert(newc[a] == oldc[a]);
                        assert(fresh_completed(names, oldc, old(self).initial_names@));
                    } else {
                        assert(newc[a] == idx0);
                    }
                }
            }
        }
    }

    /// Applies the retry policy to a too-large publish failure. On the two
    /// public shared networks the same operation may be resubmitted once
    /// with chunked publishing enabled — right away under the
    /// non-interactive flag, after an explicit confirmation otherwise. On
    /// the fully local or the closed development network, and for a failure
    /// of the chunked retry itself, the error is fatal.
    pub fn on_publish_too_large(&mut self, limit: u64, size: u64) -> (r: Result<
        ChunkDecision,
        DeployError,
    >)
        requires
            old(self).wf(),
            old(self).phase is AwaitingOutcome || old(self).phase is AwaitingRetryOutcome,
        ensures
            final(self).wf(),
            final(self).same_run(*old(self)),
            final(self).book == old(self).book,
            final(self).records == old(self).records,
            final(self).completed == old(self).completed,
            final(self).idx == old(self).idx,
            old(self).phase is AwaitingRetryOutcome ==> (r == Result::<
                ChunkDecision,
                DeployError,
            >::Err(DeployError::PackageSizeExceeded { limit, size }) && final(self).phase
                is Aborted),
            old(self).phase is AwaitingOutcome
                && !old(self).network.spec_supports_chunked_publish() ==> (r == Result::<
                ChunkDecision,
                DeployError,
            >::Err(DeployError::ChunkedPublishUnsupported(old(self).network)) && final(self).phase
                is Aborted),
            (old(self).network is Local || old(self).network is Devnet) ==> (r is Err
                && final(self).phase is Aborted),
            old(self).phase is AwaitingOutcome && old(self).network.spec_supports_chunked_publish()
                && old(self).assume_yes ==> (r == Result::<ChunkDecision, DeployError>::Ok(
                ChunkDecision::Retry,
            ) && final(self).phase is AwaitingRetryOutcome && chunked_update(
                old(self).pending,
                final(self).pending,
            )),
            old(self).phase is AwaitingOutcome && old(self).network.spec_supports_chunked_publish()
                && !old(self).assume_yes ==> (r == Result::<ChunkDecision, DeployError>::Ok(
                ChunkDecision::NeedConfirmation,
            ) && final(self).phase is AwaitingChunkConfirmation && final(self).pending == old(
                self,
            ).pending && final(self).pending_size == Some((limit, size))),
    {
        if matches!(self.phase, SequencerPhase::AwaitingRetryOutcome) {
            self.phase = SequencerPhase::Aborted;
            return Err(DeployError::PackageSizeExceeded { limit, size });
        }
        if !self.network.supports_chunked_publish() {
            self.phase = SequencerPhase::Aborted;
            return Err(DeployError::ChunkedPublishUnsupported(self.network));
        }
        if self.assume_yes {
            match &mut self.pending {
                Some(req) => {
                    req.chunked = true;
                },
                None => {},
            }
            self.phase = SequencerPhase::AwaitingRetryOutcome;
            Ok(ChunkDecision::Retry)
        } else {
            self.pending_size = Some((limit, size));
            self.phase = SequencerPhase::AwaitingChunkConfirmation;
            Ok(ChunkDecision::NeedConfirmation)
        }
    }

    /// Applies the operator's answer to the chunked-retry prompt: declining
    /// is fatal and surfaces the original size error; confirming resubmits
    /// the same operation with chunked publishing enabled.
    pub fn confirm_chunked(&mut self, accepted: bool) -> (r: Result<(), DeployError>)
        requires
            old(self).wf(),
            old(self).phase is AwaitingChunkConfirmation,
        ensures
            final(self).wf(),
            final(self).same_run(*old(self)),
            final(self).book == old(self).book,
            final(self).records == old(self).records,
            final(self).completed == old(self).completed,
            final(self).idx == old(self).idx,
            accepted ==> (r is Ok && final(self).phase is AwaitingRetryOutcome && chunked_update(
                old(self).pending,
                final(self).pending,
            )),
            !accepted ==> (r matches Err(e) && (old(self).pending_size matches Some(ps) && e == (
            DeployError::PackageSizeExceeded { limit: ps.0, size: ps.1 })) && final(self).phase
                is Aborted),
    {
        if accepted {
            match &mut self.pending {
                Some(req) => {
                    req.chunked = true;
                },
                None => {},
            }
            self.phase = SequencerPhase::AwaitingRetryOutcome;
            Ok(())
        } else {
            let (limit, size) = match self.pending_size {
                Some(pair) => pair,
                None => vstd::pervasive::unreached(),
            };
            self.phase = SequencerPhase::Aborted;
            Err(DeployError::PackageSizeExceeded { limit, size })
        }
    }

    /// Records any other publish failure: fatal, the sequence stops, the
    /// records so far are kept for the report.
    pub fn on_publish_failure(&mut self, message: String) -> (e: DeployError)
        requires
            old(self).wf(),
        ensures
            final(self).wf(),
            final(self).same_run(*old(self)),
            final(self).book == old(self).book,
            final(self).records == old(self).records,
            final(self).completed == old(self).completed,
            final(self).idx == old(self).idx,
            final(self).phase is Aborted,
            e == DeployError::Publish(message),
    {
        self.phase = SequencerPhase::Aborted;
        DeployError::Publish(message)
    }

    /// Hands the finalized snapshot to the report writer: the records
    /// accumulated so far, whatever way the run ended.
    pub fn into_report(self) -> (r: DeployReport)
        ensures
            r.account == self.sender,
            r.network == self.network,
            r.info == self.records,
    {
        DeployReport { account: self.sender, network: self.network, info: self.records }
    }
}

/// Law: a package-too-large failure on the fully local or the closed
/// development network never offers a chunked retry; the policy table
/// admits exactly the two public shared networks.
pub proof fn lemma_no_chunked_retry_on_closed_networks(n: AptosNetwork)
    requires
        n is Local || n is Devnet,
    ensures
        !n.spec_supports_chunked_publish(),
{
}

/// Law: the report lists exactly the packages that completed strictly
/// before the run ended or aborted, in the original order — one record per
/// such package, binding that package's name, and the book agrees with
/// every recorded address. A processed package was recorded if and only if
/// its name was not pre-populated; the others were skipped.
pub proof fn lemma_report_is_completed_prefix(s: DeploymentSequencer)
    requires
        s.wf(),
    ensures
        s.records@.len() == s.completed@.len(),
        increasing(s.completed@),
        below(s.completed@, s.idx as int),
        tracked_records(s.records@, s.completed@, s.modules_path@, s.addresses_name@),
        recorded_addresses_agree(s.book@, s.records@),
        forall|i: int|
            0 <= i < s.idx ==> ((exists|a: int|
                0 <= a < s.completed@.len() && #[trigger] s.completed@[a] == i)
                <==> !s.initial_names@.contains(#[trigger] s.name_at(i))),
{
    assert forall|i: int|
        0 <= i < s.idx implies ((exists|a: int|
        0 <= a < s.completed@.len() && #[trigger] s.completed@[a] == i)
        <==> !s.initial_names@.contains(#[trigger] s.name_at(i))) by {
        let names = s.addresses_name@;
        if exists|a: int| 0 <= a < s.completed@.len() && #[trigger] s.completed@[a] == i {
            let a = choose|a: int| 0 <= a < s.completed@.len() && #[trigger] s.completed@[a] == i;
            assert(fresh_completed(names, s.completed@, s.initial_names@));
            assert(!s.initial_names@.contains(names[s.completed@[a]]@));
        }
        if !s.initial_names@.contains(s.name_at(i)) {
            assert(prefix_bound(s.book@.dom(), names, s.idx as int));
            assert(s.book@.dom().contains(names[i]@));
            assert(s.initial_names@.union(bound_names(names, s.completed@)).contains(names[i]@));
            assert(bound_names(names, s.completed@).contains(names[i]@));
            let a = choose|a: int|
                0 <= a < s.completed@.len() && 0 <= #[trigger] s.completed@[a] < names.len()
                    && names[s.completed@[a]]@ == names[i]@;
            assert(s.completed@[a] == i) by {
                if s.completed@[a] != i {
                    assert(distinct_names(names));
                    assert(names[s.completed@[a]]@ != names[i]@);
                }
            }
        }
    }
}

/// Law: idempotent resumption. When a run that started with an empty
/// pre-populated map completes, feeding its report's name-to-address map
/// back as the pre-populated map of a second run over the identical package
/// list leaves every package name already bound — so the second run skips
/// every package and issues zero publish calls (see `poll`: a bound name is
/// always skipped, and skipping changes neither book nor records).
pub proof fn lemma_resumption_skips_all(done: DeploymentSequencer, resumed: DeploymentSequencer)
    requires
        done.wf(),
        done.idx == done.len(),
        done.initial_names@ == Set::<Seq<char>>::empty(),
        name_views(resumed.addresses_name@) == name_views(done.addresses_name@),
        forall|a: int|
            0 <= a < done.records@.len() ==> resumed.book@.dom().contains(
                (#[trigger] done.records@[a]).address_name@,
            ),
    ensures
        resumed.all_names_bound(),
{
    let dnames = done.addresses_name@;
    let rnames = resumed.addresses_name@;
    assert(name_views(rnames).len() == name_views(dnames).len());
    assert forall|i: int|
        0 <= i < rnames.len() && i < rnames.len() implies resumed.book@.dom().contains(
        (#[trigger] rnames[i])@,
    ) by {
        assert(name_views(rnames)[i] == rnames[i]@);
        assert(name_views(dnames)[i] == dnames[i]@);
        assert(rnames[i]@ == dnames[i]@);
        assert(prefix_bound(done.book@.dom(), dnames, done.idx as int));
        assert(done.book@.dom().contains(dnames[i]@));
        assert(done.initial_names@.union(bound_names(dnames, done.completed@)).contains(
            dnames[i]@,
        ));
        assert(bound_names(dnames, done.completed@).contains(dnames[i]@));
        let a = choose|a: int|
            0 <= a < done.completed@.len() && 0 <= #[trigger] done.completed@[a] < dnames.len()
                && dnames[done.completed@[a]]@ == dnames[i]@;
        assert(tracked_records(done.records@, done.completed@, done.modules_path@, dnames));
        assert(done.records@[a].address_name@ == dnames[done.completed@[a]]@);
        assert(resumed.book@.dom().contains(done.records@[a].address_name@));
    }
}

} // verus!
