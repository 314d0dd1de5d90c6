//! The SmolFS backup module: an owner's public key mapped to a backup blob,
//! driven through the module lifecycle that the host runs every epoch.

use vstd::prelude::*;
use vstd::string::*;
use vstd::utf8::encode_utf8;

use crate::digest::{sha256_digest, sha256_of};
use crate::ledger::{
    Audit, InputMeta, ModuleError, OutPoint, PeerId, TransactionId, TransactionItemAmount,
};
use crate::request::{first_two_words, parse_put_params};
use crate::smolfs_config::SmolFSConfig;
use crate::smolfs_db::{
    keys_ascending, lemma_ascending_determined, lemma_unresolved_view, table_view, unresolved,
    unresolved_map, EntryTable, SmolFSDb,
};

verus! {

/// An owner key with its backup payload, as `(owner_key, payload)`.
pub type EntryView = (Seq<char>, Seq<char>);

/// The most characters a backup payload may hold.
pub const MAX_BACKUP_LEN: usize = 65536;

/// A backup blob keyed by its owner's public key.
#[derive(Clone, Debug, PartialEq, Eq, Hash, Default)]
pub struct SmolFSEntry {
    pub pubkey: String,
    pub backup: String,
}

impl View for SmolFSEntry {
    type V = EntryView;

    open spec fn view(&self) -> EntryView {
        (self.pubkey@, self.backup@)
    }
}

impl SmolFSEntry {
    /// A copy of this entry.
    pub fn duplicate(&self) -> (r: SmolFSEntry)
        ensures
            r@ == self@,
    {
        SmolFSEntry { pubkey: self.pubkey.clone(), backup: self.backup.clone() }
    }
}

/// What became of an output: the transaction that wrote it.
#[derive(Clone, Copy, Debug, PartialEq, Eq, Hash)]
pub struct SmolFSOutputOutcome(pub TransactionId);

/// A transaction input that stores a backup.
#[derive(Clone, Debug, PartialEq, Eq, Hash, Default)]
pub struct SmolFSInput(pub Box<SmolFSEntry>);

impl View for SmolFSInput {
    type V = EntryView;

    open spec fn view(&self) -> EntryView {
        (*self.0)@
    }
}

/// A transaction output that stores a backup.
#[derive(Clone, Debug, PartialEq, Eq, Hash, Default)]
pub struct SmolFSOutput(pub Box<SmolFSEntry>);

impl View for SmolFSOutput {
    type V = EntryView;

    open spec fn view(&self) -> EntryView {
        (*self.0)@
    }
}

/// The module's consensus item: an entry proposed for agreement.
#[derive(Clone, Debug, PartialEq, Eq, Hash)]
pub struct SmolFSOutputConfirmation(pub SmolFSEntry);

impl View for SmolFSOutputConfirmation {
    type V = EntryView;

    open spec fn view(&self) -> EntryView {
        self.0@
    }
}

/// Whether the module has something to propose this epoch.
#[derive(Clone, Copy, Debug, PartialEq, Eq, Structural)]
pub enum ProposalReadiness {
    /// At least one entry waits for agreement.
    Ready,
    /// Nothing to propose: the host should wait for new local state.
    Pending,
}

/// The payload last seen for each owner key in one validation batch.
pub struct SmolFSVerificationCache {
    valid_users: EntryTable,
}

impl SmolFSVerificationCache {
    pub closed spec fn wf(&self) -> bool {
        self.valid_users.wf()
    }

    /// Payload by owner key.
    pub closed spec fn map(&self) -> Map<Seq<char>, Seq<char>> {
        self.valid_users.map()
    }

    /// The payload the batch last gave for `key`.
    pub fn lookup(&self, key: &String) -> (r: Option<String>)
        requires
            self.wf(),
        ensures
            r is Some <==> self.map().contains_key(key@),
            r is Some ==> r->0@ == self.map()[key@],
    {
        self.valid_users.get(key)
    }
}

/// The map after storing each item in turn, a later item replacing an
/// earlier one with the same key.
pub open spec fn fold_upserts(m: Map<Seq<char>, Seq<char>>, items: Seq<EntryView>) -> Map<
    Seq<char>,
    Seq<char>,
>
    decreases items.len(),
{
    if items.len() == 0 {
        m
    } else {
        fold_upserts(m, items.drop_last()).insert(items.last().0, items.last().1)
    }
}

/// Owner key to the payload that a batch gave it last.
pub open spec fn batch_index(items: Seq<EntryView>) -> Map<Seq<char>, Seq<char>> {
    fold_upserts(Map::empty(), items)
}

/// Whether an entry is acceptable: a non-empty owner key, and a payload of
/// at most `MAX_BACKUP_LEN` characters.
pub open spec fn entry_verdict(e: EntryView) -> Result<(), ModuleError> {
    if e.0.len() == 0 {
        Err(ModuleError::MalformedInput)
    } else if e.1.len() > MAX_BACKUP_LEN {
        Err(ModuleError::PolicyViolation)
    } else {
        Ok(())
    }
}

/// What validating an input gives: no amount and no fee when accepted.
pub open spec fn input_verdict(e: EntryView) -> Result<InputMeta, ModuleError> {
    match entry_verdict(e) {
        Ok(_) => Ok(InputMeta { amount: TransactionItemAmount::spec_zero() }),
        Err(err) => Err(err),
    }
}

/// What validating an output gives: no amount and no fee when accepted.
pub open spec fn output_verdict(e: EntryView) -> Result<TransactionItemAmount, ModuleError> {
    match entry_verdict(e) {
        Ok(_) => Ok(TransactionItemAmount::spec_zero()),
        Err(err) => Err(err),
    }
}

/// What applying an output at `point` gives, given the outcomes recorded.
pub open spec fn output_result(
    outcomes: Map<OutPoint, SmolFSOutputOutcome>,
    e: EntryView,
    point: OutPoint,
) -> Result<TransactionItemAmount, ModuleError> {
    if outcomes.contains_key(point) {
        Err(ModuleError::ProtocolViolation)
    } else {
        output_verdict(e)
    }
}

/// The outcomes after applying an output at `point`.
pub open spec fn outcomes_after_output(
    outcomes: Map<OutPoint, SmolFSOutputOutcome>,
    e: EntryView,
    point: OutPoint,
) -> Map<OutPoint, SmolFSOutputOutcome> {
    if output_result(outcomes, e, point) is Ok {
        outcomes.insert(point, SmolFSOutputOutcome(point.txid))
    } else {
        outcomes
    }
}

/// The output point that a put for owner key `k` records its outcome at:
/// output 0 of the transaction named by the SHA-256 digest of the key's
/// UTF-8 bytes.
pub open spec fn is_owner_point(k: Seq<char>, p: OutPoint) -> bool {
    p.out_idx == 0 && p.txid.0@ == sha256_of(encode_utf8(k))
}

/// The reply to a put.
pub open spec fn put_reply(k: Seq<char>, v: Seq<char>) -> Seq<char> {
    "<put backups> "@ + k + " "@ + v
}

/// Storing a sequence of items is storing, over the start, the map of what
/// each key was given last.
pub proof fn lemma_fold_upserts_union(m: Map<Seq<char>, Seq<char>>, items: Seq<EntryView>)
    ensures
        fold_upserts(m, items) == m.union_prefer_right(batch_index(items)),
    decreases items.len(),
{
    if items.len() == 0 {
        assert(m.union_prefer_right(Map::empty()) =~= m);
    } else {
        lemma_fold_upserts_union(m, items.drop_last());
        assert(fold_upserts(m, items) =~= m.union_prefer_right(batch_index(items)));
    }
}

/// Applying an epoch's agreed items a second time, as a replayed epoch
/// does, leaves the same map as applying them once.
pub proof fn lemma_epoch_replay_idempotent(m: Map<Seq<char>, Seq<char>>, items: Seq<EntryView>)
    ensures
        fold_upserts(fold_upserts(m, items), items) == fold_upserts(m, items),
{
    lemma_fold_upserts_union(m, items);
    lemma_fold_upserts_union(fold_upserts(m, items), items);
    assert(m.union_prefer_right(batch_index(items)).union_prefer_right(batch_index(items))
        =~= m.union_prefer_right(batch_index(items)));
}

/// Once an output has been applied at a point, every later output at that
/// point is refused as a protocol violation and records nothing.
pub proof fn lemma_outcome_written_once(
    outcomes: Map<OutPoint, SmolFSOutputOutcome>,
    first: EntryView,
    second: EntryView,
    point: OutPoint,
)
    requires
        output_result(outcomes, first, point) is Ok,
    ensures
        output_result(outcomes_after_output(outcomes, first, point), second, point) == Err::<
            TransactionItemAmount,
            ModuleError,
        >(ModuleError::ProtocolViolation),
        outcomes_after_output(outcomes_after_output(outcomes, first, point), second, point)
            == outcomes_after_output(outcomes, first, point),
{
}

/// The local state fixes the proposal: two stores with the same entries
/// and the same agreed record propose the same list, item for item.
pub proof fn lemma_proposal_determined(a: &SmolFSDb, b: &SmolFSDb)
    requires
        a.wf(),
        b.wf(),
        a.entries() == b.entries(),
        a.agreed() == b.agreed(),
    ensures
        unresolved(a.entry_seq(), a.agreed()) == unresolved(b.entry_seq(), b.agreed()),
{
    a.lemma_entry_seq();
    b.lemma_entry_seq();
    lemma_ascending_determined(a.entry_seq(), b.entry_seq());
}

/// A batch fixes its cache: two caches built from the same batch answer
/// every lookup alike.
pub proof fn lemma_cache_determined_by_batch(
    a: &SmolFSVerificationCache,
    b: &SmolFSVerificationCache,
    batch: Seq<EntryView>,
)
    requires
        a.map() == batch_index(batch),
        b.map() == batch_index(batch),
    ensures
        forall|k: Seq<char>|
            #![auto]
            a.map().contains_key(k) == b.map().contains_key(k) && (a.map().contains_key(k)
                ==> a.map()[k] == b.map()[k]),
{
}

/// What a put of payload `v` under owner key `k` does, from store `pre` to
/// store `post`, replying `r`: it refuses what an input would be refused
/// for and changes nothing then; else it stores the entry, records an
/// outcome at the key's output point, and replies `put_reply(k, v)`.
pub open spec fn is_put(
    pre: SmolFSDb,
    post: SmolFSDb,
    k: Seq<char>,
    v: Seq<char>,
    r: Result<String, ModuleError>,
) -> bool {
    &&& post.wf()
    &&& post.agreed() == pre.agreed()
    &&& match r {
        Ok(reply) => {
            &&& entry_verdict((k, v)) is Ok
            &&& reply@ == put_reply(k, v)
            &&& post.entries() == pre.entries().insert(k, v)
            &&& exists|p: OutPoint|
                #[trigger] is_owner_point(k, p) && post.outcomes() == pre.outcomes().insert(
                    p,
                    SmolFSOutputOutcome(p.txid),
                )
        },
        Err(e) => {
            &&& entry_verdict((k, v)) == Err::<(), ModuleError>(e)
            &&& post.entries() == pre.entries()
            &&& post.outcomes() == pre.outcomes()
        },
    }
}

/// Checks an entry against `entry_verdict`.
fn check_entry(e: &SmolFSEntry) -> (r: Result<(), ModuleError>)
    ensures
        r == entry_verdict(e@),
{
    if e.pubkey.as_str().is_empty() {
        Err(ModuleError::MalformedInput)
    } else if e.backup.as_str().unicode_len() > MAX_BACKUP_LEN {
        Err(ModuleError::PolicyViolation)
    } else {
        Ok(())
    }
}

/// The output point of a put for `pubkey`.
pub fn owner_out_point(pubkey: &String) -> (r: OutPoint)
    ensures
        is_owner_point(pubkey@, r),
{
    let bytes = pubkey.as_str().as_bytes();
    OutPoint { txid: TransactionId(sha256_digest(bytes)), out_idx: 0 }
}

/// The SmolFS module of one federation member.
#[derive(Debug)]
pub struct SmolFS {
    pub cfg: SmolFSConfig,
}

impl SmolFS {
    /// A module instance with configuration `cfg`.
    pub fn new(cfg: SmolFSConfig) -> (r: SmolFS)
        ensures
            r.cfg == cfg,
    {
        SmolFS { cfg }
    }

    /// The consensus items to propose: one per entry that the agreed record
    /// does not reflect, in ascending order of owner key.
    pub fn consensus_proposal(&self, db: &SmolFSDb) -> (r: Vec<SmolFSOutputConfirmation>)
        requires
            db.wf(),
        ensures
            r@.map_values(|c: SmolFSOutputConfirmation| c@) == unresolved(
                db.entry_seq(),
                db.agreed(),
            ),
            keys_ascending(r@.map_values(|c: SmolFSOutputConfirmation| c@)),
            table_view(r@.map_values(|c: SmolFSOutputConfirmation| c@)) == unresolved_map(
                db.entries(),
                db.agreed(),
            ),
    {
        let entries = db.unresolved_entries();
        let ghost ev = entries@.map_values(|e: SmolFSEntry| e@);
        let n = entries.len();
        let mut out: Vec<SmolFSOutputConfirmation> = Vec::new();
        let mut i: usize = 0;
        while i < n
            invariant
                n == entries@.len(),
                ev == entries@.map_values(|e: SmolFSEntry| e@),
                i <= n,
                out@.map_values(|c: SmolFSOutputConfirmation| c@) == ev.subrange(0, i as int),
            decreases n - i,
        {
            assert(ev[i as int] == entries@[i as int]@);
            let ghost before = out@;
            let item = SmolFSOutputConfirmation(entries[i].duplicate());
            assert(item@ == ev[i as int]);
            out.push(item);
            assert(out@.map_values(|c: SmolFSOutputConfirmation| c@) =~= before.map_values(
                |c: SmolFSOutputConfirmation| c@,
            ).push(item@));
            assert(ev.subrange(0, i + 1) =~= ev.subrange(0, i as int).push(ev[i as int]));
            i = i + 1;
        }
        assert(ev.subrange(0, n as int) =~= ev);
        assert(out@.map_values(|c: SmolFSOutputConfirmation| c@) =~= ev);
        out
    }

    /// Whether there is anything to propose. `Pending` tells the host to
    /// suspend the module until new local state arrives.
    pub fn await_consensus_proposal(&self, db: &SmolFSDb) -> (r: ProposalReadiness)
        requires
            db.wf(),
        ensures
            (r == ProposalReadiness::Pending) == (unresolved(db.entry_seq(), db.agreed()).len()
                == 0),
            (r == ProposalReadiness::Pending) == (unresolved_map(db.entries(), db.agreed())
                == Map::<Seq<char>, Seq<char>>::empty()),
    {
        let items = self.consensus_proposal(db);
        proof {
            db.lemma_entry_seq();
            lemma_unresolved_view(db.entry_seq(), db.agreed());
        }
        if items.len() == 0 {
            ProposalReadiness::Pending
        } else {
            ProposalReadiness::Ready
        }
    }

    /// Applies the agreed consensus items in their order: each one is stored
    /// as an entry and in the agreed record.
    pub fn begin_consensus_epoch(
        &self,
        db: &mut SmolFSDb,
        consensus_items: Vec<(PeerId, SmolFSOutputConfirmation)>,
    )
        requires
            old(db).wf(),
        ensures
            final(db).wf(),
            final(db).entries() == fold_upserts(
                old(db).entries(),
                consensus_items@.map_values(|p: (PeerId, SmolFSOutputConfirmation)| p.1@),
            ),
            final(db).agreed() == fold_upserts(
                old(db).agreed(),
                consensus_items@.map_values(|p: (PeerId, SmolFSOutputConfirmation)| p.1@),
            ),
            final(db).outcomes() == old(db).outcomes(),
    {
        let ghost items = consensus_items@.map_values(
            |p: (PeerId, SmolFSOutputConfirmation)| p.1@,
        );
        let ghost start_entries = db.entries();
        let ghost start_agreed = db.agreed();
        let ghost start_outcomes = db.outcomes();
        let n = consensus_items.len();
        let mut i: usize = 0;
        assert(items.subrange(0, 0) =~= Seq::<EntryView>::empty());
        while i < n
            invariant
                db.wf(),
                n == consensus_items@.len(),
                items == consensus_items@.map_values(
                    |p: (PeerId, SmolFSOutputConfirmation)| p.1@,
                ),
                i <= n,
                db.entries() == fold_upserts(start_entries, items.subrange(0, i as int)),
                db.agreed() == fold_upserts(start_agreed, items.subrange(0, i as int)),
                db.outcomes() == start_outcomes,
            decreases n - i,
        {
            let entry = consensus_items[i].1.0.duplicate();
            db.record_agreed(entry);
            assert(items.subrange(0, i + 1).drop_last() =~= items.subrange(0, i as int));
            i = i + 1;
        }
        assert(items.subrange(0, n as int) =~= items);
    }

    /// Indexes a batch of inputs by owner key, a later input replacing an
    /// earlier one.
    pub fn build_verification_cache(&self, inputs: &[SmolFSInput]) -> (r: SmolFSVerificationCache)
        ensures
            r.wf(),
            r.map() == batch_index(inputs@.map_values(|i: SmolFSInput| i@)),
    {
        let ghost items = inputs@.map_values(|i: SmolFSInput| i@);
        let mut table = EntryTable::new();
        let n = inputs.len();
        let mut i: usize = 0;
        assert(items.subrange(0, 0) =~= Seq::<EntryView>::empty());
        while i < n
            invariant
                table.wf(),
                n == inputs@.len(),
                items == inputs@.map_values(|i: SmolFSInput| i@),
                i <= n,
                table.map() == batch_index(items.subrange(0, i as int)),
            decreases n - i,
        {
            table.upsert(inputs[i].0.duplicate());
            assert(items.subrange(0, i + 1).drop_last() =~= items.subrange(0, i as int));
            i = i + 1;
        }
        assert(items.subrange(0, n as int) =~= items);
        SmolFSVerificationCache { valid_users: table }
    }

    /// Checks an input; changes nothing.
    pub fn validate_input(
        &self,
        db: &SmolFSDb,
        verification_cache: &SmolFSVerificationCache,
        input: &SmolFSInput,
    ) -> (r: Result<InputMeta, ModuleError>)
        ensures
            r == input_verdict(input@),
    {
        match check_entry(&input.0) {
            Ok(()) => Ok(InputMeta { amount: TransactionItemAmount::zero() }),
            Err(e) => Err(e),
        }
    }

    /// Checks an input again and, when it is accepted, stores its entry,
    /// replacing what its owner key held.
    pub fn apply_input(
        &self,
        db: &mut SmolFSDb,
        input: &SmolFSInput,
        cache: &SmolFSVerificationCache,
    ) -> (r: Result<InputMeta, ModuleError>)
        requires
            old(db).wf(),
        ensures
            final(db).wf(),
            r == input_verdict(input@),
            final(db).entries() == (if r is Ok {
                old(db).entries().insert(input@.0, input@.1)
            } else {
                old(db).entries()
            }),
            final(db).agreed() == old(db).agreed(),
            final(db).outcomes() == old(db).outcomes(),
    {
        let meta = self.validate_input(db, cache, input);
        if meta.is_ok() {
            db.upsert_entry(input.0.duplicate());
        }
        meta
    }

    /// Checks an output; changes nothing.
    pub fn validate_output(&self, db: &SmolFSDb, output: &SmolFSOutput) -> (r: Result<
        TransactionItemAmount,
        ModuleError,
    >)
        ensures
            r == output_verdict(output@),
    {
        match check_entry(&output.0) {
            Ok(()) => Ok(TransactionItemAmount::zero()),
            Err(e) => Err(e),
        }
    }

    /// Applies an output at `out_point`: refuses a point that already has an
    /// outcome, then checks the output and, when it is accepted, stores its
    /// entry and records the outcome at `out_point`.
    pub fn apply_output(&self, db: &mut SmolFSDb, output: &SmolFSOutput, out_point: OutPoint) -> (r:
        Result<TransactionItemAmount, ModuleError>)
        requires
            old(db).wf(),
        ensures
            final(db).wf(),
            r == output_result(old(db).outcomes(), output@, out_point),
            final(db).outcomes() == outcomes_after_output(old(db).outcomes(), output@, out_point),
            final(db).entries() == (if r is Ok {
                old(db).entries().insert(output@.0, output@.1)
            } else {
                old(db).entries()
            }),
            final(db).agreed() == old(db).agreed(),
    {
        if db.get_outcome(&out_point).is_some() {
            return Err(ModuleError::ProtocolViolation);
        }
        let amount = self.validate_output(db, output);
        if amount.is_ok() {
            db.upsert_entry(output.0.duplicate());
            db.upsert_outcome(out_point, SmolFSOutputOutcome(out_point.txid));
        }
        amount
    }

    /// The peers to drop after the epoch: none.
    pub fn end_consensus_epoch(&self, consensus_peers: &[PeerId], db: &SmolFSDb) -> (r: Vec<
        PeerId,
    >)
        ensures
            r@.len() == 0,
    {
        Vec::new()
    }

    /// The outcome recorded for `outpoint`, if any.
    pub fn output_status(&self, db: &SmolFSDb, outpoint: OutPoint) -> (r: Option<
        SmolFSOutputOutcome,
    >)
        requires
            db.wf(),
        ensures
            r == (if db.outcomes().contains_key(outpoint) {
                Some(db.outcomes()[outpoint])
            } else {
                None
            }),
    {
        db.get_outcome(&outpoint)
    }

    /// This module creates and destroys no value: it adds nothing to the audit.
    pub fn audit(&self, db: &SmolFSDb, audit: &mut Audit)
        ensures
            *final(audit) == *old(audit),
    {
    }

    /// Stores `backup` under `pubkey`, replacing what the key held, and
    /// records an outcome at the key's output point. Refuses what an input
    /// would be refused for.
    pub fn put_backups(&self, db: &mut SmolFSDb, pubkey: String, backup: String) -> (r: Result<
        String,
        ModuleError,
    >)
        requires
            old(db).wf(),
        ensures
            final(db).wf(),
            is_put(*old(db), *final(db), pubkey@, backup@, r),
    {
        let entry = SmolFSEntry { pubkey, backup };
        match check_entry(&entry) {
            Err(e) => {
                return Err(e);
            },
            Ok(()) => {},
        }
        let point = owner_out_point(&entry.pubkey);
        let mut reply = String::from_str("<put backups> ");
        reply.append(entry.pubkey.as_str());
        reply.append(" ");
        reply.append(entry.backup.as_str());
        let ghost k = entry.pubkey@;
        let ghost v = entry.backup@;
        db.upsert_entry(entry);
        db.upsert_outcome(point, SmolFSOutputOutcome(point.txid));
        assert(is_owner_point(k, point));
        Ok(reply)
    }

    /// Serves a put request `"<owner key> <payload>"`: a request with fewer
    /// than two words is malformed and changes nothing.
    pub fn api_put(&self, db: &mut SmolFSDb, params: &String) -> (r: Result<String, ModuleError>)
        requires
            old(db).wf(),
        ensures
            match first_two_words(params@) {
                Some(words) => is_put(*old(db), *final(db), words.0, words.1, r),
                None => r == Err::<String, ModuleError>(ModuleError::MalformedInput) && *final(db)
                    == *old(db),
            },
    {
        match parse_put_params(params) {
            Some((pubkey, backup)) => self.put_backups(db, pubkey, backup),
            None => Err(ModuleError::MalformedInput),
        }
    }

    /// The payload stored under `pubkey`, or the empty string.
    pub fn get_backups(&self, db: &SmolFSDb, pubkey: String) -> (r: String)
        requires
            db.wf(),
        ensures
            r@ == (if db.entries().contains_key(pubkey@) {
                db.entries()[pubkey@]
            } else {
                Seq::<char>::empty()
            }),
    {
        match db.get_entry(&pubkey) {
            Some(v) => v,
            None => String::new(),
        }
    }
}

} // verus!
