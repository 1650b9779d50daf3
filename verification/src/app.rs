//! What is stored at start: the domains, mailboxes and records of the
//! configuration.
use vstd::prelude::*;
use crate::config::{Config, MailboxEntry};
use crate::db;
use crate::db::{Mailbox, MailboxRow, RecordDTO};
use crate::email;
use crate::text;
use crate::text::to_lowercase;
use crate::time::Timestamp;

verus! {

/// The mailbox that an entry of the configuration provisions: its address and
/// its domain in small letters, so that incoming mail finds it whatever the
/// case. An address without a domain part provisions none.
pub open spec fn seeded_mailbox(
    address: Seq<char>,
    forward_to: Option<Seq<char>>,
) -> Option<db::MailboxRowView> {
    match db::address_domain(address) {
        Some(domain) => Some(
            db::MailboxRowView {
                id: text::lowercase(address),
                domain_id: text::lowercase(domain),
                forward_to,
            },
        ),
        None => None,
    }
}

/// The mailboxes that the entries provision, in order.
pub open spec fn seeded_mailboxes(entries: Seq<MailboxEntry>) -> Seq<db::MailboxRowView>
    decreases entries.len(),
{
    if entries.len() == 0 {
        Seq::empty()
    } else {
        let front = seeded_mailboxes(entries.drop_last());
        match seeded_mailbox(entries.last().address_view(), entries.last().forward_view()) {
            Some(row) => front.push(row),
            None => front,
        }
    }
}

/// How far seeding has come; each number is the index of what is dealt with.
#[derive(Debug)]
pub enum SeedStage {
    FindingDomain(usize),
    StoringDomain(usize),
    FindingMailbox(usize),
    StoringMailbox(usize),
    StoringRecord(usize),
    /// Done, or the error that ended it.
    Finished(Result<(), String>),
}

/// What a [`SeedStage`] says.
pub enum SeedStageView {
    FindingDomain(int),
    StoringDomain(int),
    FindingMailbox(int),
    StoringMailbox(int),
    StoringRecord(int),
    Finished(Option<Seq<char>>),
}

impl View for SeedStage {
    type V = SeedStageView;

    open spec fn view(&self) -> SeedStageView {
        match self {
            SeedStage::FindingDomain(n) => SeedStageView::FindingDomain(*n as int),
            SeedStage::StoringDomain(n) => SeedStageView::StoringDomain(*n as int),
            SeedStage::FindingMailbox(n) => SeedStageView::FindingMailbox(*n as int),
            SeedStage::StoringMailbox(n) => SeedStageView::StoringMailbox(*n as int),
            SeedStage::StoringRecord(n) => SeedStageView::StoringRecord(*n as int),
            SeedStage::Finished(Ok(_)) => SeedStageView::Finished(None),
            SeedStage::Finished(Err(e)) => SeedStageView::Finished(Some(e@)),
        }
    }
}

/// The seeding of a store.
#[derive(Debug)]
pub struct Seeding {
    pub domains: Vec<String>,
    pub mailboxes: Vec<MailboxRow>,
    pub records: Vec<RecordDTO>,
    pub stage: SeedStage,
}

/// What a [`Seeding`] holds.
#[verifier::ext_equal]
pub struct SeedingView {
    pub domains: Seq<Seq<char>>,
    pub mailboxes: Seq<db::MailboxRowView>,
    pub records: Seq<RecordDTO>,
    pub stage: SeedStageView,
}

/// What each row holds.
pub open spec fn mailbox_row_views(rows: Seq<MailboxRow>) -> Seq<db::MailboxRowView> {
    Seq::new(rows.len(), |i: int| rows[i]@)
}

impl View for Seeding {
    type V = SeedingView;

    open spec fn view(&self) -> SeedingView {
        SeedingView {
            domains: text::views(self.domains@),
            mailboxes: mailbox_row_views(self.mailboxes@),
            records: self.records@,
            stage: self.stage@,
        }
    }
}

/// What has to be done next for seeding.
pub enum SeedAction {
    /// Look up that domain.
    FindDomain(String),
    /// Store that domain.
    StoreDomain(String),
    /// Look up the mailbox of that address.
    FindMailbox(String),
    /// Store that mailbox.
    StoreMailbox(MailboxRow),
    /// Store that record.
    StoreRecord(RecordDTO),
    /// Nothing; seeding is done, or ended by an error.
    Finish(Result<(), String>),
}

/// What a [`SeedAction`] asks for.
pub enum SeedActionView {
    FindDomain(Seq<char>),
    StoreDomain(Seq<char>),
    FindMailbox(Seq<char>),
    StoreMailbox(db::MailboxRowView),
    StoreRecord(RecordDTO),
    Finish(Option<Seq<char>>),
}

impl View for SeedAction {
    type V = SeedActionView;

    open spec fn view(&self) -> SeedActionView {
        match self {
            SeedAction::FindDomain(id) => SeedActionView::FindDomain(id@),
            SeedAction::StoreDomain(id) => SeedActionView::StoreDomain(id@),
            SeedAction::FindMailbox(id) => SeedActionView::FindMailbox(id@),
            SeedAction::StoreMailbox(row) => SeedActionView::StoreMailbox(row@),
            SeedAction::StoreRecord(dto) => SeedActionView::StoreRecord(*dto),
            SeedAction::Finish(Ok(_)) => SeedActionView::Finish(None),
            SeedAction::Finish(Err(e)) => SeedActionView::Finish(Some(e@)),
        }
    }
}

/// What came of an action.
pub enum SeedEvent {
    /// Whether what was looked up is there.
    Found(bool),
    /// Whether it was stored, or the error.
    Stored(Result<(), String>),
}

/// What a [`SeedEvent`] says.
pub enum SeedEventView {
    Found(bool),
    Stored(Option<Seq<char>>),
}

impl View for SeedEvent {
    type V = SeedEventView;

    open spec fn view(&self) -> SeedEventView {
        match self {
            SeedEvent::Found(there) => SeedEventView::Found(*there),
            SeedEvent::Stored(Ok(_)) => SeedEventView::Stored(None),
            SeedEvent::Stored(Err(e)) => SeedEventView::Stored(Some(e@)),
        }
    }
}

impl SeedingView {
    /// The stage is at something that there is.
    pub open spec fn wf(self) -> bool {
        match self.stage {
            SeedStageView::FindingDomain(n) => 0 <= n < self.domains.len(),
            SeedStageView::StoringDomain(n) => 0 <= n < self.domains.len(),
            SeedStageView::FindingMailbox(n) => 0 <= n < self.mailboxes.len(),
            SeedStageView::StoringMailbox(n) => 0 <= n < self.mailboxes.len(),
            SeedStageView::StoringRecord(n) => 0 <= n < self.records.len(),
            SeedStageView::Finished(_) => true,
        }
    }

    /// The same seeding at another stage.
    pub open spec fn at(self, stage: SeedStageView) -> SeedingView {
        SeedingView { stage, ..self }
    }

    /// At record `n`, or done where there are no more records.
    pub open spec fn at_record(self, n: int) -> SeedingView {
        if n < self.records.len() {
            self.at(SeedStageView::StoringRecord(n))
        } else {
            self.at(SeedStageView::Finished(None))
        }
    }

    /// At mailbox `n`, or at the records where there are no more mailboxes.
    pub open spec fn at_mailbox(self, n: int) -> SeedingView {
        if n < self.mailboxes.len() {
            self.at(SeedStageView::FindingMailbox(n))
        } else {
            self.at_record(0)
        }
    }

    /// At domain `n`, or at the mailboxes where there are no more domains.
    pub open spec fn at_domain(self, n: int) -> SeedingView {
        if n < self.domains.len() {
            self.at(SeedStageView::FindingDomain(n))
        } else {
            self.at_mailbox(0)
        }
    }

    /// What has to be done at this stage.
    pub open spec fn action(self) -> SeedActionView {
        match self.stage {
            SeedStageView::FindingDomain(n) => SeedActionView::FindDomain(self.domains[n]),
            SeedStageView::StoringDomain(n) => SeedActionView::StoreDomain(self.domains[n]),
            SeedStageView::FindingMailbox(n) => SeedActionView::FindMailbox(self.mailboxes[n].id),
            SeedStageView::StoringMailbox(n) => SeedActionView::StoreMailbox(self.mailboxes[n]),
            SeedStageView::StoringRecord(n) => SeedActionView::StoreRecord(self.records[n]),
            SeedStageView::Finished(e) => SeedActionView::Finish(e),
        }
    }

    /// The seeding after `event`: domains and mailboxes that are there are left
    /// alone, and the first failure to store anything ends it. An event that
    /// does not belong to the stage changes nothing.
    pub open spec fn after(self, event: SeedEventView) -> SeedingView {
        match (self.stage, event) {
            (SeedStageView::FindingDomain(n), SeedEventView::Found(true)) => self.at_domain(n + 1),
            (SeedStageView::FindingDomain(n), SeedEventView::Found(false)) => self.at(
                SeedStageView::StoringDomain(n),
            ),
            (SeedStageView::StoringDomain(n), SeedEventView::Stored(None)) => self.at_domain(n + 1),
            (SeedStageView::FindingMailbox(n), SeedEventView::Found(true)) => self.at_mailbox(n + 1),
            (SeedStageView::FindingMailbox(n), SeedEventView::Found(false)) => self.at(
                SeedStageView::StoringMailbox(n),
            ),
            (SeedStageView::StoringMailbox(n), SeedEventView::Stored(None)) => self.at_mailbox(
                n + 1,
            ),
            (SeedStageView::StoringRecord(n), SeedEventView::Stored(None)) => self.at_record(n + 1),
            (SeedStageView::StoringDomain(_), SeedEventView::Stored(Some(e))) => self.at(
                SeedStageView::Finished(Some(e)),
            ),
            (SeedStageView::StoringMailbox(_), SeedEventView::Stored(Some(e))) => self.at(
                SeedStageView::Finished(Some(e)),
            ),
            (SeedStageView::StoringRecord(_), SeedEventView::Stored(Some(e))) => self.at(
                SeedStageView::Finished(Some(e)),
            ),
            _ => self,
        }
    }
}

/// Where the seeding from a configuration begins.
pub open spec fn seeding_start(
    domains: Seq<Seq<char>>,
    mailboxes: Seq<MailboxEntry>,
    records: Seq<RecordDTO>,
) -> SeedingView {
    SeedingView {
        domains,
        mailboxes: seeded_mailboxes(mailboxes),
        records,
        stage: SeedStageView::Finished(None),
    }.at_domain(0)
}

/// The mailbox that an entry provisions, if it provisions one.
pub fn seed_mailbox(entry: &MailboxEntry) -> (out: Option<MailboxRow>)
    ensures
        (match out {
            Some(row) => seeded_mailbox(entry.address_view(), entry.forward_view()) == Some(row@),
            None => seeded_mailbox(entry.address_view(), entry.forward_view()) is None,
        }),
{
    let epoch = Timestamp { nanos: 0 };
    match Mailbox::new(entry.address().to_owned(), epoch) {
        Ok(mailbox) => {
            let forward_to = match entry.forward_to() {
                Some(to) => Some(to.to_owned()),
                None => None,
            };
            Some(
                MailboxRow {
                    id: to_lowercase(mailbox.id.as_str()),
                    domain_id: to_lowercase(mailbox.domain_id.as_str()),
                    forward_to,
                },
            )
        },
        Err(_) => None,
    }
}

/// Begin to seed the store from `config`.
pub fn seed_from_config(config: &Config) -> (out: Seeding)
    ensures
        out@ == seeding_start(text::views(config.domains@), config.mailboxes@, config.records@),
        out@.wf(),
{
    let mut domains: Vec<String> = Vec::new();
    let mut i: usize = 0;
    while i < config.domains.len()
        invariant
            i <= config.domains.len(),
            domains@.len() == i,
            forall|k: int| 0 <= k < i ==> (#[trigger] domains@[k])@ == config.domains@[k]@,
        decreases config.domains.len() - i,
    {
        domains.push(config.domains[i].clone());
        i += 1;
    }
    assert(text::views(domains@) == text::views(config.domains@));
    let mut mailboxes: Vec<MailboxRow> = Vec::new();
    let mut j: usize = 0;
    assert(mailbox_row_views(mailboxes@) == seeded_mailboxes(config.mailboxes@.take(0)));
    while j < config.mailboxes.len()
        invariant
            j <= config.mailboxes.len(),
            mailbox_row_views(mailboxes@) == seeded_mailboxes(config.mailboxes@.take(j as int)),
        decreases config.mailboxes.len() - j,
    {
        assert(config.mailboxes@.take(j + 1).drop_last() == config.mailboxes@.take(j as int));
        if let Some(row) = seed_mailbox(&config.mailboxes[j]) {
            let ghost was = mailboxes@;
            let ghost shown = row@;
            mailboxes.push(row);
            assert(mailbox_row_views(mailboxes@) == mailbox_row_views(was).push(shown));
        }
        j += 1;
    }
    assert(config.mailboxes@.take(config.mailboxes@.len() as int) == config.mailboxes@);
    let mut records: Vec<RecordDTO> = Vec::new();
    let mut k: usize = 0;
    while k < config.records.len()
        invariant
            k <= config.records.len(),
            records@ == config.records@.take(k as int),
        decreases config.records.len() - k,
    {
        records.push(config.records[k].copy());
        k += 1;
    }
    assert(config.records@.take(config.records@.len() as int) == config.records@);
    let mut out = Seeding { domains, mailboxes, records, stage: SeedStage::Finished(Ok(())) };
    let stage = out.stage_at_domain(0);
    out.stage = stage;
    out
}

impl Seeding {
    fn stage_at_record(&self, n: usize) -> (out: SeedStage)
        ensures
            self@.at(out@) == self@.at_record(n as int),
            self@.at(out@).wf(),
    {
        if n < self.records.len() {
            SeedStage::StoringRecord(n)
        } else {
            SeedStage::Finished(Ok(()))
        }
    }

    fn stage_at_mailbox(&self, n: usize) -> (out: SeedStage)
        ensures
            self@.at(out@) == self@.at_mailbox(n as int),
            self@.at(out@).wf(),
    {
        if n < self.mailboxes.len() {
            SeedStage::FindingMailbox(n)
        } else {
            self.stage_at_record(0)
        }
    }

    fn stage_at_domain(&self, n: usize) -> (out: SeedStage)
        ensures
            self@.at(out@) == self@.at_domain(n as int),
            self@.at(out@).wf(),
    {
        if n < self.domains.len() {
            SeedStage::FindingDomain(n)
        } else {
            self.stage_at_mailbox(0)
        }
    }

    /// What has to be done next.
    pub fn action(&self) -> (out: SeedAction)
        requires
            self@.wf(),
        ensures
            out@ == self@.action(),
    {
        match &self.stage {
            SeedStage::FindingDomain(n) => SeedAction::FindDomain(self.domains[*n].clone()),
            SeedStage::StoringDomain(n) => SeedAction::StoreDomain(self.domains[*n].clone()),
            SeedStage::FindingMailbox(n) => SeedAction::FindMailbox(self.mailboxes[*n].id.clone()),
            SeedStage::StoringMailbox(n) => SeedAction::StoreMailbox(self.mailboxes[*n].copy()),
            SeedStage::StoringRecord(n) => SeedAction::StoreRecord(self.records[*n].copy()),
            SeedStage::Finished(Ok(_)) => SeedAction::Finish(Ok(())),
            SeedStage::Finished(Err(e)) => SeedAction::Finish(Err(e.clone())),
        }
    }

    /// Go on after what came of the action.
    pub fn advance(&mut self, event: SeedEvent)
        requires
            old(self)@.wf(),
        ensures
            final(self)@ == old(self)@.after(event@),
            final(self)@.wf(),
    {
        proof {
            assert(self.domains@.len() == self.domains.len());
            assert(self.mailboxes@.len() == self.mailboxes.len());
            assert(self.records@.len() == self.records.len());
        }
        let next = match (&self.stage, event) {
            (SeedStage::FindingDomain(n), SeedEvent::Found(true)) => self.stage_at_domain(*n + 1),
            (SeedStage::FindingDomain(n), SeedEvent::Found(false)) => SeedStage::StoringDomain(*n),
            (SeedStage::StoringDomain(n), SeedEvent::Stored(Ok(_))) => self.stage_at_domain(*n + 1),
            (SeedStage::FindingMailbox(n), SeedEvent::Found(true)) => self.stage_at_mailbox(
                *n + 1,
            ),
            (SeedStage::FindingMailbox(n), SeedEvent::Found(false)) => SeedStage::StoringMailbox(
                *n,
            ),
            (SeedStage::StoringMailbox(n), SeedEvent::Stored(Ok(_))) => self.stage_at_mailbox(
                *n + 1,
            ),
            (SeedStage::StoringRecord(n), SeedEvent::Stored(Ok(_))) => self.stage_at_record(
                *n + 1,
            ),
            (SeedStage::StoringDomain(_), SeedEvent::Stored(Err(e))) => SeedStage::Finished(Err(e)),
            (SeedStage::StoringMailbox(_), SeedEvent::Stored(Err(e))) => SeedStage::Finished(
                Err(e),
            ),
            (SeedStage::StoringRecord(_), SeedEvent::Stored(Err(e))) => SeedStage::Finished(Err(e)),
            _ => return,
        };
        self.stage = next;
    }
}

// ---------------------------------------------------------------------------
// Laws
// ---------------------------------------------------------------------------

/// What the store answers in the course of seeding: for each domain and each
/// mailbox whether it is there. Storing succeeds.
pub struct SeedAnswers {
    pub domain_known: spec_fn(int) -> bool,
    pub mailbox_known: spec_fn(int) -> bool,
}

impl SeedAnswers {
    /// What the store answers at a stage.
    pub open spec fn event(self, stage: SeedStageView) -> SeedEventView {
        match stage {
            SeedStageView::FindingDomain(n) => SeedEventView::Found((self.domain_known)(n)),
            SeedStageView::FindingMailbox(n) => SeedEventView::Found((self.mailbox_known)(n)),
            _ => SeedEventView::Stored(None),
        }
    }
}

impl SeedingView {
    /// An upper bound on the actions that are left.
    pub open spec fn rank(self) -> nat {
        let records = self.records.len();
        let mailboxes = 2 * self.mailboxes.len();
        match self.stage {
            SeedStageView::FindingDomain(n) => (2 * (self.domains.len() - n) + mailboxes + records
                + 1) as nat,
            SeedStageView::StoringDomain(n) => (2 * (self.domains.len() - n) + mailboxes
                + records) as nat,
            SeedStageView::FindingMailbox(n) => (2 * (self.mailboxes.len() - n) + records
                + 1) as nat,
            SeedStageView::StoringMailbox(n) => (2 * (self.mailboxes.len() - n) + records) as nat,
            SeedStageView::StoringRecord(n) => (records - n) as nat,
            SeedStageView::Finished(_) => 0,
        }
    }

    /// All actions from here to the end, the end included.
    pub open spec fn actions(self, answers: SeedAnswers) -> Seq<SeedActionView>
        decreases self.rank(),
    {
        if !self.wf() {
            Seq::empty()
        } else if self.stage is Finished {
            seq![self.action()]
        } else {
            seq![self.action()] + self.after(answers.event(self.stage)).actions(answers)
        }
    }
}

/// The actions for the records from `n` on: each is stored.
pub open spec fn record_actions(records: Seq<RecordDTO>, n: int) -> Seq<SeedActionView> {
    Seq::new((records.len() - n) as nat, |i: int| SeedActionView::StoreRecord(records[n + i]))
}

/// The actions for the mailboxes from `n` on: each is looked up, and stored
/// where it is not there.
pub open spec fn mailbox_actions(
    mailboxes: Seq<db::MailboxRowView>,
    known: spec_fn(int) -> bool,
    n: int,
) -> Seq<SeedActionView>
    decreases mailboxes.len() - n,
{
    if n >= mailboxes.len() {
        Seq::empty()
    } else {
        seq![SeedActionView::FindMailbox(mailboxes[n].id)] + (if known(n) {
            Seq::empty()
        } else {
            seq![SeedActionView::StoreMailbox(mailboxes[n])]
        }) + mailbox_actions(mailboxes, known, n + 1)
    }
}

/// The actions for the domains from `n` on: each is looked up, and stored where
/// it is not there.
pub open spec fn domain_actions(
    domains: Seq<Seq<char>>,
    known: spec_fn(int) -> bool,
    n: int,
) -> Seq<SeedActionView>
    decreases domains.len() - n,
{
    if n >= domains.len() {
        Seq::empty()
    } else {
        seq![SeedActionView::FindDomain(domains[n])] + (if known(n) {
            Seq::empty()
        } else {
            seq![SeedActionView::StoreDomain(domains[n])]
        }) + domain_actions(domains, known, n + 1)
    }
}

proof fn lemma_seed_records(seeding: SeedingView, answers: SeedAnswers, n: int)
    requires
        0 <= n <= seeding.records.len(),
    ensures
        seeding.at_record(n).actions(answers) == record_actions(seeding.records, n) + seq![
            SeedActionView::Finish(None),
        ],
    decreases seeding.records.len() - n,
{
    reveal_with_fuel(SeedingView::actions, 2);
    let here = seeding.at_record(n);
    let rest = record_actions(seeding.records, n + 1);
    if n < seeding.records.len() {
        lemma_seed_records(seeding, answers, n + 1);
        assert(here.after(answers.event(here.stage)) == seeding.at_record(n + 1));
        assert(record_actions(seeding.records, n) == seq![here.action()] + rest);
        assert(here.actions(answers) == seq![here.action()] + (rest + seq![
            SeedActionView::Finish(None),
        ]));
    } else {
        assert(record_actions(seeding.records, n) == Seq::<SeedActionView>::empty());
        assert(here.actions(answers) == seq![SeedActionView::Finish(None)]);
    }
}

proof fn lemma_seed_mailboxes(seeding: SeedingView, answers: SeedAnswers, n: int)
    requires
        0 <= n <= seeding.mailboxes.len(),
    ensures
        seeding.at_mailbox(n).actions(answers) == mailbox_actions(
            seeding.mailboxes,
            answers.mailbox_known,
            n,
        ) + seeding.at_record(0).actions(answers),
    decreases seeding.mailboxes.len() - n,
{
    reveal_with_fuel(SeedingView::actions, 3);
    let here = seeding.at_mailbox(n);
    let end = seeding.at_record(0).actions(answers);
    if n < seeding.mailboxes.len() {
        lemma_seed_mailboxes(seeding, answers, n + 1);
        let rest = mailbox_actions(seeding.mailboxes, answers.mailbox_known, n + 1);
        let next = seeding.at_mailbox(n + 1);
        assert(next.actions(answers) == rest + end);
        if (answers.mailbox_known)(n) {
            assert(here.after(answers.event(here.stage)) == next);
            assert(here.actions(answers) == seq![here.action()] + (rest + end));
            assert(here.actions(answers) == seq![here.action()] + Seq::<SeedActionView>::empty()
                + rest + end);
        } else {
            let mid = seeding.at(SeedStageView::StoringMailbox(n));
            assert(here.after(answers.event(here.stage)) == mid);
            assert(mid.after(answers.event(mid.stage)) == next);
            assert(mid.actions(answers) == seq![mid.action()] + (rest + end));
            assert(here.actions(answers) == seq![here.action()] + (seq![mid.action()] + (rest
                + end)));
            assert(here.actions(answers) == seq![here.action()] + seq![mid.action()] + rest + end);
        }
    } else {
        assert(mailbox_actions(seeding.mailboxes, answers.mailbox_known, n) == Seq::<
            SeedActionView,
        >::empty());
        assert(here.actions(answers) == Seq::<SeedActionView>::empty() + end);
    }
}

proof fn lemma_seed_domains(seeding: SeedingView, answers: SeedAnswers, n: int)
    requires
        0 <= n <= seeding.domains.len(),
    ensures
        seeding.at_domain(n).actions(answers) == domain_actions(
            seeding.domains,
            answers.domain_known,
            n,
        ) + seeding.at_mailbox(0).actions(answers),
    decreases seeding.domains.len() - n,
{
    reveal_with_fuel(SeedingView::actions, 3);
    let here = seeding.at_domain(n);
    let end = seeding.at_mailbox(0).actions(answers);
    if n < seeding.domains.len() {
        lemma_seed_domains(seeding, answers, n + 1);
        let rest = domain_actions(seeding.domains, answers.domain_known, n + 1);
        let next = seeding.at_domain(n + 1);
        assert(next.actions(answers) == rest + end);
        if (answers.domain_known)(n) {
            assert(here.after(answers.event(here.stage)) == next);
            assert(here.actions(answers) == seq![here.action()] + (rest + end));
            assert(here.actions(answers) == seq![here.action()] + Seq::<SeedActionView>::empty()
                + rest + end);
        } else {
            let mid = seeding.at(SeedStageView::StoringDomain(n));
            assert(here.after(answers.event(here.stage)) == mid);
            assert(mid.after(answers.event(mid.stage)) == next);
            assert(mid.actions(answers) == seq![mid.action()] + (rest + end));
            assert(here.actions(answers) == seq![here.action()] + (seq![mid.action()] + (rest
                + end)));
            assert(here.actions(answers) == seq![here.action()] + seq![mid.action()] + rest + end);
        }
    } else {
        assert(domain_actions(seeding.domains, answers.domain_known, n) == Seq::<
            SeedActionView,
        >::empty());
        assert(here.actions(answers) == Seq::<SeedActionView>::empty() + end);
    }
}

/// As long as storing succeeds, seeding deals with every domain, then with
/// every mailbox, then with every record, in the order of the configuration;
/// domains and mailboxes that are there are not stored again.
pub proof fn law_seeding_covers_the_configuration(
    domains: Seq<Seq<char>>,
    mailboxes: Seq<MailboxEntry>,
    records: Seq<RecordDTO>,
    answers: SeedAnswers,
)
    ensures
        seeding_start(domains, mailboxes, records).actions(answers) == domain_actions(
            domains,
            answers.domain_known,
            0,
        ) + mailbox_actions(seeded_mailboxes(mailboxes), answers.mailbox_known, 0)
            + record_actions(records, 0) + seq![SeedActionView::Finish(None)],
{
    let start = seeding_start(domains, mailboxes, records);
    let base = SeedingView {
        domains,
        mailboxes: seeded_mailboxes(mailboxes),
        records,
        stage: SeedStageView::Finished(None),
    };
    lemma_seed_domains(base, answers, 0);
    lemma_seed_mailboxes(base, answers, 0);
    lemma_seed_records(base, answers, 0);
    let d = domain_actions(domains, answers.domain_known, 0);
    let m = mailbox_actions(seeded_mailboxes(mailboxes), answers.mailbox_known, 0);
    let r = record_actions(records, 0);
    let end = seq![SeedActionView::Finish(None)];
    assert(start.actions(answers) == d + (m + (r + end)));
    assert(d + (m + (r + end)) == d + m + r + end);
}

/// Mail for a configured address is looked up under the mailbox that was seeded
/// for it, however the letters of the two are written.
pub proof fn law_seeded_mailbox_takes_mail(
    address: Seq<char>,
    forward_to: Option<Seq<char>>,
    to: Seq<char>,
)
    requires
        seeded_mailbox(address, forward_to) is Some,
        text::lowercase(text::strip(to, seq!['<', '>', ' '])) == text::lowercase(address),
    ensures
        email::recipient_key(to) == seeded_mailbox(address, forward_to)->0.id,
{
}

/// A failure to store ends the seeding with that error.
pub proof fn law_seeding_stops_at_a_failure(seeding: SeedingView, e: Seq<char>)
    requires
        seeding.stage is StoringDomain || seeding.stage is StoringMailbox
            || seeding.stage is StoringRecord,
    ensures
        seeding.after(SeedEventView::Stored(Some(e))).action() == SeedActionView::Finish(Some(e)),
{
}

/// An entry of the configuration provisions a mailbox under its address in small
/// letters, in the domain that the address names, with the forwarding of the
/// entry; an address without a domain provisions none.
pub proof fn law_entries_provision_their_address(
    local: Seq<char>,
    domain: Seq<char>,
    forward_to: Option<Seq<char>>,
)
    requires
        !local.contains('@'),
        !domain.contains('@'),
    ensures
        domain.len() > 0 ==> (seeded_mailbox(local + seq!['@'] + domain, forward_to) matches Some(
            row,
        ) && row.id == text::lowercase(local + seq!['@'] + domain) && row.domain_id
            == text::lowercase(domain) && row.forward_to == forward_to),
        domain.len() == 0 ==> seeded_mailbox(local + seq!['@'] + domain, forward_to) is None,
        seeded_mailbox(local, forward_to) is None,
{
    db::law_domain_follows_the_first_at(local, domain, Seq::empty());
}

/// One more entry adds its mailbox behind those of the others: a bare address
/// one that does not forward, an address with a forwarding one that does.
pub proof fn law_every_entry_is_provisioned(
    entries: Seq<MailboxEntry>,
    address: String,
    forward_to: Option<String>,
)
    ensures
        seeded_mailboxes(entries.push(MailboxEntry::Simple(address))) == (match seeded_mailbox(
            address@,
            None,
        ) {
            Some(row) => seeded_mailboxes(entries).push(row),
            None => seeded_mailboxes(entries),
        }),
        seeded_mailboxes(entries.push(MailboxEntry::Detailed { id: address, forward_to })) == (
        match seeded_mailbox(address@, text::view_of(forward_to)) {
            Some(row) => seeded_mailboxes(entries).push(row),
            None => seeded_mailboxes(entries),
        }),
        seeded_mailboxes(Seq::empty()).len() == 0,
{
    assert(entries.push(MailboxEntry::Simple(address)).drop_last() == entries);
    assert(entries.push(MailboxEntry::Detailed { id: address, forward_to }).drop_last() == entries);
}

proof fn lemma_domains_are_seeded(
    domains: Seq<Seq<char>>,
    known: spec_fn(int) -> bool,
    n: int,
    i: int,
)
    requires
        0 <= n <= i < domains.len(),
    ensures
        domain_actions(domains, known, n).contains(SeedActionView::FindDomain(domains[i])),
        !known(i) ==> domain_actions(domains, known, n).contains(
            SeedActionView::StoreDomain(domains[i]),
        ),
    decreases i - n,
{
    let actions = domain_actions(domains, known, n);
    let own = if known(n) {
        Seq::empty()
    } else {
        seq![SeedActionView::StoreDomain(domains[n])]
    };
    let rest = domain_actions(domains, known, n + 1);
    assert(actions == seq![SeedActionView::FindDomain(domains[n])] + own + rest);
    if i == n {
        assert(actions[0] == SeedActionView::FindDomain(domains[i]));
        if !known(i) {
            assert(actions[1] == own[0]);
        }
    } else {
        lemma_domains_are_seeded(domains, known, n + 1, i);
        let k = choose|k: int|
            0 <= k < rest.len() && rest[k] == SeedActionView::FindDomain(domains[i]);
        assert(actions[1 + own.len() + k] == rest[k]);
        if !known(i) {
            let j = choose|j: int|
                0 <= j < rest.len() && rest[j] == SeedActionView::StoreDomain(domains[i]);
            assert(actions[1 + own.len() + j] == rest[j]);
        }
    }
}

proof fn lemma_mailboxes_are_seeded(
    mailboxes: Seq<db::MailboxRowView>,
    known: spec_fn(int) -> bool,
    n: int,
    i: int,
)
    requires
        0 <= n <= i < mailboxes.len(),
    ensures
        mailbox_actions(mailboxes, known, n).contains(
            SeedActionView::FindMailbox(mailboxes[i].id),
        ),
        !known(i) ==> mailbox_actions(mailboxes, known, n).contains(
            SeedActionView::StoreMailbox(mailboxes[i]),
        ),
    decreases i - n,
{
    let actions = mailbox_actions(mailboxes, known, n);
    let own = if known(n) {
        Seq::empty()
    } else {
        seq![SeedActionView::StoreMailbox(mailboxes[n])]
    };
    let rest = mailbox_actions(mailboxes, known, n + 1);
    assert(actions == seq![SeedActionView::FindMailbox(mailboxes[n].id)] + own + rest);
    if i == n {
        assert(actions[0] == SeedActionView::FindMailbox(mailboxes[i].id));
        if !known(i) {
            assert(actions[1] == own[0]);
        }
    } else {
        lemma_mailboxes_are_seeded(mailboxes, known, n + 1, i);
        let k = choose|k: int|
            0 <= k < rest.len() && rest[k] == SeedActionView::FindMailbox(mailboxes[i].id);
        assert(actions[1 + own.len() + k] == rest[k]);
        if !known(i) {
            let j = choose|j: int|
                0 <= j < rest.len() && rest[j] == SeedActionView::StoreMailbox(mailboxes[i]);
            assert(actions[1 + own.len() + j] == rest[j]);
        }
    }
}

/// As long as storing succeeds, every domain and every mailbox of the
/// configuration is looked up and is stored where it is not there, every record
/// is stored, and seeding ends without an error.
pub proof fn law_everything_configured_is_stored(
    domains: Seq<Seq<char>>,
    mailboxes: Seq<MailboxEntry>,
    records: Seq<RecordDTO>,
    answers: SeedAnswers,
)
    ensures
        ({
            let actions = seeding_start(domains, mailboxes, records).actions(answers);
            let rows = seeded_mailboxes(mailboxes);
            &&& forall|i: int|
                0 <= i < domains.len() ==> actions.contains(
                    SeedActionView::FindDomain(#[trigger] domains[i]),
                )
            &&& forall|i: int|
                0 <= i < domains.len() && !(answers.domain_known)(i) ==> actions.contains(
                    SeedActionView::StoreDomain(#[trigger] domains[i]),
                )
            &&& forall|i: int|
                0 <= i < rows.len() ==> actions.contains(
                    SeedActionView::FindMailbox((#[trigger] rows[i]).id),
                )
            &&& forall|i: int|
                0 <= i < rows.len() && !(answers.mailbox_known)(i) ==> actions.contains(
                    SeedActionView::StoreMailbox(#[trigger] rows[i]),
                )
            &&& forall|i: int|
                0 <= i < records.len() ==> actions.contains(
                    SeedActionView::StoreRecord(#[trigger] records[i]),
                )
            &&& actions.last() == SeedActionView::Finish(None)
        }),
{
    law_seeding_covers_the_configuration(domains, mailboxes, records, answers);
    let actions = seeding_start(domains, mailboxes, records).actions(answers);
    let rows = seeded_mailboxes(mailboxes);
    let d = domain_actions(domains, answers.domain_known, 0);
    let m = mailbox_actions(rows, answers.mailbox_known, 0);
    let r = record_actions(records, 0);
    assert(actions == d + m + r + seq![SeedActionView::Finish(None)]);
    assert forall|a: SeedActionView| d.contains(a) implies #[trigger] actions.contains(a) by {
        let k = choose|k: int| 0 <= k < d.len() && d[k] == a;
        assert(actions[k] == a);
    }
    assert forall|a: SeedActionView| m.contains(a) implies #[trigger] actions.contains(a) by {
        let k = choose|k: int| 0 <= k < m.len() && m[k] == a;
        assert(actions[d.len() + k] == a);
    }
    assert forall|i: int| 0 <= i < domains.len() implies actions.contains(
        SeedActionView::FindDomain(#[trigger] domains[i]),
    ) && (!(answers.domain_known)(i) ==> actions.contains(
        SeedActionView::StoreDomain(domains[i]),
    )) by {
        lemma_domains_are_seeded(domains, answers.domain_known, 0, i);
    }
    assert forall|i: int| 0 <= i < rows.len() implies actions.contains(
        SeedActionView::FindMailbox((#[trigger] rows[i]).id),
    ) && (!(answers.mailbox_known)(i) ==> actions.contains(
        SeedActionView::StoreMailbox(rows[i]),
    )) by {
        lemma_mailboxes_are_seeded(rows, answers.mailbox_known, 0, i);
    }
    assert forall|i: int| 0 <= i < records.len() implies actions.contains(
        SeedActionView::StoreRecord(#[trigger] records[i]),
    ) by {
        assert(actions[d.len() + m.len() + i] == r[i]);
    }
}

/// Seeding moves on only by the event that belongs to its stage, and stays about
/// the same domains, mailboxes and records.
pub proof fn law_stray_events_change_nothing(seeding: SeedingView, event: SeedEventView)
    ensures
        (seeding.stage is FindingDomain || seeding.stage is FindingMailbox) && event is Stored
            ==> seeding.after(event) == seeding,
        (seeding.stage is StoringDomain || seeding.stage is StoringMailbox
            || seeding.stage is StoringRecord) && event is Found ==> seeding.after(event)
            == seeding,
        seeding.stage is Finished ==> seeding.after(event) == seeding,
        seeding.after(event).domains == seeding.domains,
        seeding.after(event).mailboxes == seeding.mailboxes,
        seeding.after(event).records == seeding.records,
        seeding.wf() ==> seeding.after(event).wf(),
{
}

} // verus!
