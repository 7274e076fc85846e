//! Credits: balances, and the transactions that move them.

use vstd::prelude::*;
use vstd::string::*;
use crate::decimal::{
    alignable, decimal_difference, decimal_sum, decimal_text, exact_difference, exact_sum,
    is_decimal, law_difference_of_alignable_is_exact, law_difference_subtracts_values,
    law_sum_adds_values, law_value_has_sign_of_mantissa, parsed_decimal, sum_is_exact, units, Amount, Dec,
};
use crate::format::TextFormat;
use crate::status::Status;
use crate::text::{
    clone_opt, lemma_ended_line, opt_str, opt_text, same_text, split,
};

verus! {

/// Transaction kind — determines ledger semantics.
#[derive(Debug, Clone, Copy, PartialEq, Eq, Structural)]
pub enum TxKind {
    Deposit,
    Transfer,
    BountyHold,
    BountyRelease,
    BountyRefund,
    Purchase,
}

/// The name of a kind in the ledger.
pub open spec fn kind_name(k: TxKind) -> Seq<char> {
    match k {
        TxKind::Deposit => "deposit"@,
        TxKind::Transfer => "transfer"@,
        TxKind::BountyHold => "bounty_hold"@,
        TxKind::BountyRelease => "bounty_release"@,
        TxKind::BountyRefund => "bounty_refund"@,
        TxKind::Purchase => "purchase"@,
    }
}

impl TxKind {
    pub fn as_str(&self) -> (r: &'static str)
        ensures
            r@ == kind_name(*self),
    {
        match self {
            TxKind::Deposit => "deposit",
            TxKind::Transfer => "transfer",
            TxKind::BountyHold => "bounty_hold",
            TxKind::BountyRelease => "bounty_release",
            TxKind::BountyRefund => "bounty_refund",
            TxKind::Purchase => "purchase",
        }
    }
}

// ---------------------------------------------------------------------------
// Transactions
// ---------------------------------------------------------------------------

/// A transaction: an amount that leaves one agent's balance, where it names one, and enters
/// another's, where it names one.
#[derive(Debug)]
pub struct Transaction {
    pub from_agent_id: Option<String>,
    pub to_agent_id: Option<String>,
    pub amount: Amount,
    pub kind: TxKind,
    pub reference_id: Option<String>,
}

/// What a transaction says.
#[verifier::ext_equal]
pub struct TransactionView {
    pub from_agent_id: Option<Seq<char>>,
    pub to_agent_id: Option<Seq<char>>,
    pub amount: Dec,
    pub kind: TxKind,
    pub reference_id: Option<Seq<char>>,
}

impl View for Transaction {
    type V = TransactionView;

    open spec fn view(&self) -> TransactionView {
        TransactionView {
            from_agent_id: opt_text(self.from_agent_id),
            to_agent_id: opt_text(self.to_agent_id),
            amount: self.amount@,
            kind: self.kind,
            reference_id: opt_text(self.reference_id),
        }
    }
}

/// A row of the ledger.
#[derive(Debug)]
pub struct LedgerEntry {
    pub id: String,
    pub from_agent_id: Option<String>,
    pub to_agent_id: Option<String>,
    pub amount: String,
    pub kind: String,
    pub reference_id: Option<String>,
}

/// What a row of the ledger says.
#[verifier::ext_equal]
pub struct LedgerEntryView {
    pub id: Seq<char>,
    pub from_agent_id: Option<Seq<char>>,
    pub to_agent_id: Option<Seq<char>>,
    pub amount: Seq<char>,
    pub kind: Seq<char>,
    pub reference_id: Option<Seq<char>>,
}

impl View for LedgerEntry {
    type V = LedgerEntryView;

    open spec fn view(&self) -> LedgerEntryView {
        LedgerEntryView {
            id: self.id@,
            from_agent_id: opt_text(self.from_agent_id),
            to_agent_id: opt_text(self.to_agent_id),
            amount: self.amount@,
            kind: self.kind@,
            reference_id: opt_text(self.reference_id),
        }
    }
}

/// What a transaction that goes through changes: the balances that are written, in this order, and
/// the row that is added to the ledger.
#[derive(Debug)]
pub struct Settlement {
    pub writes: Vec<(String, Amount)>,
    pub entry: LedgerEntry,
}

/// What a settlement says.
#[verifier::ext_equal]
pub struct SettlementView {
    pub writes: Seq<(Seq<char>, Dec)>,
    pub entry: LedgerEntryView,
}

pub open spec fn write_views(writes: Seq<(String, Amount)>) -> Seq<(Seq<char>, Dec)> {
    writes.map_values(|w: (String, Amount)| (w.0@, w.1@))
}

impl View for Settlement {
    type V = SettlementView;

    open spec fn view(&self) -> SettlementView {
        SettlementView { writes: write_views(self.writes@), entry: self.entry@ }
    }
}

/// What to do next in a transaction.
#[derive(Debug)]
pub enum TransactStep {
    /// Read the balance of the agent that pays, which is zero where it has none yet.
    ReadSender(String),
    /// Read the balance of the agent that is paid, which is zero where it has none yet. The amount
    /// is what the agent that pays, if there is one, will have left.
    ReadReceiver(String, Option<Amount>),
    /// Make all of these changes, or none of them; the transaction is then complete.
    Apply(Settlement),
    Refuse(Status),
    /// A new balance cannot be held.
    Overflow,
}

/// What a step says.
pub enum Step {
    ReadSender(Seq<char>),
    ReadReceiver(Seq<char>, Option<Dec>),
    Apply(SettlementView),
    Refuse(Status),
    Overflow,
}

/// What an amount is, where there is one.
pub open spec fn opt_amount(a: Option<Amount>) -> Option<Dec> {
    match a {
        Some(x) => Some(x@),
        None => None,
    }
}

impl View for TransactStep {
    type V = Step;

    open spec fn view(&self) -> Step {
        match self {
            TransactStep::ReadSender(id) => Step::ReadSender(id@),
            TransactStep::ReadReceiver(id, left) => Step::ReadReceiver(id@, opt_amount(*left)),
            TransactStep::Apply(s) => Step::Apply(s@),
            TransactStep::Refuse(s) => Step::Refuse(*s),
            TransactStep::Overflow => Step::Overflow,
        }
    }
}

/// The row of the ledger that records a transaction.
pub open spec fn ledger_row(tx: TransactionView, id: Seq<char>) -> LedgerEntryView {
    LedgerEntryView {
        id,
        from_agent_id: tx.from_agent_id,
        to_agent_id: tx.to_agent_id,
        amount: decimal_text(tx.amount),
        kind: kind_name(tx.kind),
        reference_id: tx.reference_id,
    }
}

/// The balance of the sender that is written, where there is a sender.
pub open spec fn sender_write(tx: TransactionView, left: Option<Dec>) -> Seq<(Seq<char>, Dec)> {
    match (tx.from_agent_id, left) {
        (Some(id), Some(b)) => seq![(id, b)],
        _ => seq![],
    }
}

/// The first step: an amount that is not positive is a bad request. The row of the ledger will
/// stand under `entry_id`.
pub open spec fn first_step(tx: TransactionView, entry_id: Seq<char>) -> Step {
    if tx.amount.mantissa <= 0 {
        Step::Refuse(Status::BadRequest)
    } else {
        match tx.from_agent_id {
            Some(id) => Step::ReadSender(id),
            None => step_after_sender(tx, entry_id, None),
        }
    }
}

/// The step once it is known what the sender, if there is one, will have left. An agent that pays
/// itself is paid on top of that.
pub open spec fn step_after_sender(
    tx: TransactionView,
    entry_id: Seq<char>,
    left: Option<Dec>,
) -> Step {
    match tx.to_agent_id {
        None => Step::Apply(
            SettlementView { writes: sender_write(tx, left), entry: ledger_row(tx, entry_id) },
        ),
        Some(to) => match left {
            Some(b) if tx.from_agent_id == Some(to) => step_with_receiver(tx, entry_id, to, left, b),
            _ => Step::ReadReceiver(to, left),
        },
    }
}

/// The step once the balance of the sender is known: it pays if it has enough.
pub open spec fn step_with_sender(tx: TransactionView, entry_id: Seq<char>, balance: Dec) -> Step {
    if units(balance) < units(tx.amount) {
        Step::Refuse(Status::PaymentRequired)
    } else {
        match decimal_difference(balance, tx.amount) {
            Some(left) => step_after_sender(tx, entry_id, Some(left)),
            None => Step::Overflow,
        }
    }
}

/// The step once the balance of the receiver is known.
pub open spec fn step_with_receiver(
    tx: TransactionView,
    entry_id: Seq<char>,
    to: Seq<char>,
    left: Option<Dec>,
    balance: Dec,
) -> Step {
    match decimal_sum(balance, tx.amount) {
        Some(now) => Step::Apply(
            SettlementView {
                writes: sender_write(tx, left).push((to, now)),
                entry: ledger_row(tx, entry_id),
            },
        ),
        None => Step::Overflow,
    }
}

/// Execute a credit transaction atomically: this begins it.
///
/// - Deducts from `from_agent_id`'s balance (if Some).
/// - Adds to `to_agent_id`'s balance (if Some).
/// - Records the transaction in the immutable ledger.
/// - Refuses with 402 if the sender has insufficient balance.
///
/// Both balances are read before anything is written, and all that is written stands in one step.
pub fn transact(tx: &Transaction, entry_id: &str) -> (r: TransactStep)
    ensures
        r@ == first_step(tx@, entry_id@),
{
    if !tx.amount.is_positive() {
        return TransactStep::Refuse(Status::BadRequest);
    }
    match &tx.from_agent_id {
        Some(id) => TransactStep::ReadSender(id.clone()),
        None => transact_sender_done(tx, entry_id, None),
    }
}

fn sender_writes(tx: &Transaction, left: Option<Amount>) -> (r: Vec<(String, Amount)>)
    ensures
        write_views(r@) == sender_write(tx@, opt_amount(left)),
{
    let mut writes: Vec<(String, Amount)> = Vec::new();
    match (&tx.from_agent_id, left) {
        (Some(id), Some(b)) => {
            writes.push((id.clone(), b));
        },
        _ => {},
    }
    proof {
        assert(write_views(writes@) =~= sender_write(tx@, opt_amount(left)));
    }
    writes
}

fn transact_sender_done(tx: &Transaction, entry_id: &str, left: Option<Amount>) -> (r: TransactStep)
    ensures
        r@ == step_after_sender(tx@, entry_id@, opt_amount(left)),
{
    let to = match &tx.to_agent_id {
        None => {
            return TransactStep::Apply(
                Settlement { writes: sender_writes(tx, left), entry: transact_record(tx, entry_id) },
            );
        },
        Some(id) => id,
    };
    match (&tx.from_agent_id, left) {
        (Some(from), Some(b)) => {
            if same_text(from.as_str(), to.as_str()) {
                return transact_receiver(tx, entry_id, to.as_str(), left, &b);
            }
        },
        _ => {},
    }
    TransactStep::ReadReceiver(to.clone(), left)
}

/// Goes on with the balance of the sender.
pub fn transact_sender(tx: &Transaction, entry_id: &str, balance: &Amount) -> (r: TransactStep)
    ensures
        r@ == step_with_sender(tx@, entry_id@, balance@),
{
    if balance.less_than(&tx.amount) {
        return TransactStep::Refuse(Status::PaymentRequired);
    }
    match balance.minus(&tx.amount) {
        Some(left) => transact_sender_done(tx, entry_id, Some(left)),
        None => TransactStep::Overflow,
    }
}

/// Goes on with the balance of the receiver, and what the sender will have left.
pub fn transact_receiver(
    tx: &Transaction,
    entry_id: &str,
    to: &str,
    left: Option<Amount>,
    balance: &Amount,
) -> (r: TransactStep)
    ensures
        r@ == step_with_receiver(tx@, entry_id@, to@, opt_amount(left), balance@),
{
    match balance.plus(&tx.amount) {
        Some(now) => {
            let mut writes = sender_writes(tx, left);
            let ghost before = write_views(writes@);
            writes.push((to.to_owned(), now));
            proof {
                assert(write_views(writes@) =~= before.push((to@, now@)));
            }
            TransactStep::Apply(Settlement { writes, entry: transact_record(tx, entry_id) })
        },
        None => TransactStep::Overflow,
    }
}

/// The row of the ledger that records a transaction.
pub fn transact_record(tx: &Transaction, id: &str) -> (r: LedgerEntry)
    ensures
        r@ == ledger_row(tx@, id@),
{
    LedgerEntry {
        id: id.to_owned(),
        from_agent_id: clone_opt(&tx.from_agent_id),
        to_agent_id: clone_opt(&tx.to_agent_id),
        amount: tx.amount.text(),
        kind: String::from_str(tx.kind.as_str()),
        reference_id: clone_opt(&tx.reference_id),
    }
}

/// The text that a balance starts from.
pub const INITIAL_BALANCE: &'static str = "0";

/// A stored balance. One that is missing or is no number is an error of the server's.
pub fn read_balance(stored: Option<&str>) -> (r: Result<Amount, Status>)
    ensures
        match r {
            Ok(a) => stored matches Some(s) && parsed_decimal(s@) == Some(a@),
            Err(e) => (stored matches Some(s) ==> parsed_decimal(s@) is None) && e
                == Status::InternalServerError,
        },
        forall|d: Dec|
            is_decimal(d) && d.mantissa >= 0 && opt_str(stored) == Some(#[trigger] decimal_text(d))
                ==> (r matches Ok(a) && a@ == d),
{
    match stored {
        Some(s) => match Amount::parse(s) {
            Some(a) => Ok(a),
            None => Err(Status::InternalServerError),
        },
        None => Err(Status::InternalServerError),
    }
}

/// The amount in a request. One that is no number is a bad request.
pub fn request_amount(amount: &str) -> (r: Result<Amount, Status>)
    ensures
        match r {
            Ok(a) => parsed_decimal(amount@) == Some(a@),
            Err(e) => parsed_decimal(amount@) is None && e == Status::BadRequest,
        },
{
    match Amount::parse(amount) {
        Some(a) => Ok(a),
        None => Err(Status::BadRequest),
    }
}

// ---------------------------------------------------------------------------
// What a transaction does to the balances
// ---------------------------------------------------------------------------

/// The balances of all agents.
pub type Balances = Map<Seq<char>, Dec>;

/// An agent's balance; an agent without one has nothing.
pub open spec fn balance_of(b: Balances, id: Seq<char>) -> Dec {
    if b.dom().contains(id) {
        b[id]
    } else {
        Dec { mantissa: 0, scale: 0 }
    }
}

/// How a transaction ends.
pub enum Outcome {
    /// It is recorded, and these are the balances.
    Done(Balances),
    Refused(Status),
    Overflow,
}

/// What becomes of balances where the receiver, if there is one, is paid.
pub open spec fn receiver_paid(b: Balances, tx: TransactionView) -> Outcome {
    match tx.to_agent_id {
        None => Outcome::Done(b),
        Some(to) => match decimal_sum(balance_of(b, to), tx.amount) {
            Some(now) => Outcome::Done(b.insert(to, now)),
            None => Outcome::Overflow,
        },
    }
}

/// How a transaction on given balances ends: the sender, if there is one, pays, and then the
/// receiver, if there is one, is paid.
pub open spec fn run_transaction(b: Balances, tx: TransactionView) -> Outcome {
    if tx.amount.mantissa <= 0 {
        Outcome::Refused(Status::BadRequest)
    } else {
        match tx.from_agent_id {
            None => receiver_paid(b, tx),
            Some(from) => if units(balance_of(b, from)) < units(tx.amount) {
                Outcome::Refused(Status::PaymentRequired)
            } else {
                match decimal_difference(balance_of(b, from), tx.amount) {
                    Some(left) => receiver_paid(b.insert(from, left), tx),
                    None => Outcome::Overflow,
                }
            },
        }
    }
}

/// The balances and the ledger.
#[verifier::ext_equal]
pub struct Books {
    pub balances: Balances,
    pub ledger: Seq<LedgerEntryView>,
}

/// Balances after some were written, one after the other.
pub open spec fn written(b: Balances, writes: Seq<(Seq<char>, Dec)>) -> Balances
    decreases writes.len(),
{
    if writes.len() == 0 {
        b
    } else {
        written(b, writes.drop_last()).insert(writes.last().0, writes.last().1)
    }
}

/// The books after a settlement.
pub open spec fn settled(books: Books, s: SettlementView) -> Books {
    Books { balances: written(books.balances, s.writes), ledger: books.ledger.push(s.entry) }
}

/// How far a transaction has come.
pub enum Progress {
    /// This is to be done next; nothing is, after a refusal or an overflow.
    Next(Step),
    Complete,
}

/// The books, and how far a transaction has come, once as many steps were done as given: the books
/// answer what is read, and take what is written.
pub open spec fn after_steps(
    books: Books,
    tx: TransactionView,
    entry_id: Seq<char>,
    steps: nat,
) -> (Books, Progress)
    decreases steps,
{
    if steps == 0 {
        (books, Progress::Next(first_step(tx, entry_id)))
    } else {
        let before = after_steps(books, tx, entry_id, (steps - 1) as nat);
        match before.1 {
            Progress::Next(Step::ReadSender(id)) => (
                before.0,
                Progress::Next(
                    step_with_sender(tx, entry_id, balance_of(before.0.balances, id)),
                ),
            ),
            Progress::Next(Step::ReadReceiver(id, left)) => (
                before.0,
                Progress::Next(
                    step_with_receiver(
                        tx,
                        entry_id,
                        id,
                        left,
                        balance_of(before.0.balances, id),
                    ),
                ),
            ),
            Progress::Next(Step::Apply(s)) => (settled(before.0, s), Progress::Complete),
            _ => before,
        }
    }
}

proof fn lemma_written(b: Balances, x: (Seq<char>, Dec), y: (Seq<char>, Dec))
    ensures
        written(b, seq![]) == b,
        written(b, seq![x]) == b.insert(x.0, x.1),
        written(b, seq![x, y]) == b.insert(x.0, x.1).insert(y.0, y.1),
        written(b, seq![].push(x)) == b.insert(x.0, x.1),
        written(b, seq![x].push(y)) == b.insert(x.0, x.1).insert(y.0, y.1),
{
    assert(seq![x].drop_last() =~= seq![]);
    assert(seq![x, y].drop_last() =~= seq![x]);
    assert(seq![].push(x) =~= seq![x]);
    assert(seq![x].push(y) =~= seq![x, y]);
    reveal_with_fuel(written, 3);
}

/// Where a step that a transaction has come to leads.
spec fn leads_to(b: Balances, tx: TransactionView, entry_id: Seq<char>, step: Step) -> bool {
    match step {
        Step::Apply(s) => s.entry == ledger_row(tx, entry_id) && run_transaction(b, tx)
            == Outcome::Done(written(b, s.writes)),
        Step::Refuse(e) => run_transaction(b, tx) == Outcome::Refused(e),
        Step::Overflow => run_transaction(b, tx) == Outcome::Overflow,
        Step::ReadSender(id) => tx.from_agent_id == Some(id) && tx.amount.mantissa > 0,
        Step::ReadReceiver(id, left) => {
            &&& tx.amount.mantissa > 0
            &&& tx.to_agent_id == Some(id)
            &&& match tx.from_agent_id {
                Some(f) => {
                    &&& f != id
                    &&& units(balance_of(b, f)) >= units(tx.amount)
                    &&& left is Some
                    &&& left == decimal_difference(balance_of(b, f), tx.amount)
                },
                None => left is None,
            }
        },
    }
}

proof fn lemma_steps_lead_to_outcome(b: Balances, tx: TransactionView, entry_id: Seq<char>)
    ensures
        leads_to(b, tx, entry_id, first_step(tx, entry_id)),
        first_step(tx, entry_id) matches Step::ReadSender(id) ==> {
            let next = step_with_sender(tx, entry_id, balance_of(b, id));
            leads_to(b, tx, entry_id, next) && !(next is ReadSender)
        },
{
    let none: (Seq<char>, Dec) = arbitrary();
    lemma_written(b, none, none);
    match tx.from_agent_id {
        None => {},
        Some(f) => {
            match decimal_difference(balance_of(b, f), tx.amount) {
                None => {},
                Some(left) => {
                    let mid = b.insert(f, left);
                    assert(balance_of(mid, f) == left);
                    lemma_written(b, (f, left), none);
                    match decimal_sum(left, tx.amount) {
                        None => {},
                        Some(now) => {
                            lemma_written(b, (f, left), (f, now));
                        },
                    }
                },
            }
        },
    }
}

proof fn lemma_receiver_leads_to_outcome(
    b: Balances,
    tx: TransactionView,
    entry_id: Seq<char>,
    id: Seq<char>,
    left: Option<Dec>,
)
    requires
        leads_to(b, tx, entry_id, Step::ReadReceiver(id, left)),
    ensures
        ({
            let next = step_with_receiver(tx, entry_id, id, left, balance_of(b, id));
            leads_to(b, tx, entry_id, next) && !(next is ReadSender) && !(next is ReadReceiver)
        }),
{
    match decimal_sum(balance_of(b, id), tx.amount) {
        None => {},
        Some(now) => {
            lemma_written(b, (id, now), (id, now));
            match left {
                Some(l) => {
                    let f = tx.from_agent_id.unwrap();
                    lemma_written(b, (f, l), (id, now));
                },
                None => {},
            }
        },
    }
    match tx.from_agent_id {
        Some(f) => {
            assert(balance_of(b.insert(f, left.unwrap()), id) == balance_of(b, id));
        },
        None => {},
    }
}

/// A transaction is atomic. Wherever it stops, be it refused, be it that a balance cannot be held,
/// be it that a step fails, it has changed nothing: no balance, and not the ledger. Only once it is
/// complete are the books changed, and then it has moved its amount and the ledger holds one more
/// row, which records it.
pub proof fn law_transaction_is_atomic(
    books: Books,
    tx: TransactionView,
    entry_id: Seq<char>,
    steps: nat,
)
    ensures
        ({
            let (now, progress) = after_steps(books, tx, entry_id, steps);
            match progress {
                Progress::Next(_) => now == books,
                Progress::Complete => {
                    &&& run_transaction(books.balances, tx) == Outcome::Done(now.balances)
                    &&& now.ledger == books.ledger.push(ledger_row(tx, entry_id))
                },
            }
        }),
{
    lemma_progress(books, tx, entry_id, steps);
}

proof fn lemma_progress(books: Books, tx: TransactionView, entry_id: Seq<char>, steps: nat)
    ensures
        ({
            let (now, progress) = after_steps(books, tx, entry_id, steps);
            match progress {
                Progress::Next(step) => {
                    &&& now == books
                    &&& leads_to(books.balances, tx, entry_id, step)
                    &&& step is ReadSender ==> steps == 0
                    &&& step is ReadReceiver ==> steps <= 1
                    &&& step is Apply ==> steps <= 2
                    &&& steps == 0 ==> step == first_step(tx, entry_id)
                },
                Progress::Complete => {
                    &&& run_transaction(books.balances, tx) == Outcome::Done(now.balances)
                    &&& now.ledger == books.ledger.push(ledger_row(tx, entry_id))
                },
            }
        }),
    decreases steps,
{
    lemma_steps_lead_to_outcome(books.balances, tx, entry_id);
    if steps > 0 {
        lemma_progress(books, tx, entry_id, (steps - 1) as nat);
        match after_steps(books, tx, entry_id, (steps - 1) as nat).1 {
            Progress::Next(Step::ReadReceiver(id, left)) => {
                lemma_receiver_leads_to_outcome(books.balances, tx, entry_id, id, left);
            },
            _ => {},
        }
    }
}

/// Every transaction comes to an end within three steps, and to the end that its amount and the
/// balances call for.
pub proof fn law_transaction_comes_to_its_end(
    books: Books,
    tx: TransactionView,
    entry_id: Seq<char>,
    steps: nat,
)
    requires
        steps >= 3,
    ensures
        match (
            after_steps(books, tx, entry_id, steps).1,
            run_transaction(books.balances, tx),
        ) {
            (Progress::Complete, Outcome::Done(_)) => true,
            (Progress::Next(Step::Refuse(e)), Outcome::Refused(f)) => e == f,
            (Progress::Next(Step::Overflow), Outcome::Overflow) => true,
            _ => false,
        },
{
    lemma_progress(books, tx, entry_id, steps);
}

/// Balances that can be held and are not negative.
pub open spec fn sound(b: Balances) -> bool {
    forall|id: Seq<char>|
        is_decimal(#[trigger] balance_of(b, id)) && balance_of(b, id).mantissa >= 0
}

/// Whether everything that a transaction computes can be held without rounding.
pub open spec fn computes_exactly(b: Balances, tx: TransactionView) -> bool {
    &&& tx.from_agent_id matches Some(f) ==> alignable(balance_of(b, f), tx.amount)
    &&& tx.to_agent_id matches Some(t) ==> sum_is_exact(
        if tx.from_agent_id == Some(t) {
            exact_difference(balance_of(b, t), tx.amount)
        } else {
            balance_of(b, t)
        },
        tx.amount,
    )
}

/// The value that an agent gains by a transaction that goes through.
pub open spec fn gain(tx: TransactionView, id: Seq<char>) -> int {
    (if tx.to_agent_id == Some(id) {
        units(tx.amount)
    } else {
        0
    }) - (if tx.from_agent_id == Some(id) {
        units(tx.amount)
    } else {
        0
    })
}

/// A positive amount that its sender has goes through, and moves exactly its value: the sender has
/// so much less, the receiver so much more, and no one else's balance changes. An agent that pays
/// itself has what it had. No balance ever becomes negative.
pub proof fn law_transaction_moves_its_amount(b: Balances, tx: TransactionView)
    requires
        sound(b),
        is_decimal(tx.amount),
        tx.amount.mantissa > 0,
        tx.from_agent_id matches Some(f) ==> units(balance_of(b, f)) >= units(tx.amount),
        computes_exactly(b, tx),
    ensures
        run_transaction(b, tx) is Done,
        sound(run_transaction(b, tx)->Done_0),
        forall|id: Seq<char>|
            units(#[trigger] balance_of(run_transaction(b, tx)->Done_0, id)) == units(
                balance_of(b, id),
            ) + gain(tx, id),
{
    let after = run_transaction(b, tx)->Done_0;
    let mid = match tx.from_agent_id {
        Some(f) => b.insert(f, exact_difference(balance_of(b, f), tx.amount)),
        None => b,
    };
    law_value_has_sign_of_mantissa(tx.amount);
    match tx.from_agent_id {
        Some(f) => {
            let x = balance_of(b, f);
            assert(is_decimal(x) && x.mantissa >= 0);
            law_difference_of_alignable_is_exact(x, tx.amount);
            law_difference_subtracts_values(x, tx.amount);
            let d = exact_difference(x, tx.amount);
            assert(is_decimal(d));
            law_value_has_sign_of_mantissa(d);
            assert(units(d) >= 0);
            assert(d.mantissa >= 0);
        },
        None => {},
    }
    assert(sound(mid)) by {
        assert forall|id: Seq<char>| is_decimal(#[trigger] balance_of(mid, id)) && balance_of(
            mid,
            id,
        ).mantissa >= 0 by {
            if tx.from_agent_id != Some(id) {
                assert(balance_of(mid, id) == balance_of(b, id));
            }
        }
    }
    match tx.to_agent_id {
        Some(t) => {
            let y = balance_of(mid, t);
            assert(is_decimal(y) && y.mantissa >= 0);
            if tx.from_agent_id != Some(t) {
                assert(y == balance_of(b, t));
            }
            law_sum_adds_values(y, tx.amount);
            law_value_has_sign_of_mantissa(y);
            let s = exact_sum(y, tx.amount);
            assert(is_decimal(s));
            law_value_has_sign_of_mantissa(s);
            assert(units(s) > 0);
            assert(after == mid.insert(t, s));
        },
        None => {
            assert(after == mid);
        },
    }
    assert forall|id: Seq<char>| is_decimal(#[trigger] balance_of(after, id)) && balance_of(
        after,
        id,
    ).mantissa >= 0 by {
        if tx.to_agent_id != Some(id) {
            assert(balance_of(after, id) == balance_of(mid, id));
        }
    }
    assert forall|id: Seq<char>|
        units(#[trigger] balance_of(after, id)) == units(balance_of(b, id)) + gain(tx, id) by {
        if tx.to_agent_id != Some(id) {
            assert(balance_of(after, id) == balance_of(mid, id));
        }
        if tx.from_agent_id != Some(id) {
            assert(balance_of(mid, id) == balance_of(b, id));
        }
    }
}

/// A transaction is refused exactly where its amount is not positive, or its sender has less than
/// it.
pub proof fn law_transaction_is_refused(b: Balances, tx: TransactionView)
    ensures
        tx.amount.mantissa <= 0 ==> run_transaction(b, tx) == Outcome::Refused(Status::BadRequest),
        tx.amount.mantissa > 0 ==> ((tx.from_agent_id matches Some(f) && units(balance_of(b, f))
            < units(tx.amount)) <==> run_transaction(b, tx) == Outcome::Refused(
            Status::PaymentRequired,
        )),
        run_transaction(b, tx) is Refused <==> tx.amount.mantissa <= 0 || (tx.from_agent_id matches Some(
            f,
        ) && units(balance_of(b, f)) < units(tx.amount)),
{
}

/// The value of the balances of the given agents together.
pub open spec fn total(b: Balances, ids: Seq<Seq<char>>) -> int
    decreases ids.len(),
{
    if ids.len() == 0 {
        0
    } else {
        total(b, ids.drop_last()) + units(balance_of(b, ids.last()))
    }
}

/// What a transaction adds to the balances of the given agents together.
proof fn lemma_total_changes(b: Balances, c: Balances, tx: TransactionView, ids: Seq<Seq<char>>)
    requires
        ids.no_duplicates(),
        forall|id: Seq<char>|
            units(#[trigger] balance_of(c, id)) == units(balance_of(b, id)) + gain(tx, id),
    ensures
        total(c, ids) == total(b, ids) + (if tx.to_agent_id matches Some(t) && ids.contains(t) {
            units(tx.amount)
        } else {
            0
        }) - (if tx.from_agent_id matches Some(f) && ids.contains(f) {
            units(tx.amount)
        } else {
            0
        }),
    decreases ids.len(),
{
    if ids.len() > 0 {
        let front = ids.drop_last();
        let last = ids.last();
        assert(front.no_duplicates());
        lemma_total_changes(b, c, tx, front);
        assert(units(balance_of(c, last)) == units(balance_of(b, last)) + gain(tx, last));
        assert(!front.contains(last)) by {
            if front.contains(last) {
                let j = choose|j: int| 0 <= j < front.len() && front[j] == last;
                assert(ids[j] == ids[ids.len() - 1]);
            }
        }
        assert forall|x: Seq<char>| ids.contains(x) <==> (front.contains(x) || x == last) by {
            if front.contains(x) {
                let j = choose|j: int| 0 <= j < front.len() && front[j] == x;
                assert(ids[j] == x);
            }
            if x == last {
                assert(ids[ids.len() - 1] == x);
            }
            if ids.contains(x) {
                let j = choose|j: int| 0 <= j < ids.len() && ids[j] == x;
                if j < front.len() {
                    assert(front[j] == x);
                }
            }
        }
    }
}

/// A transfer between two agents creates no credits and destroys none: the balances of any group of
/// agents that holds both have the same value before and after.
pub proof fn law_transfer_conserves_credits(
    b: Balances,
    tx: TransactionView,
    ids: Seq<Seq<char>>,
)
    requires
        sound(b),
        is_decimal(tx.amount),
        tx.amount.mantissa > 0,
        tx.from_agent_id matches Some(f) && units(balance_of(b, f)) >= units(tx.amount)
            && ids.contains(f),
        tx.to_agent_id matches Some(t) && ids.contains(t),
        computes_exactly(b, tx),
        ids.no_duplicates(),
    ensures
        run_transaction(b, tx) is Done,
        total(run_transaction(b, tx)->Done_0, ids) == total(b, ids),
{
    law_transaction_moves_its_amount(b, tx);
    lemma_total_changes(b, run_transaction(b, tx)->Done_0, tx, ids);
}

/// A deposit adds its amount to the credits of any group of agents that holds its receiver.
pub proof fn law_deposit_adds_credits(b: Balances, tx: TransactionView, ids: Seq<Seq<char>>)
    requires
        sound(b),
        is_decimal(tx.amount),
        tx.amount.mantissa > 0,
        tx.from_agent_id is None,
        tx.to_agent_id matches Some(t) && ids.contains(t),
        computes_exactly(b, tx),
        ids.no_duplicates(),
    ensures
        run_transaction(b, tx) is Done,
        total(run_transaction(b, tx)->Done_0, ids) == total(b, ids) + units(tx.amount),
{
    law_transaction_moves_its_amount(b, tx);
    lemma_total_changes(b, run_transaction(b, tx)->Done_0, tx, ids);
}

// ---------------------------------------------------------------------------
// Requests
// ---------------------------------------------------------------------------

pub struct BalanceResponse {
    pub balance: String,
}

impl TextFormat for BalanceResponse {
    open spec fn text(&self) -> Seq<char> {
        "balance: "@ + self.balance@ + "\n"@
    }

    open spec fn renders(&self) -> bool {
        true
    }

    fn to_text(&self) -> (r: String) {
        let mut s = String::from_str("balance: ");
        s.append(self.balance.as_str());
        s.append("\n");
        s
    }
}

/// The answer to an agent that asks for its balance.
pub fn get_balance(balance: &Amount) -> (r: BalanceResponse)
    ensures
        r.balance@ == decimal_text(balance@),
{
    BalanceResponse { balance: balance.text() }
}

#[derive(Debug)]
pub struct TransferRequest {
    pub to_agent: String,
    pub amount: String,
}

pub struct TransferResponse {
    pub from_balance: String,
    pub transferred: String,
}

impl TextFormat for TransferResponse {
    open spec fn text(&self) -> Seq<char> {
        "transferred: "@ + self.transferred@ + "\nremaining: "@ + self.from_balance@ + "\n"@
    }

    open spec fn renders(&self) -> bool {
        true
    }

    fn to_text(&self) -> (r: String) {
        let mut s = String::from_str("transferred: ");
        s.append(self.transferred.as_str());
        s.append("\nremaining: ");
        s.append(self.from_balance.as_str());
        s.append("\n");
        s
    }
}

/// The transaction by which an agent transfers credits to another, which has to exist.
pub fn transfer_credits(from_id: &str, target_id: Option<String>, amount: Amount) -> (r: Result<
    Transaction,
    Status,
>)
    ensures
        match target_id {
            None => r matches Err(e) && e == Status::NotFound,
            Some(id) => r matches Ok(tx) && tx@ == (TransactionView {
                from_agent_id: Some(from_id@),
                to_agent_id: Some(id@),
                amount: amount@,
                kind: TxKind::Transfer,
                reference_id: None,
            }),
        },
{
    match target_id {
        None => Err(Status::NotFound),
        Some(id) => Ok(
            Transaction {
                from_agent_id: Some(from_id.to_owned()),
                to_agent_id: Some(id),
                amount,
                kind: TxKind::Transfer,
                reference_id: None,
            },
        ),
    }
}

/// The answer to a transfer, with what the sender has left.
pub fn transfer_response(new_balance: &Amount, amount: &Amount) -> (r: TransferResponse)
    ensures
        r.from_balance@ == decimal_text(new_balance@),
        r.transferred@ == decimal_text(amount@),
{
    TransferResponse { from_balance: new_balance.text(), transferred: amount.text() }
}

#[derive(Debug)]
pub struct DepositRequest {
    pub amount: String,
}

pub struct DepositResponse {
    pub agent_name: String,
    pub new_balance: String,
    pub deposited: String,
}

impl TextFormat for DepositResponse {
    open spec fn text(&self) -> Seq<char> {
        "deposited "@ + self.deposited@ + " to "@ + self.agent_name@ + "\nnew balance: "@ + self.new_balance@ + "\n"@
    }

    open spec fn renders(&self) -> bool {
        true
    }

    fn to_text(&self) -> (r: String) {
        let mut s = String::from_str("deposited ");
        s.append(self.deposited.as_str());
        s.append(" to ");
        s.append(self.agent_name.as_str());
        s.append("\nnew balance: ");
        s.append(self.new_balance.as_str());
        s.append("\n");
        s
    }
}

/// The transaction by which a sponsor deposits credits to an agent, which has to be its own.
pub fn deposit_credits(agent_id: Option<String>, amount: Amount) -> (r: Result<Transaction, Status>)
    ensures
        match agent_id {
            None => r matches Err(e) && e == Status::NotFound,
            Some(id) => r matches Ok(tx) && tx@ == (TransactionView {
                from_agent_id: None,
                to_agent_id: Some(id@),
                amount: amount@,
                kind: TxKind::Deposit,
                reference_id: None,
            }),
        },
{
    match agent_id {
        None => Err(Status::NotFound),
        Some(id) => Ok(
            Transaction {
                from_agent_id: None,
                to_agent_id: Some(id),
                amount,
                kind: TxKind::Deposit,
                reference_id: None,
            },
        ),
    }
}

/// The answer to a deposit, with what the agent has now.
pub fn deposit_response(agent_name: String, new_balance: &Amount, amount: &Amount) -> (r:
    DepositResponse)
    ensures
        r.agent_name == agent_name,
        r.new_balance@ == decimal_text(new_balance@),
        r.deposited@ == decimal_text(amount@),
{
    DepositResponse { agent_name, new_balance: new_balance.text(), deposited: amount.text() }
}

/// The ledger says what happened: who paid, who was paid, how much, what for and on account of what;
/// and each kind of transaction has a name of its own there.
pub proof fn law_ledger_says_what_happened(tx: TransactionView, id: Seq<char>)
    ensures
        ledger_row(tx, id).id == id,
        ledger_row(tx, id).from_agent_id == tx.from_agent_id,
        ledger_row(tx, id).to_agent_id == tx.to_agent_id,
        ledger_row(tx, id).amount == decimal_text(tx.amount),
        ledger_row(tx, id).reference_id == tx.reference_id,
        tx.kind == TxKind::Deposit ==> ledger_row(tx, id).kind == "deposit"@,
        tx.kind == TxKind::Transfer ==> ledger_row(tx, id).kind == "transfer"@,
        tx.kind == TxKind::BountyHold ==> ledger_row(tx, id).kind == "bounty_hold"@,
        tx.kind == TxKind::BountyRelease ==> ledger_row(tx, id).kind == "bounty_release"@,
        tx.kind == TxKind::BountyRefund ==> ledger_row(tx, id).kind == "bounty_refund"@,
        tx.kind == TxKind::Purchase ==> ledger_row(tx, id).kind == "purchase"@,
{
}

/// What a value says in contracts is what its fields say, each in its own place.
pub proof fn law_views_show_every_field(
    transaction: Transaction,
    ledger_entry: LedgerEntry,
    settlement: Settlement,
    transact_step: TransactStep,
)
    ensures
        transaction@.from_agent_id == opt_text(transaction.from_agent_id),
        transaction@.to_agent_id == opt_text(transaction.to_agent_id),
        transaction@.amount == transaction.amount@,
        transaction@.kind == transaction.kind,
        transaction@.reference_id == opt_text(transaction.reference_id),
        ledger_entry@.id == ledger_entry.id@,
        ledger_entry@.from_agent_id == opt_text(ledger_entry.from_agent_id),
        ledger_entry@.to_agent_id == opt_text(ledger_entry.to_agent_id),
        ledger_entry@.amount == ledger_entry.amount@,
        ledger_entry@.kind == ledger_entry.kind@,
        ledger_entry@.reference_id == opt_text(ledger_entry.reference_id),
        settlement@.writes == write_views(settlement.writes@),
        settlement@.entry == settlement.entry@,
        transact_step@ == (match transact_step {
            TransactStep::ReadSender(id) => Step::ReadSender(id@),
            TransactStep::ReadReceiver(id, left) => Step::ReadReceiver(id@, opt_amount(left)),
            TransactStep::Apply(s) => Step::Apply(s@),
            TransactStep::Refuse(s) => Step::Refuse(s),
            TransactStep::Overflow => Step::Overflow,
        }),
{
}

/// A transfer is shown in two lines: what was transferred, and what the sender has left.
pub proof fn law_transfer_is_shown_in_two_lines(t: TransferResponse)
    ensures
        split(t.text(), '\n') == split("transferred: "@ + t.transferred@, '\n')
            + split("remaining: "@ + t.from_balance@, '\n')
            + seq![Seq::<char>::empty()],
{
    reveal_strlit("\nremaining: ");
    reveal_strlit("remaining: ");
    reveal_strlit("\n");
    let line0 = "transferred: "@ + t.transferred@;
    let line1 = "remaining: "@ + t.from_balance@;
    let end = Seq::<char>::empty();
    let rest1 = line1 + seq!['\n'] + end;
    assert(t.text() =~= line0 + seq!['\n'] + rest1);
    lemma_ended_line(line1, end);
    lemma_ended_line(line0, rest1);
}

/// A deposit is shown in two lines: what was deposited for whom, and what the agent has now.
pub proof fn law_deposit_is_shown_in_two_lines(d: DepositResponse)
    ensures
        split(d.text(), '\n') == split("deposited "@ + d.deposited@ + " to "@ + d.agent_name@, '\n')
            + split("new balance: "@ + d.new_balance@, '\n')
            + seq![Seq::<char>::empty()],
{
    reveal_strlit("\nnew balance: ");
    reveal_strlit("new balance: ");
    reveal_strlit("\n");
    let line0 = "deposited "@ + d.deposited@ + " to "@ + d.agent_name@;
    let line1 = "new balance: "@ + d.new_balance@;
    let end = Seq::<char>::empty();
    let rest1 = line1 + seq!['\n'] + end;
    assert(d.text() =~= line0 + seq!['\n'] + rest1);
    lemma_ended_line(line1, end);
    lemma_ended_line(line0, rest1);
}

/// A balance is shown in a line.
pub proof fn law_balance_is_shown_in_a_line(b: BalanceResponse)
    ensures
        split(b.text(), '\n') == split("balance: "@ + b.balance@, '\n')
            + seq![Seq::<char>::empty()],
{
    reveal_strlit("\n");
    let line0 = "balance: "@ + b.balance@;
    let end = Seq::<char>::empty();
    assert(b.text() =~= line0 + seq!['\n'] + end);
    lemma_ended_line(line0, end);
}

/// A list says in contracts what its items say, one for one and in their order, and a value that may
/// be missing what it says where it is there.
pub proof fn law_items_are_read_one_for_one(v: Seq<(String, Amount)>, x: Amount)
    ensures
        write_views(v).len() == v.len(),
        forall|i: int| 0 <= i < v.len() ==> #[trigger] write_views(v)[i] == (v[i].0@, v[i].1@),
        opt_amount(Some(x)) == Some(x@),
        opt_amount(None) is None,
{
}

/// There is a text for every answer; a list has one where each of its items has.
pub proof fn law_answers_can_be_shown(
    balance_response: BalanceResponse,
    transfer_response: TransferResponse,
    deposit_response: DepositResponse,
)
    ensures
        balance_response.renders(),
        transfer_response.renders(),
        deposit_response.renders(),
{
}

/// An agent without a balance has nothing, and one with a balance has that.
pub proof fn law_balance_is_what_is_kept(b: Balances, id: Seq<char>, d: Dec)
    ensures
        units(balance_of(b.insert(id, d), id)) == units(d),
        !b.dom().contains(id) ==> units(balance_of(b, id)) == 0,
        b.dom().contains(id) ==> balance_of(b, id) == b[id],
{
    if !b.dom().contains(id) {
        law_value_has_sign_of_mantissa(balance_of(b, id));
    }
}

} // verus!
