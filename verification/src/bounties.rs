//! Bounties: credits held for whoever resolves an issue or a request.

use vstd::prelude::*;
use vstd::string::*;
use crate::credits::{
    balance_of, gain, law_transaction_moves_its_amount, ledger_row, run_transaction, sound, Balances,
    Transaction, TransactionView, TxKind,
};
use crate::decimal::{
    alignable, decimal_text, exact_difference, is_decimal, law_difference_can_be_undone,
    law_difference_of_alignable_is_exact, law_value_has_sign_of_mantissa, parsed_decimal,
    sum_is_exact, units, Amount, Dec,
};
use crate::format::TextFormat;
use crate::status::Status;
use crate::text::{
    clone_opt, lemma_ended_line, opt_text, same_text, split,
};

verus! {

// ---------------------------------------------------------------------------
// Types
// ---------------------------------------------------------------------------

#[derive(Debug)]
pub struct CreateBounty {
    pub issue_id: Option<String>,
    pub request_id: Option<String>,
    pub amount: String,
}

#[derive(Debug)]
pub struct ClaimBounty {
    pub evidence: String,
}

#[derive(Debug)]
pub struct ApproveClaim {
    pub claim_id: String,
}

pub struct BountyResponse {
    pub id: String,
    pub funder_name: String,
    pub issue_id: Option<String>,
    pub request_id: Option<String>,
    pub amount: String,
    pub status: String,
    pub created_at: String,
}

/// What a bounty is for.
pub open spec fn target_text(issue_id: Option<Seq<char>>, request_id: Option<Seq<char>>) -> Seq<char> {
    match (issue_id, request_id) {
        (Some(id), _) => "issue:"@ + id,
        (None, Some(id)) => "request:"@ + id,
        (None, None) => "?"@,
    }
}

impl BountyResponse {
    fn target(&self) -> (r: String)
        ensures
            r@ == target_text(opt_text(self.issue_id), opt_text(self.request_id)),
    {
        match &self.issue_id {
            Some(id) => {
                let mut s = String::from_str("issue:");
                s.append(id.as_str());
                s
            },
            None => match &self.request_id {
                Some(id) => {
                    let mut s = String::from_str("request:");
                    s.append(id.as_str());
                    s
                },
                None => String::from_str("?"),
            },
        }
    }
}

impl TextFormat for BountyResponse {
    open spec fn text(&self) -> Seq<char> {
        "["@ + self.status@ + "] "@ + self.amount@ + " credits on "@ + target_text(opt_text(self.issue_id), opt_text(self.request_id)) + " by "@ + self.funder_name@ + "\n"@
    }

    open spec fn renders(&self) -> bool {
        true
    }

    fn to_text(&self) -> (r: String) {
        let mut s = String::from_str("[");
        s.append(self.status.as_str());
        s.append("] ");
        s.append(self.amount.as_str());
        s.append(" credits on ");
        s.append(self.target().as_str());
        s.append(" by ");
        s.append(self.funder_name.as_str());
        s.append("\n");
        s
    }
}

pub struct ClaimResponse {
    pub id: String,
    pub bounty_id: String,
    pub claimant_name: String,
    pub evidence: String,
    pub status: String,
}

impl TextFormat for ClaimResponse {
    open spec fn text(&self) -> Seq<char> {
        "["@ + self.status@ + "] claim by "@ + self.claimant_name@ + " | "@ + self.evidence@ + "\n"@
    }

    open spec fn renders(&self) -> bool {
        true
    }

    fn to_text(&self) -> (r: String) {
        let mut s = String::from_str("[");
        s.append(self.status.as_str());
        s.append("] claim by ");
        s.append(self.claimant_name.as_str());
        s.append(" | ");
        s.append(self.evidence.as_str());
        s.append("\n");
        s
    }
}

// ---------------------------------------------------------------------------
// Posting
// ---------------------------------------------------------------------------

/// Whether a bounty names exactly one thing that it is for.
pub open spec fn has_one_target(body: CreateBounty) -> bool {
    body.issue_id is Some != body.request_id is Some
}

/// The number in a text, where it is positive.
pub open spec fn positive_amount(s: Seq<char>) -> Option<Dec> {
    match parsed_decimal(s) {
        Some(d) => if d.mantissa > 0 {
            Some(d)
        } else {
            None
        },
        None => None,
    }
}

/// The amount of a bounty to be posted. It has to be for exactly one thing, and positive.
pub fn check_bounty(body: &CreateBounty) -> (r: Result<Amount, Status>)
    ensures
        match r {
            Ok(a) => has_one_target(*body) && positive_amount(body.amount@) == Some(a@),
            Err(e) => e == Status::BadRequest && (!has_one_target(*body) || positive_amount(
                body.amount@,
            ) is None),
        },
{
    if body.issue_id.is_some() == body.request_id.is_some() {
        return Err(Status::BadRequest);
    }
    match Amount::parse(body.amount.as_str()) {
        None => Err(Status::BadRequest),
        Some(a) => {
            if a.is_positive() {
                Ok(a)
            } else {
                Err(Status::BadRequest)
            }
        },
    }
}

/// A change of the bounties and their claims.
#[derive(Debug)]
pub enum BountyWrite {
    InsertBounty {
        id: String,
        funder_id: String,
        issue_id: Option<String>,
        request_id: Option<String>,
        amount: String,
        status: String,
    },
    InsertClaim { id: String, bounty_id: String, claimant_id: String, evidence: String },
    SetClaimStatus { claim_id: String, status: String },
    /// Reject the claims of a bounty that are still pending.
    RejectPendingClaims { bounty_id: String },
    SetBountyStatus { bounty_id: String, status: String },
}

/// What a change says.
pub enum BountyWriteView {
    InsertBounty {
        id: Seq<char>,
        funder_id: Seq<char>,
        issue_id: Option<Seq<char>>,
        request_id: Option<Seq<char>>,
        amount: Seq<char>,
        status: Seq<char>,
    },
    InsertClaim {
        id: Seq<char>,
        bounty_id: Seq<char>,
        claimant_id: Seq<char>,
        evidence: Seq<char>,
    },
    SetClaimStatus { claim_id: Seq<char>, status: Seq<char> },
    RejectPendingClaims { bounty_id: Seq<char> },
    SetBountyStatus { bounty_id: Seq<char>, status: Seq<char> },
}

impl View for BountyWrite {
    type V = BountyWriteView;

    open spec fn view(&self) -> BountyWriteView {
        match self {
            BountyWrite::InsertBounty { id, funder_id, issue_id, request_id, amount, status } => {
                BountyWriteView::InsertBounty {
                    id: id@,
                    funder_id: funder_id@,
                    issue_id: opt_text(*issue_id),
                    request_id: opt_text(*request_id),
                    amount: amount@,
                    status: status@,
                }
            },
            BountyWrite::InsertClaim { id, bounty_id, claimant_id, evidence } => {
                BountyWriteView::InsertClaim {
                    id: id@,
                    bounty_id: bounty_id@,
                    claimant_id: claimant_id@,
                    evidence: evidence@,
                }
            },
            BountyWrite::SetClaimStatus { claim_id, status } => {
                BountyWriteView::SetClaimStatus { claim_id: claim_id@, status: status@ }
            },
            BountyWrite::RejectPendingClaims { bounty_id } => {
                BountyWriteView::RejectPendingClaims { bounty_id: bounty_id@ }
            },
            BountyWrite::SetBountyStatus { bounty_id, status } => {
                BountyWriteView::SetBountyStatus { bounty_id: bounty_id@, status: status@ }
            },
        }
    }
}

pub open spec fn bounty_writes(v: Seq<BountyWrite>) -> Seq<BountyWriteView> {
    v.map_values(|w: BountyWrite| w@)
}

/// The transaction that holds the credits of a bounty: they leave the funder and go nowhere yet.
pub open spec fn hold(funder_id: Seq<char>, amount: Dec, bounty_id: Seq<char>) -> TransactionView {
    TransactionView {
        from_agent_id: Some(funder_id),
        to_agent_id: None,
        amount,
        kind: TxKind::BountyHold,
        reference_id: Some(bounty_id),
    }
}

/// The transaction that pays held credits out.
pub open spec fn payout(
    to: Seq<char>,
    amount: Dec,
    kind: TxKind,
    bounty_id: Seq<char>,
) -> TransactionView {
    TransactionView {
        from_agent_id: None,
        to_agent_id: Some(to),
        amount,
        kind,
        reference_id: Some(bounty_id),
    }
}

/// What a decision about a bounty sets in motion: a transaction, and once it has gone through the
/// changes, in order, and the answer.
pub struct BountyPlan {
    pub transaction: Transaction,
    pub writes: Vec<BountyWrite>,
    pub response: BountyResponse,
}

/// What an answer about a bounty says.
#[verifier::ext_equal]
pub struct BountyResponseView {
    pub id: Seq<char>,
    pub funder_name: Seq<char>,
    pub issue_id: Option<Seq<char>>,
    pub request_id: Option<Seq<char>>,
    pub amount: Seq<char>,
    pub status: Seq<char>,
    pub created_at: Seq<char>,
}

impl View for BountyResponse {
    type V = BountyResponseView;

    open spec fn view(&self) -> BountyResponseView {
        BountyResponseView {
            id: self.id@,
            funder_name: self.funder_name@,
            issue_id: opt_text(self.issue_id),
            request_id: opt_text(self.request_id),
            amount: self.amount@,
            status: self.status@,
            created_at: self.created_at@,
        }
    }
}

/// Post a bounty on an issue or request, which has to exist.
/// Holds credits from the funder's balance.
pub fn create_bounty(
    body: CreateBounty,
    amount: Amount,
    target_exists: bool,
    id: String,
    funder_id: String,
    funder_name: String,
) -> (r: Result<BountyPlan, Status>)
    ensures
        if !target_exists {
            r matches Err(e) && e == Status::NotFound
        } else {
            r matches Ok(plan) && {
                &&& plan.transaction@ == hold(funder_id@, amount@, id@)
                &&& bounty_writes(plan.writes@) == seq![
                    BountyWriteView::InsertBounty {
                        id: id@,
                        funder_id: funder_id@,
                        issue_id: opt_text(body.issue_id),
                        request_id: opt_text(body.request_id),
                        amount: decimal_text(amount@),
                        status: "open"@,
                    },
                ]
                &&& plan.response@ == (BountyResponseView {
                    id: id@,
                    funder_name: funder_name@,
                    issue_id: opt_text(body.issue_id),
                    request_id: opt_text(body.request_id),
                    amount: decimal_text(amount@),
                    status: "open"@,
                    created_at: seq![],
                })
            }
        },
{
    if !target_exists {
        return Err(Status::NotFound);
    }
    let transaction = Transaction {
        from_agent_id: Some(funder_id.clone()),
        to_agent_id: None,
        amount,
        kind: TxKind::BountyHold,
        reference_id: Some(id.clone()),
    };
    let mut writes: Vec<BountyWrite> = Vec::new();
    writes.push(
        BountyWrite::InsertBounty {
            id: id.clone(),
            funder_id,
            issue_id: clone_opt(&body.issue_id),
            request_id: clone_opt(&body.request_id),
            amount: amount.text(),
            status: String::from_str("open"),
        },
    );
    proof {
        assert(bounty_writes(writes@) =~= seq![writes@[0]@]);
    }
    let response = BountyResponse {
        id,
        funder_name,
        issue_id: body.issue_id,
        request_id: body.request_id,
        amount: amount.text(),
        status: String::from_str("open"),
        created_at: String::new(),
    };
    Ok(BountyPlan { transaction, writes, response })
}

// ---------------------------------------------------------------------------
// Claiming
// ---------------------------------------------------------------------------

/// What an answer about a claim says.
#[verifier::ext_equal]
pub struct ClaimResponseView {
    pub id: Seq<char>,
    pub bounty_id: Seq<char>,
    pub claimant_name: Seq<char>,
    pub evidence: Seq<char>,
    pub status: Seq<char>,
}

impl View for ClaimResponse {
    type V = ClaimResponseView;

    open spec fn view(&self) -> ClaimResponseView {
        ClaimResponseView {
            id: self.id@,
            bounty_id: self.bounty_id@,
            claimant_name: self.claimant_name@,
            evidence: self.evidence@,
            status: self.status@,
        }
    }
}

/// Claim a bounty with evidence. The bounty has to exist and to be open.
pub fn claim_bounty(
    status: Option<String>,
    id: String,
    bounty_id: String,
    claimant_id: String,
    claimant_name: String,
    body: ClaimBounty,
) -> (r: Result<(BountyWrite, ClaimResponse), Status>)
    ensures
        match status {
            None => r matches Err(e) && e == Status::NotFound,
            Some(s) => if s@ != "open"@ {
                r matches Err(e) && e == Status::Conflict
            } else {
                r matches Ok(p) && {
                    &&& p.0@ == (BountyWriteView::InsertClaim {
                        id: id@,
                        bounty_id: bounty_id@,
                        claimant_id: claimant_id@,
                        evidence: body.evidence@,
                    })
                    &&& p.1@ == (ClaimResponseView {
                        id: id@,
                        bounty_id: bounty_id@,
                        claimant_name: claimant_name@,
                        evidence: body.evidence@,
                        status: "pending"@,
                    })
                }
            },
        },
{
    match status {
        None => Err(Status::NotFound),
        Some(s) => {
            if !same_text(s.as_str(), "open") {
                return Err(Status::Conflict);
            }
            let write = BountyWrite::InsertClaim {
                id: id.clone(),
                bounty_id: bounty_id.clone(),
                claimant_id,
                evidence: body.evidence.clone(),
            };
            let response = ClaimResponse {
                id,
                bounty_id,
                claimant_name,
                evidence: body.evidence,
                status: String::from_str("pending"),
            };
            Ok((write, response))
        },
    }
}

// ---------------------------------------------------------------------------
// Settling
// ---------------------------------------------------------------------------

/// A bounty that is open, as it is stored.
#[derive(Debug)]
pub struct OpenBounty {
    pub id: String,
    pub funder_id: String,
    pub funder_name: String,
    pub amount: String,
    pub issue_id: Option<String>,
    pub request_id: Option<String>,
}

/// What the settling of a bounty goes by: who funded it, and the amount.
pub open spec fn settled_by(bounty: Option<OpenBounty>) -> Option<(Seq<char>, Seq<char>)> {
    match bounty {
        Some(b) => Some((b.funder_id@, b.amount@)),
        None => None,
    }
}

/// The amount that an agent may pay out of a bounty, of which there is none where it is not open.
pub open spec fn to_pay(bounty: Option<(Seq<char>, Seq<char>)>, agent_id: Seq<char>) -> Result<
    Dec,
    Status,
> {
    match bounty {
        None => Err(Status::NotFound),
        Some((funder_id, amount)) => if funder_id != agent_id {
            Err(Status::Forbidden)
        } else {
            match parsed_decimal(amount) {
                None => Err(Status::InternalServerError),
                Some(d) => Ok(d),
            }
        },
    }
}

/// The amount that is to be paid out of a bounty. The bounty has to exist and to be open, and only
/// its funder may settle it.
pub fn settle_bounty(bounty: &Option<OpenBounty>, agent_id: &str) -> (r: Result<Amount, Status>)
    ensures
        match to_pay(settled_by(*bounty), agent_id@) {
            Err(e) => r matches Err(f) && f == e,
            Ok(d) => r matches Ok(a) && a@ == d,
        },
{
    match bounty {
        None => Err(Status::NotFound),
        Some(b) => {
            if !same_text(b.funder_id.as_str(), agent_id) {
                return Err(Status::Forbidden);
            }
            match Amount::parse(b.amount.as_str()) {
                None => Err(Status::InternalServerError),
                Some(a) => Ok(a),
            }
        },
    }
}

/// The changes by which a claim is approved: it is approved, the others are rejected, and the
/// bounty is completed.
pub open spec fn approval_writes(bounty_id: Seq<char>, claim_id: Seq<char>) -> Seq<BountyWriteView> {
    seq![
        BountyWriteView::SetClaimStatus { claim_id, status: "approved"@ },
        BountyWriteView::RejectPendingClaims { bounty_id },
        BountyWriteView::SetBountyStatus { bounty_id, status: "completed"@ },
    ]
}

/// The changes by which a bounty is cancelled.
pub open spec fn cancellation_writes(bounty_id: Seq<char>) -> Seq<BountyWriteView> {
    seq![
        BountyWriteView::RejectPendingClaims { bounty_id },
        BountyWriteView::SetBountyStatus { bounty_id, status: "cancelled"@ },
    ]
}

/// Approve a claim, which has to be a pending claim of the bounty.
/// Releases credits to the claimant, rejects other pending claims.
pub fn approve_claim(
    bounty: OpenBounty,
    amount: Amount,
    claim_id: String,
    claimant_id: Option<String>,
) -> (r: Result<BountyPlan, Status>)
    ensures
        match claimant_id {
            None => r matches Err(e) && e == Status::NotFound,
            Some(claimant) => r matches Ok(plan) && {
                &&& plan.transaction@ == payout(
                    claimant@,
                    amount@,
                    TxKind::BountyRelease,
                    bounty.id@,
                )
                &&& bounty_writes(plan.writes@) == approval_writes(bounty.id@, claim_id@)
                &&& plan.response@ == (BountyResponseView {
                    id: bounty.id@,
                    funder_name: bounty.funder_name@,
                    issue_id: opt_text(bounty.issue_id),
                    request_id: opt_text(bounty.request_id),
                    amount: bounty.amount@,
                    status: "completed"@,
                    created_at: seq![],
                })
            },
        },
{
    let claimant = match claimant_id {
        None => {
            return Err(Status::NotFound);
        },
        Some(c) => c,
    };
    let transaction = Transaction {
        from_agent_id: None,
        to_agent_id: Some(claimant),
        amount,
        kind: TxKind::BountyRelease,
        reference_id: Some(bounty.id.clone()),
    };
    let mut writes: Vec<BountyWrite> = Vec::new();
    writes.push(BountyWrite::SetClaimStatus { claim_id, status: String::from_str("approved") });
    writes.push(BountyWrite::RejectPendingClaims { bounty_id: bounty.id.clone() });
    writes.push(
        BountyWrite::SetBountyStatus {
            bounty_id: bounty.id.clone(),
            status: String::from_str("completed"),
        },
    );
    proof {
        assert(bounty_writes(writes@) =~= approval_writes(bounty.id@, claim_id@));
    }
    let response = BountyResponse {
        id: bounty.id,
        funder_name: bounty.funder_name,
        issue_id: bounty.issue_id,
        request_id: bounty.request_id,
        amount: bounty.amount,
        status: String::from_str("completed"),
        created_at: String::new(),
    };
    Ok(BountyPlan { transaction, writes, response })
}

/// Cancel a bounty. Refunds credits to the funder and rejects all pending claims.
pub fn cancel_bounty(bounty: OpenBounty, amount: Amount) -> (r: (Transaction, Vec<BountyWrite>))
    ensures
        r.0@ == payout(bounty.funder_id@, amount@, TxKind::BountyRefund, bounty.id@),
        bounty_writes(r.1@) == cancellation_writes(bounty.id@),
{
    let transaction = Transaction {
        from_agent_id: None,
        to_agent_id: Some(bounty.funder_id),
        amount,
        kind: TxKind::BountyRefund,
        reference_id: Some(bounty.id.clone()),
    };
    let mut writes: Vec<BountyWrite> = Vec::new();
    writes.push(BountyWrite::RejectPendingClaims { bounty_id: bounty.id.clone() });
    writes.push(
        BountyWrite::SetBountyStatus {
            bounty_id: bounty.id.clone(),
            status: String::from_str("cancelled"),
        },
    );
    proof {
        assert(bounty_writes(writes@) =~= cancellation_writes(bounty.id@));
    }
    (transaction, writes)
}

// ---------------------------------------------------------------------------
// The life of a bounty
// ---------------------------------------------------------------------------

/// A bounty as it is stored.
#[verifier::ext_equal]
pub struct BountyRecord {
    pub funder_id: Seq<char>,
    pub amount: Seq<char>,
    pub status: Seq<char>,
}

/// A claim as it is stored.
#[verifier::ext_equal]
pub struct ClaimRecord {
    pub bounty_id: Seq<char>,
    pub claimant_id: Seq<char>,
    pub status: Seq<char>,
}

/// All bounties and claims.
#[verifier::ext_equal]
pub struct Bounties {
    pub bounties: Map<Seq<char>, BountyRecord>,
    pub claims: Map<Seq<char>, ClaimRecord>,
}

/// A claim after the pending claims of a bounty were rejected.
pub open spec fn rejected_claim(c: ClaimRecord, bounty_id: Seq<char>) -> ClaimRecord {
    if c.bounty_id == bounty_id && c.status == "pending"@ {
        ClaimRecord { status: "rejected"@, ..c }
    } else {
        c
    }
}

/// What a change does.
pub open spec fn apply_bounty_write(w: Bounties, c: BountyWriteView) -> Bounties {
    match c {
        BountyWriteView::InsertBounty { id, funder_id, amount, status, .. } => Bounties {
            bounties: w.bounties.insert(id, BountyRecord { funder_id, amount, status }),
            ..w
        },
        BountyWriteView::InsertClaim { id, bounty_id, claimant_id, .. } => Bounties {
            claims: w.claims.insert(
                id,
                ClaimRecord { bounty_id, claimant_id, status: "pending"@ },
            ),
            ..w
        },
        BountyWriteView::SetClaimStatus { claim_id, status } => if w.claims.dom().contains(
            claim_id,
        ) {
            Bounties {
                claims: w.claims.insert(claim_id, ClaimRecord { status, ..w.claims[claim_id] }),
                ..w
            }
        } else {
            w
        },
        BountyWriteView::RejectPendingClaims { bounty_id } => Bounties {
            claims: w.claims.map_values(|c: ClaimRecord| rejected_claim(c, bounty_id)),
            ..w
        },
        BountyWriteView::SetBountyStatus { bounty_id, status } => if w.bounties.dom().contains(
            bounty_id,
        ) {
            Bounties {
                bounties: w.bounties.insert(
                    bounty_id,
                    BountyRecord { status, ..w.bounties[bounty_id] },
                ),
                ..w
            }
        } else {
            w
        },
    }
}

/// What a list of changes does, one after the other.
pub open spec fn apply_bounty_writes(w: Bounties, cs: Seq<BountyWriteView>) -> Bounties
    decreases cs.len(),
{
    if cs.len() == 0 {
        w
    } else {
        apply_bounty_write(apply_bounty_writes(w, cs.drop_last()), cs.last())
    }
}

/// Whether a bounty can be claimed and settled.
pub open spec fn is_open(w: Bounties, bounty_id: Seq<char>) -> bool {
    w.bounties.dom().contains(bounty_id) && w.bounties[bounty_id].status == "open"@
}

/// What is found of a bounty that is to be settled.
pub open spec fn found_open(w: Bounties, bounty_id: Seq<char>) -> Option<(Seq<char>, Seq<char>)> {
    if is_open(w, bounty_id) {
        Some((w.bounties[bounty_id].funder_id, w.bounties[bounty_id].amount))
    } else {
        None
    }
}

/// Whether a claim waits for a decision.
pub open spec fn is_pending(w: Bounties, claim_id: Seq<char>, bounty_id: Seq<char>) -> bool {
    w.claims.dom().contains(claim_id) && w.claims[claim_id].bounty_id == bounty_id
        && w.claims[claim_id].status == "pending"@
}

proof fn lemma_statuses()
    ensures
        "open"@ != "completed"@,
        "open"@ != "cancelled"@,
        "pending"@ != "approved"@,
        "pending"@ != "rejected"@,
{
    reveal_strlit("open");
    reveal_strlit("completed");
    reveal_strlit("cancelled");
    reveal_strlit("pending");
    reveal_strlit("approved");
    reveal_strlit("rejected");
    assert("open"@.len() == 4);
    assert("pending"@[0] != "approved"@[0]);
    assert("pending"@[0] != "rejected"@[0]);
}

/// Approving a claim completes the bounty, approves that claim, and rejects every other claim of
/// the bounty that was pending, so that none can be approved after it. No one can settle the bounty
/// again. Claims of other bounties and other bounties stay as they were.
pub proof fn law_approval_settles_bounty(w: Bounties, bounty_id: Seq<char>, claim_id: Seq<char>)
    requires
        is_open(w, bounty_id),
        is_pending(w, claim_id, bounty_id),
    ensures
        ({
            let after = apply_bounty_writes(w, approval_writes(bounty_id, claim_id));
            &&& after.bounties[bounty_id].status == "completed"@
            &&& !is_open(after, bounty_id)
            &&& forall|agent: Seq<char>| #[trigger]
                to_pay(found_open(after, bounty_id), agent) == Err::<Dec, Status>(Status::NotFound)
            &&& after.claims[claim_id].status == "approved"@
            &&& forall|c: Seq<char>| !#[trigger] is_pending(after, c, bounty_id)
            &&& forall|c: Seq<char>|
                c != claim_id && is_pending(w, c, bounty_id) ==> (#[trigger] after.claims[c]).status
                    == "rejected"@
            &&& forall|c: Seq<char>|
                w.claims.dom().contains(c) && w.claims[c].bounty_id != bounty_id
                    ==> #[trigger] after.claims[c] == w.claims[c]
            &&& forall|b: Seq<char>|
                b != bounty_id && w.bounties.dom().contains(b) ==> #[trigger] after.bounties[b]
                    == w.bounties[b]
        }),
{
    lemma_statuses();
    let ws = approval_writes(bounty_id, claim_id);
    assert(ws.drop_last() =~= seq![ws[0], ws[1]]);
    assert(ws.drop_last().drop_last() =~= seq![ws[0]]);
    assert(ws.drop_last().drop_last().drop_last() =~= seq![]);
    reveal_with_fuel(apply_bounty_writes, 4);
}

/// Cancelling a bounty leaves it cancelled, with every claim rejected that was pending. No one can
/// settle it again: to cancel it once more, or to approve a claim, finds no bounty and pays nothing.
/// Claims of other bounties and other bounties stay as they were.
pub proof fn law_cancellation_settles_bounty(w: Bounties, bounty_id: Seq<char>)
    requires
        is_open(w, bounty_id),
    ensures
        ({
            let after = apply_bounty_writes(w, cancellation_writes(bounty_id));
            &&& after.bounties[bounty_id].status == "cancelled"@
            &&& !is_open(after, bounty_id)
            &&& forall|agent: Seq<char>| #[trigger]
                to_pay(found_open(after, bounty_id), agent) == Err::<Dec, Status>(Status::NotFound)
            &&& forall|c: Seq<char>| !#[trigger] is_pending(after, c, bounty_id)
            &&& forall|c: Seq<char>|
                is_pending(w, c, bounty_id) ==> (#[trigger] after.claims[c]).status == "rejected"@
            &&& forall|c: Seq<char>|
                w.claims.dom().contains(c) && w.claims[c].bounty_id != bounty_id
                    ==> #[trigger] after.claims[c] == w.claims[c]
            &&& forall|b: Seq<char>|
                b != bounty_id && w.bounties.dom().contains(b) ==> #[trigger] after.bounties[b]
                    == w.bounties[b]
        }),
{
    lemma_statuses();
    let ws = cancellation_writes(bounty_id);
    assert(ws.drop_last() =~= seq![ws[0]]);
    assert(ws.drop_last().drop_last() =~= seq![]);
    reveal_with_fuel(apply_bounty_writes, 3);
}

/// Credits that were held for a bounty and refunded are all back: every balance has the value that
/// it had before the bounty was posted. The balance and the amount have to be such that both can be
/// held with the same digits behind the point, without which the hold is rounded.
pub proof fn law_refund_undoes_hold(
    b: Balances,
    funder_id: Seq<char>,
    amount: Dec,
    bounty_id: Seq<char>,
)
    requires
        sound(b),
        is_decimal(amount),
        amount.mantissa > 0,
        units(balance_of(b, funder_id)) >= units(amount),
        alignable(balance_of(b, funder_id), amount),
    ensures
        run_transaction(b, hold(funder_id, amount, bounty_id)) is Done,
        ({
            let held = run_transaction(b, hold(funder_id, amount, bounty_id))->Done_0;
            let back = run_transaction(
                held,
                payout(funder_id, amount, TxKind::BountyRefund, bounty_id),
            );
            &&& back is Done
            &&& forall|id: Seq<char>|
                units(#[trigger] balance_of(back->Done_0, id)) == units(balance_of(b, id))
        }),
{
    let h = hold(funder_id, amount, bounty_id);
    let p = payout(funder_id, amount, TxKind::BountyRefund, bounty_id);
    law_transaction_moves_its_amount(b, h);
    let held = run_transaction(b, h)->Done_0;
    let balance = balance_of(b, funder_id);
    assert(is_decimal(balance));
    law_value_has_sign_of_mantissa(balance);
    law_value_has_sign_of_mantissa(amount);
    law_difference_of_alignable_is_exact(balance, amount);
    law_difference_can_be_undone(balance, amount);
    assert(balance_of(held, funder_id) == exact_difference(balance, amount));
    law_transaction_moves_its_amount(held, p);
    let back = run_transaction(held, p)->Done_0;
    assert forall|id: Seq<char>|
        units(#[trigger] balance_of(back, id)) == units(balance_of(b, id)) by {
        assert(units(balance_of(back, id)) == units(balance_of(held, id)) + gain(p, id));
        assert(units(balance_of(held, id)) == units(balance_of(b, id)) + gain(h, id));
    }
}

/// Credits that were held for a bounty and released have moved from the funder to the claimant, and
/// no one else's balance has changed.
pub proof fn law_release_pays_what_was_held(
    b: Balances,
    funder_id: Seq<char>,
    claimant_id: Seq<char>,
    amount: Dec,
    bounty_id: Seq<char>,
)
    requires
        sound(b),
        is_decimal(amount),
        amount.mantissa > 0,
        funder_id != claimant_id,
        units(balance_of(b, funder_id)) >= units(amount),
        alignable(balance_of(b, funder_id), amount),
        sum_is_exact(balance_of(b, claimant_id), amount),
    ensures
        run_transaction(b, hold(funder_id, amount, bounty_id)) is Done,
        ({
            let held = run_transaction(b, hold(funder_id, amount, bounty_id))->Done_0;
            let paid = run_transaction(
                held,
                payout(claimant_id, amount, TxKind::BountyRelease, bounty_id),
            );
            &&& paid is Done
            &&& units(balance_of(paid->Done_0, funder_id)) == units(balance_of(b, funder_id))
                - units(amount)
            &&& units(balance_of(paid->Done_0, claimant_id)) == units(balance_of(b, claimant_id))
                + units(amount)
            &&& forall|id: Seq<char>|
                id != funder_id && id != claimant_id ==> units(
                    #[trigger] balance_of(paid->Done_0, id),
                ) == units(balance_of(b, id))
        }),
{
    let h = hold(funder_id, amount, bounty_id);
    let p = payout(claimant_id, amount, TxKind::BountyRelease, bounty_id);
    law_transaction_moves_its_amount(b, h);
    let held = run_transaction(b, h)->Done_0;
    assert(balance_of(held, claimant_id) == balance_of(b, claimant_id));
    law_transaction_moves_its_amount(held, p);
    let paid = run_transaction(held, p)->Done_0;
    assert forall|id: Seq<char>|
        units(#[trigger] balance_of(paid, id)) == units(balance_of(b, id)) + gain(h, id) + gain(
            p,
            id,
        ) by {
        assert(units(balance_of(paid, id)) == units(balance_of(held, id)) + gain(p, id));
        assert(units(balance_of(held, id)) == units(balance_of(b, id)) + gain(h, id));
    }
}

/// Only the funder of an open bounty settles it, for the amount that the bounty states; anyone else
/// is refused, and so is everyone where there is no open bounty.
pub proof fn law_only_the_funder_settles(funder: Seq<char>, amount: Seq<char>, agent: Seq<char>)
    ensures
        to_pay(None, agent) == Err::<Dec, Status>(Status::NotFound),
        agent != funder ==> to_pay(Some((funder, amount)), agent) == Err::<Dec, Status>(
            Status::Forbidden,
        ),
        to_pay(Some((funder, amount)), funder) matches Ok(d) ==> parsed_decimal(amount) == Some(d),
        to_pay(Some((funder, amount)), funder) is Ok <==> parsed_decimal(amount) is Some,
        to_pay(Some((funder, amount)), funder) matches Err(e) ==> e == Status::InternalServerError,
{
}

/// A bounty is worth more than nothing: the amount of one is the number in its text, and a text that
/// is no number, or none above zero, is the amount of no bounty.
pub proof fn law_bounties_are_worth_something(text: Seq<char>)
    ensures
        positive_amount(text) matches Some(d) ==> parsed_decimal(text) == Some(d) && d.mantissa > 0,
        positive_amount(text) is None ==> parsed_decimal(text) is None || parsed_decimal(
            text,
        ).unwrap().mantissa <= 0,
{
}

/// A bounty is on an issue or on a request, and on one of them only; it is shown with the one it is
/// on.
pub proof fn law_a_bounty_has_one_target(body: CreateBounty, id: Seq<char>)
    ensures
        has_one_target(body) <==> (body.issue_id is Some && body.request_id is None) || (
        body.issue_id is None && body.request_id is Some),
        target_text(Some(id), None) == "issue:"@ + id,
        target_text(None, Some(id)) == "request:"@ + id,
{
}

/// The ledger tells what the credits of a bounty did: they leave the funder when they are held and
/// come to the one who is paid, and both rows name the bounty, the amount and what it was for.
pub proof fn law_ledger_follows_the_bounty(
    funder: Seq<char>,
    payee: Seq<char>,
    amount: Dec,
    bounty: Seq<char>,
    row: Seq<char>,
)
    ensures
        ({
            let held = ledger_row(hold(funder, amount, bounty), row);
            let released = ledger_row(payout(payee, amount, TxKind::BountyRelease, bounty), row);
            let refunded = ledger_row(payout(payee, amount, TxKind::BountyRefund, bounty), row);
            &&& held.from_agent_id == Some(funder) && held.to_agent_id is None
            &&& released.to_agent_id == Some(payee) && released.from_agent_id is None
            &&& refunded.to_agent_id == Some(payee) && refunded.from_agent_id is None
            &&& held.reference_id == Some(bounty) && released.reference_id == Some(bounty)
                && refunded.reference_id == Some(bounty)
            &&& held.kind == "bounty_hold"@ && released.kind == "bounty_release"@ && refunded.kind
                == "bounty_refund"@
            &&& held.amount == decimal_text(amount) && released.amount == held.amount
                && refunded.amount == held.amount
            &&& held.id == row && released.id == row && refunded.id == row
        }),
{
}

/// A claim that is made is pending on its bounty, and a bounty that is posted is open for what its
/// funder put up; neither touches what was there before.
pub proof fn law_claims_and_bounties_are_added(
    w: Bounties,
    id: Seq<char>,
    bounty_id: Seq<char>,
    person: Seq<char>,
    amount: Seq<char>,
    other: Seq<char>,
    evidence: Seq<char>,
    target: Option<Seq<char>>,
)
    requires
        other != id,
    ensures
        ({
            let claimed = apply_bounty_write(
                w,
                BountyWriteView::InsertClaim { id, bounty_id, claimant_id: person, evidence },
            );
            &&& is_pending(claimed, id, bounty_id)
            &&& claimed.claims[id].claimant_id == person
            &&& claimed.bounties == w.bounties
            &&& is_pending(claimed, other, bounty_id) == is_pending(w, other, bounty_id)
        }),
        ({
            let posted = apply_bounty_write(
                w,
                BountyWriteView::InsertBounty {
                    id,
                    funder_id: person,
                    issue_id: target,
                    request_id: None,
                    amount,
                    status: "open"@,
                },
            );
            &&& found_open(posted, id) == Some((person, amount))
            &&& found_open(posted, other) == found_open(w, other)
            &&& posted.claims == w.claims
        }),
{
}

/// What a value says in contracts is what its fields say, each in its own place.
pub proof fn law_views_show_every_field(
    bounty_write: BountyWrite,
    bounty_response: BountyResponse,
    claim_response: ClaimResponse,
)
    ensures
        bounty_write@ == (match bounty_write {
            BountyWrite::InsertBounty { id, funder_id, issue_id, request_id, amount, status } => {
                BountyWriteView::InsertBounty {
                    id: id@,
                    funder_id: funder_id@,
                    issue_id: opt_text(issue_id),
                    request_id: opt_text(request_id),
                    amount: amount@,
                    status: status@,
                }
            },
            BountyWrite::InsertClaim { id, bounty_id, claimant_id, evidence } => {
                BountyWriteView::InsertClaim {
                    id: id@,
                    bounty_id: bounty_id@,
                    claimant_id: claimant_id@,
                    evidence: evidence@,
                }
            },
            BountyWrite::SetClaimStatus { claim_id, status } => {
                BountyWriteView::SetClaimStatus { claim_id: claim_id@, status: status@ }
            },
            BountyWrite::RejectPendingClaims { bounty_id } => {
                BountyWriteView::RejectPendingClaims { bounty_id: bounty_id@ }
            },
            BountyWrite::SetBountyStatus { bounty_id, status } => {
                BountyWriteView::SetBountyStatus { bounty_id: bounty_id@, status: status@ }
            },
        }),
        bounty_response@.id == bounty_response.id@,
        bounty_response@.funder_name == bounty_response.funder_name@,
        bounty_response@.issue_id == opt_text(bounty_response.issue_id),
        bounty_response@.request_id == opt_text(bounty_response.request_id),
        bounty_response@.amount == bounty_response.amount@,
        bounty_response@.status == bounty_response.status@,
        bounty_response@.created_at == bounty_response.created_at@,
        claim_response@.id == claim_response.id@,
        claim_response@.bounty_id == claim_response.bounty_id@,
        claim_response@.claimant_name == claim_response.claimant_name@,
        claim_response@.evidence == claim_response.evidence@,
        claim_response@.status == claim_response.status@,
{
}

/// A bounty is shown in a line: its status, its amount, what it is on, and who funds it.
pub proof fn law_bounty_is_shown_in_a_line(b: BountyResponse)
    ensures
        split(b.text(), '\n') == split("["@ + b.status@ + "] "@ + b.amount@ + " credits on "@ + target_text(opt_text(b.issue_id), opt_text(b.request_id)) + " by "@ + b.funder_name@, '\n')
            + seq![Seq::<char>::empty()],
{
    reveal_strlit("\n");
    let line0 = "["@ + b.status@ + "] "@ + b.amount@ + " credits on "@ + target_text(opt_text(b.issue_id), opt_text(b.request_id)) + " by "@ + b.funder_name@;
    let end = Seq::<char>::empty();
    assert(b.text() =~= line0 + seq!['\n'] + end);
    lemma_ended_line(line0, end);
}

/// A claim is shown in a line: its status, who makes it, and the evidence for it.
pub proof fn law_claim_is_shown_in_a_line(c: ClaimResponse)
    ensures
        split(c.text(), '\n') == split("["@ + c.status@ + "] claim by "@ + c.claimant_name@ + " | "@ + c.evidence@, '\n')
            + seq![Seq::<char>::empty()],
{
    reveal_strlit("\n");
    let line0 = "["@ + c.status@ + "] claim by "@ + c.claimant_name@ + " | "@ + c.evidence@;
    let end = Seq::<char>::empty();
    assert(c.text() =~= line0 + seq!['\n'] + end);
    lemma_ended_line(line0, end);
}

/// A list says in contracts what its items say, one for one and in their order.
pub proof fn law_items_are_read_one_for_one(v: Seq<BountyWrite>)
    ensures
        bounty_writes(v).len() == v.len(),
        forall|i: int| 0 <= i < v.len() ==> #[trigger] bounty_writes(v)[i] == v[i]@,
{
}

/// There is a text for every answer; a list has one where each of its items has.
pub proof fn law_answers_can_be_shown(
    bounty_response: BountyResponse,
    claim_response: ClaimResponse,
)
    ensures
        bounty_response.renders(),
        claim_response.renders(),
{
}

/// A bounty is settled by who funded it and what it is worth, and only where there is one.
pub proof fn law_settling_goes_by_funder_and_amount(b: OpenBounty)
    ensures
        settled_by(Some(b)) == Some((b.funder_id@, b.amount@)),
        settled_by(None) is None,
{
}

/// Only what is pending on the bounty is rejected, and nothing but its status changes.
pub proof fn law_only_pending_claims_are_rejected(c: ClaimRecord, bounty_id: Seq<char>)
    ensures
        c.bounty_id == bounty_id && c.status == "pending"@ ==> rejected_claim(c, bounty_id).status
            == "rejected"@,
        c.bounty_id != bounty_id || c.status != "pending"@ ==> rejected_claim(c, bounty_id) == c,
        (ClaimRecord { status: c.status, ..rejected_claim(c, bounty_id) }) == c,
{
}

} // verus!
