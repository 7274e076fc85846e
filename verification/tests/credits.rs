use agentcoderepo::credits::{
    deposit_credits, deposit_response, get_balance, read_balance, request_amount, transact,
    transact_receiver, transact_record, transact_sender, transfer_credits, transfer_response,
    TransactStep, Transaction, TxKind, INITIAL_BALANCE,
};
use agentcoderepo::bounties::{
    approve_claim, cancel_bounty, check_bounty, claim_bounty, create_bounty, settle_bounty,
    BountyWrite, ClaimBounty, CreateBounty, OpenBounty,
};
use agentcoderepo::decimal::Amount;
use agentcoderepo::format::TextFormat;
use agentcoderepo::status::Status;

fn amount(s: &str) -> Amount {
    Amount::parse(s).unwrap()
}

fn s(x: &str) -> String {
    x.to_string()
}

/// How a transaction ends that does not go through.
#[derive(Debug, PartialEq)]
enum Stop {
    Refused(Status),
    Overflow,
}

/// Runs a transaction on the balances of the agent that pays and of the other one.
fn run(tx: Transaction, sender: &str, receiver: &str) -> Result<(String, String), Stop> {
    let mut held = [s(sender), s(receiver)];
    let payer = tx.from_agent_id.clone();
    let of = |id: &str| if Some(id) == payer.as_deref() { 0 } else { 1 };
    let mut step = transact(&tx, "e1");
    loop {
        step = match step {
            TransactStep::ReadSender(id) => {
                transact_sender(&tx, "e1", &read_balance(Some(&held[of(&id)])).unwrap())
            }
            TransactStep::ReadReceiver(id, left) => {
                let balance = read_balance(Some(&held[of(&id)])).unwrap();
                transact_receiver(&tx, "e1", &id, left, &balance)
            }
            TransactStep::Apply(settlement) => {
                for (id, balance) in &settlement.writes {
                    held[of(id)] = balance.text();
                }
                assert_eq!(settlement.entry.id, "e1");
                assert_eq!(settlement.entry.amount, tx.amount.text());
                let [from, to] = held;
                return Ok((from, to));
            }
            TransactStep::Refuse(e) => return Err(Stop::Refused(e)),
            TransactStep::Overflow => return Err(Stop::Overflow),
        }
    }
}

fn transfer(x: &str) -> Transaction {
    transfer_credits("a", Some(s("b")), amount(x)).unwrap()
}

#[test]
fn transfer_moves_credits() {
    assert_eq!(run(transfer("2.5"), "10", "1").unwrap(), (s("7.5"), s("3.5")));
    assert_eq!(run(transfer("10"), "10", "0").unwrap(), (s("0"), s("10")));
    assert_eq!(run(transfer("10.01"), "10", "0"), Err(Stop::Refused(Status::PaymentRequired)));
    assert_eq!(run(transfer("0"), "10", "0"), Err(Stop::Refused(Status::BadRequest)));
    assert_eq!(run(transfer("-1"), "10", "0"), Err(Stop::Refused(Status::BadRequest)));
    assert_eq!(transfer_credits("a", None, amount("1")).err(), Some(Status::NotFound));
}

#[test]
fn nothing_is_written_before_both_balances_are_known() {
    let tx = transfer("2");
    assert!(matches!(transact(&tx, "e1"), TransactStep::ReadSender(id) if id == "a"));
    let step = transact_sender(&tx, "e1", &amount("5"));
    assert!(matches!(&step, TransactStep::ReadReceiver(id, Some(left)) if id == "b" && left.text() == "3"));
    // A receiver whose balance cannot grow: the sender keeps what it has.
    let max = "79228162514264337593543950335";
    assert_eq!(run(transfer("2"), "5", max), Err(Stop::Overflow));
    match transact_receiver(&tx, "e1", "b", Some(amount("3")), &amount("1")) {
        TransactStep::Apply(settlement) => {
            let writes: Vec<(&str, String)> =
                settlement.writes.iter().map(|(id, b)| (id.as_str(), b.text())).collect();
            assert_eq!(writes, vec![("a", s("3")), ("b", s("3"))]);
            assert_eq!(settlement.entry.kind, "transfer");
        }
        other => panic!("{other:?}"),
    }
}

#[test]
fn agent_that_pays_itself_has_what_it_had() {
    let tx = || transfer_credits("a", Some(s("a")), amount("4")).unwrap();
    assert_eq!(run(tx(), "10", "0").unwrap(), (s("10"), s("0")));
    assert_eq!(run(tx(), "3", "0"), Err(Stop::Refused(Status::PaymentRequired)));
}

#[test]
fn deposit_adds_credits() {
    let tx = deposit_credits(Some(s("b")), amount("0.25")).unwrap();
    assert_eq!(run(tx, "9", "1.75").unwrap(), (s("9"), s("2.00")));
    assert_eq!(deposit_credits(None, amount("1")).err(), Some(Status::NotFound));
}

#[test]
fn ledger_entry_names_its_kind() {
    let entry = transact_record(&transfer("2.50"), "e1");
    assert_eq!(entry.amount, "2.50");
    assert_eq!(entry.kind, "transfer");
    assert_eq!(entry.from_agent_id.as_deref(), Some("a"));
    assert_eq!(entry.to_agent_id.as_deref(), Some("b"));
    for (kind, name) in [
        (TxKind::Deposit, "deposit"),
        (TxKind::BountyHold, "bounty_hold"),
        (TxKind::BountyRelease, "bounty_release"),
        (TxKind::BountyRefund, "bounty_refund"),
        (TxKind::Purchase, "purchase"),
    ] {
        assert_eq!(kind.as_str(), name);
    }
}

#[test]
fn amounts_are_decimals() {
    assert_eq!(amount("1.10").text(), "1.10");
    assert_eq!(amount("0.1").plus(&amount("0.2")).unwrap().text(), "0.3");
    assert_eq!(amount("1").minus(&amount("0.01")).unwrap().text(), "0.99");
    assert_eq!(amount("1.5").times(&Amount::whole(100)).unwrap().text(), "150.0");
    assert!(amount("1.09").less_than(&amount("1.1")));
    assert!(!amount("1.10").less_than(&amount("1.1")));
    assert!(amount("0.01").is_positive() && !amount("0").is_positive());
    assert!(Amount::parse("abc").is_none());
    let max = amount("79228162514264337593543950335");
    assert!(max.plus(&Amount::whole(1)).is_none());
    assert!(max.times(&Amount::whole(2)).is_none());
    assert!(amount("-79228162514264337593543950335").minus(&Amount::whole(1)).is_none());
}

#[test]
fn balances_are_shown() {
    assert_eq!(get_balance(&amount(INITIAL_BALANCE)).balance, "0");
    assert_eq!(get_balance(&amount("4.5")).to_text(), "balance: 4.5\n");
    assert_eq!(read_balance(None).err(), Some(Status::InternalServerError));
    assert_eq!(read_balance(Some("junk")).err(), Some(Status::InternalServerError));
    assert_eq!(request_amount("junk").err(), Some(Status::BadRequest));
    assert_eq!(request_amount("3").unwrap().text(), "3");
    assert_eq!(
        transfer_response(&amount("7"), &amount("3")).to_text(),
        "transferred: 3\nremaining: 7\n"
    );
    assert_eq!(
        deposit_response(s("bot"), &amount("7"), &amount("3")).to_text(),
        "deposited 3 to bot\nnew balance: 7\n"
    );
}

fn bounty(issue: Option<&str>, request: Option<&str>, x: &str) -> CreateBounty {
    CreateBounty { issue_id: issue.map(s), request_id: request.map(s), amount: s(x) }
}

#[test]
fn bounty_is_on_one_thing() {
    assert_eq!(check_bounty(&bounty(Some("i"), None, "5")).unwrap().text(), "5");
    assert_eq!(check_bounty(&bounty(None, None, "5")).err(), Some(Status::BadRequest));
    assert_eq!(check_bounty(&bounty(Some("i"), Some("r"), "5")).err(), Some(Status::BadRequest));
    assert_eq!(check_bounty(&bounty(None, Some("r"), "0")).err(), Some(Status::BadRequest));
    assert_eq!(check_bounty(&bounty(None, Some("r"), "x")).err(), Some(Status::BadRequest));
}

#[test]
fn bounty_holds_and_releases_credits() {
    let plan =
        create_bounty(bounty(Some("i"), None, "5"), amount("5"), true, s("b1"), s("f"), s("fred"))
            .unwrap();
    assert_eq!(plan.transaction.kind, TxKind::BountyHold);
    assert_eq!(plan.transaction.from_agent_id.as_deref(), Some("f"));
    assert_eq!(plan.transaction.to_agent_id, None);
    assert_eq!(plan.response.to_text(), "[open] 5 credits on issue:i by fred\n");
    assert_eq!(run(plan.transaction, "12", "0").unwrap(), (s("7"), s("0")));
    assert_eq!(
        create_bounty(bounty(Some("i"), None, "5"), amount("5"), false, s("b1"), s("f"), s("fred"))
            .err(),
        Some(Status::NotFound)
    );

    let open = || OpenBounty {
        id: s("b1"),
        funder_id: s("f"),
        funder_name: s("fred"),
        amount: s("5"),
        issue_id: Some(s("i")),
        request_id: None,
    };
    assert_eq!(settle_bounty(&Some(open()), "f").unwrap().text(), "5");
    assert_eq!(settle_bounty(&Some(open()), "x").err(), Some(Status::Forbidden));
    assert_eq!(settle_bounty(&None, "f").err(), Some(Status::NotFound));

    let plan = approve_claim(open(), amount("5"), s("c1"), Some(s("winner"))).unwrap();
    assert_eq!(plan.transaction.kind, TxKind::BountyRelease);
    assert_eq!(plan.transaction.to_agent_id.as_deref(), Some("winner"));
    assert_eq!(plan.response.status, "completed");
    assert!(matches!(&plan.writes[0], BountyWrite::SetClaimStatus { claim_id, status }
        if claim_id == "c1" && status == "approved"));
    assert_eq!(run(plan.transaction, "7", "1").unwrap(), (s("7"), s("6")));
    assert_eq!(approve_claim(open(), amount("5"), s("c1"), None).err(), Some(Status::NotFound));

    let (tx, writes) = cancel_bounty(open(), amount("5"));
    assert_eq!(tx.kind, TxKind::BountyRefund);
    assert_eq!(tx.to_agent_id.as_deref(), Some("f"));
    assert!(!writes.is_empty());
}

#[test]
fn open_bounty_can_be_claimed() {
    let claim = |status: Option<&str>| {
        claim_bounty(
            status.map(s),
            s("c1"),
            s("b1"),
            s("w"),
            s("winner"),
            ClaimBounty { evidence: s("see commit") },
        )
    };
    let (_, response) = claim(Some("open")).unwrap();
    assert_eq!(response.to_text(), "[pending] claim by winner | see commit\n");
    assert_eq!(claim(Some("completed")).err(), Some(Status::Conflict));
    assert_eq!(claim(None).err(), Some(Status::NotFound));
}
