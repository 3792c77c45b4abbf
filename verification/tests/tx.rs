use constantinople::tx::address;
use constantinople::tx::keygen;
use constantinople::tx::shared::{parse_address, parse_private_key, submit_transaction, tx_url};
use constantinople::tx::spam::{build_ring_accounts, next_ring_transfer, Tally};
use constantinople::tx::transfer;

#[test]
fn tx_ring_accounts_close_the_ring() {
    let accounts = build_ring_accounts(3, 11, 7);

    assert_eq!(accounts.len(), 3);
    assert_eq!(accounts[0].to, accounts[1].from);
    assert_eq!(accounts[1].to, accounts[2].from);
    assert_eq!(accounts[2].to, accounts[0].from);
}

#[test]
fn next_ring_transfer_increments_sender_nonce() {
    let mut accounts = build_ring_accounts(2, 11, 7);
    let mut cursor = 0usize;

    let first = next_ring_transfer(&mut accounts, &mut cursor);
    let second = next_ring_transfer(&mut accounts, &mut cursor);

    assert_eq!(first.nonce, 7);
    assert_eq!(first.value, 1);
    assert_eq!(second.nonce, 7);

    let third = next_ring_transfer(&mut accounts, &mut cursor);
    assert_eq!(third.from, first.from);
    assert_eq!(third.nonce, 8);
}

#[test]
fn keys_are_shown() {
    let keys = keygen::run(&keygen::Args { seed: 7 });
    let lines = keygen::key_lines(&keys, &[0xab, 0xcd]);
    assert_eq!(
        lines[0],
        format!("private_key: {}", commonware_formatting::hex(&keys.private_key))
    );
    assert_eq!(
        lines[1],
        format!("public_key:  {}", commonware_formatting::hex(&keys.public_key))
    );
    assert_eq!(lines[2], "address:     abcd");

    let read = address::run(&address::Args {
        pubkey: commonware_formatting::hex(&keys.public_key),
    });
    assert_eq!(read, Ok(keys.public_key));
    assert_eq!(address::address_line(&[0x0f]), "0f");
}

#[test]
fn broken_keys_are_rejected() {
    let read = |pubkey: &str| {
        address::run(&address::Args {
            pubkey: pubkey.to_string(),
        })
    };
    assert_eq!(read("zz"), Err("bad pubkey hex".to_string()));
    assert_eq!(read("00"), Err("failed to decode public key".to_string()));
    assert_eq!(
        parse_private_key("zz"),
        Err("bad private key hex".to_string())
    );
    assert_eq!(
        parse_private_key("00"),
        Err("failed to decode private key".to_string())
    );
    assert_eq!(parse_private_key(&"01".repeat(33)), Ok(vec![1; 32]));
    assert_eq!(parse_address("0a0b"), Ok(vec![10, 11]));
    assert_eq!(parse_address("0x0a0b"), Ok(vec![10, 11]));
    assert_eq!(parse_address("0"), Err("bad address hex".to_string()));
}

fn transfer_args() -> transfer::Args {
    transfer::Args {
        key: "02".repeat(32),
        to: "0a".to_string(),
        value: 5,
        nonce: 3,
        endpoint: "http://localhost:8080/".to_string(),
    }
}

#[test]
fn transfers_are_planned() {
    let plan = transfer::run(&transfer_args()).unwrap_or_else(|reason| panic!("{reason}"));
    assert_eq!(plan.key, vec![2; 32]);
    assert_eq!(plan.to, vec![10]);
    assert_eq!((plan.value, plan.nonce), (5, 3));
    assert_eq!(plan.url, "http://localhost:8080/tx");

    let mut slashed = transfer_args();
    slashed.value = 0;
    slashed.endpoint = "http://a//".to_string();
    let direct = transfer::run_direct(&slashed).unwrap_or_else(|reason| panic!("{reason}"));
    assert_eq!(direct.url, "http://a///tx");
    assert_eq!(direct.value, 0);
    assert_eq!(direct.to, vec![10]);
    slashed.key = "00".to_string();
    assert_eq!(
        transfer::run_direct(&slashed).err().as_deref(),
        Some("failed to decode private key")
    );

    let addressed = transfer::address_transfer(plan, Some(vec![7; 32]))
        .unwrap_or_else(|reason| panic!("{reason}"));
    assert_eq!(addressed.to, vec![7; 32]);
    assert_eq!(addressed.key, vec![2; 32]);
    assert_eq!((addressed.value, addressed.nonce), (5, 3));

    let mut args = transfer_args();
    args.value = 0;
    let nothing = || transfer::run(&args).unwrap_or_else(|reason| panic!("{reason}"));
    assert_eq!(
        transfer::address_transfer(nothing(), Some(vec![7; 32])).err().as_deref(),
        Some("transfer value must be non-zero")
    );
    assert_eq!(
        transfer::address_transfer(nothing(), None).err().as_deref(),
        Some("failed to decode address")
    );
    let mut args = transfer_args();
    args.to = "x".to_string();
    assert_eq!(transfer::run(&args).err().as_deref(), Some("bad address hex"));
    let mut args = transfer_args();
    args.key = "x".to_string();
    assert_eq!(
        transfer::run(&args).err().as_deref(),
        Some("bad private key hex")
    );
}

#[test]
fn submissions_are_answered() {
    assert_eq!(tx_url("http://a//"), "http://a/tx");
    assert_eq!(
        submit_transaction(true, "200 OK", "hash".to_string()),
        Ok("hash".to_string())
    );
    assert_eq!(
        submit_transaction(false, "400 Bad Request", "bad".to_string()),
        Err("error (400 Bad Request): bad".to_string())
    );
}

#[test]
fn failures_are_counted() {
    let mut tally = Tally::new();
    tally.drain_completed_submissions(&vec![Ok("a".to_string())]);
    assert_eq!(tally.result(), Ok(()));
    tally.drain_completed_submissions(&vec![Err("x".to_string()), Ok("b".to_string())]);
    assert_eq!((tally.completed, tally.failed), (3, 1));
    assert_eq!(tally.result(), Err("failed: 1".to_string()));
}
