use maze_core::color::{red, white, Color};
use maze_core::endpoints::{address_url, status_url, tx_url, wants_tx_query};
use maze_core::messages::Messages;
use maze_core::miner::{CreateMiner, Miner, MinerDAO};
use maze_core::node_address::NodeAddress;
use maze_core::node_status::{Backend, Blockbook, NodeStatus};
use maze_core::node_tx::{NodeTx, Vin, Vout};
use maze_core::numtext::u32_to_string;
use maze_core::util::{NotFound, ResponseType};
use maze_core::wallet::{CreateWallet, Wallet, WalletDAO};

#[test]
fn numbers_render_in_decimal() {
    assert_eq!(u32_to_string(0), "0");
    assert_eq!(u32_to_string(7), "7");
    assert_eq!(u32_to_string(10), "10");
    assert_eq!(u32_to_string(305), "305");
    assert_eq!(u32_to_string(4294967295), "4294967295");
}

#[test]
fn endpoint_addresses_are_assembled_exactly() {
    assert_eq!(status_url(), "https://btcbook.nownodes.io/api/");
    assert_eq!(
        address_url("bc1qexample"),
        "https://btcbook.nownodes.io/api/v2/address/bc1qexample"
    );
    assert_eq!(
        tx_url("deadbeef"),
        "https://btcbook.nownodes.io/api/v2/tx/deadbeef"
    );
}

#[test]
fn answering_n_declines_the_transaction_listing() {
    assert!(!wants_tx_query("n"));
    assert!(!wants_tx_query(" n \n"));
    assert!(wants_tx_query("y"));
    assert!(wants_tx_query("no"));
    assert!(wants_tx_query(""));
}

#[test]
fn message_log_keeps_insertion_order() {
    let mut log = Messages::new();
    log.add("first".to_string(), red());
    log.add("second".to_string(), white());
    log.add("third".to_string(), red());
    assert_eq!(log.messages.len(), 3);
    assert_eq!(log.messages[0].0, "first");
    assert_eq!(log.messages[1].0, "second");
    assert_eq!(log.messages[2].0, "third");
    assert_eq!(log.messages[1].1, Color { r: 255, g: 255, b: 255 });
}

#[test]
fn not_found_keeps_its_message() {
    let n = NotFound::new("Miner not found!".to_string());
    assert_eq!(n.message, "Miner not found!");
}

#[test]
fn response_type_carries_its_payload() {
    let r: ResponseType<Vec<Miner>> = ResponseType::Okay(Vec::new());
    match r {
        ResponseType::Okay(v) => assert!(v.is_empty()),
        _ => panic!("expected the plain answer kind"),
    }
}

#[test]
fn pool_and_node_records_hold_their_fields() {
    let miner = Miner {
        id: "m1".to_string(),
        address: "addr".to_string(),
        nickname: "nick".to_string(),
        club_name: "club".to_string(),
        hash_rate: 90,
        mined_shares: 4,
    };
    assert_eq!(miner.hash_rate, 90);
    let create = CreateMiner { nickname: "nick".to_string() };
    assert_eq!(create.nickname, "nick");
    let dao = MinerDAO {
        id: "m1".to_string(),
        address: "addr".to_string(),
        nickname: "nick".to_string(),
        hash_rate: 90,
        mined_shares: 4,
    };
    assert_eq!(dao.mined_shares, 4);
    let wallet = Wallet {
        address: "addr".to_string(),
        club_name: "club".to_string(),
        total_hash_rate: 90,
        total_mined_shares: 4,
        total_online_workers: 1,
        online_workers: vec![miner],
    };
    assert_eq!(wallet.online_workers.len(), 1);
    let create_wallet = CreateWallet { club_name: "club".to_string() };
    assert_eq!(create_wallet.club_name, "club");
    let wallet_dao = WalletDAO { address: "addr".to_string(), club_name: "club".to_string() };
    assert_eq!(wallet_dao.club_name, "club");
    let status = NodeStatus {
        blockbook: Blockbook { coin: "Bitcoin".to_string() },
        backend: Backend { chain: "main".to_string() },
    };
    assert_eq!(status.blockbook.coin, "Bitcoin");
    assert_eq!(status.backend.chain, "main");
    let addr = NodeAddress { address: "a".to_string(), txids: vec!["t".to_string()] };
    assert_eq!(addr.txids.len(), 1);
    let tx = NodeTx {
        txid: "t".to_string(),
        vin: vec![Vin { value: "1".to_string(), addresses: vec![] }],
        vout: vec![Vout { value: "1".to_string(), addresses: vec![] }],
    };
    assert_eq!(tx.vin.len(), 1);
    assert_eq!(tx.vout.len(), 1);
}
