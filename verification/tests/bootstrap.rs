use snarkos_storage::bootstrap::{secondary_path, Answer, Bootstrap, Mode, Request, Step};
use snarkos_storage::codec::u32_to_bytes;
use snarkos_storage::error::LedgerError;
use snarkos_storage::ledger::Ledger;
use snarkos_storage::store::Read;

fn entry(commitment: &[u8], index: u32) -> (Vec<u8>, Vec<u8>) {
    (commitment.to_vec(), u32_to_bytes(index))
}

fn ledger(height: u32, leaves: &[&[u8]]) -> Ledger {
    Ledger { current_block_height: height, cm_merkle_tree: leaves.iter().map(|l| l.to_vec()).collect() }
}

fn pending(step: Step) -> (Bootstrap, Request) {
    match step {
        Step::Ask(state, request) => (state, request),
        other => panic!("{:?}", other),
    }
}

fn db() -> Vec<u8> {
    b"db".to_vec()
}

fn height_read(path: &[u8], secondary_path: Option<&[u8]>) -> Request {
    Request::Get {
        path: path.to_vec(),
        secondary_path: secondary_path.map(|p| p.to_vec()),
        read: Read { col: 0, key: b"BEST_BLOCK_NUMBER".to_vec() },
    }
}

fn assert_genesis(request: Request, at: Option<Vec<u8>>) {
    match request {
        Request::InstallGenesis { path, genesis } => {
            assert_eq!(path, at);
            assert_eq!(genesis.len(), 2627);
        }
        other => panic!("{:?}", other),
    }
}

#[test]
fn secondary_path_appends_suffix() {
    assert_eq!(secondary_path(&b"/tmp/ledger".to_vec()), b"/tmp/ledger_secondary".to_vec());
    assert_eq!(secondary_path(&Vec::new()), b"_secondary".to_vec());
    assert_eq!(secondary_path(&vec![0xff, 0xfe]), [&[0xff, 0xfe][..], &b"_secondary"[..]].concat());
}

#[test]
fn reopening_primary_restores_height_and_sorted_leaves() {
    let (state, request) = pending(Ledger::open_at_path(db()));
    assert_eq!(state, Bootstrap::Preparing { path: db(), mode: Mode::Primary });
    assert_eq!(request, Request::CreateDirectory { path: db() });

    let (state, request) = pending(Ledger::load_ledger_state(state, Answer::DirectoryCreated));
    assert_eq!(state, Bootstrap::ReadingHeight { path: db(), mode: Mode::Primary });
    assert_eq!(request, height_read(b"db", None));

    let (state, request) =
        pending(Ledger::load_ledger_state(state, Answer::Value(Some(vec![0x2a, 1, 0, 0]))));
    assert_eq!(state, Bootstrap::Scanning { height: 298 });
    assert_eq!(request, Request::GetColumn { path: db(), secondary_path: None, col: 5 });

    let scan = vec![entry(b"A", 2), entry(b"B", 0), entry(b"C", 1)];
    let (state, request) = pending(Ledger::load_ledger_state(state, Answer::Column(scan)));
    assert_eq!(state, Bootstrap::Building { ledger: ledger(298, &[b"B", b"C", b"A"]) });
    assert_eq!(request, Request::BuildTree);

    let done = Ledger::load_ledger_state(state, Answer::TreeBuilt);
    assert_eq!(done, Step::Done(ledger(298, &[b"B", b"C", b"A"])));
}

#[test]
fn new_primary_installs_genesis_and_starts_at_height_zero() {
    let (state, _) = pending(Ledger::open_at_path(b"fresh".to_vec()));
    let (state, _) = pending(Ledger::load_ledger_state(state, Answer::DirectoryCreated));
    let (state, request) = pending(Ledger::load_ledger_state(state, Answer::Value(None)));
    assert_eq!(state, Bootstrap::InstallingPrimary);
    assert_genesis(request, Some(b"fresh".to_vec()));
    let genesis_leaves = vec![b"g0".to_vec(), b"g1".to_vec()];
    let done = Ledger::load_ledger_state(state, Answer::GenesisInstalled(genesis_leaves));
    assert_eq!(done, Step::Done(ledger(0, &[b"g0", b"g1"])));
}

#[test]
fn secondary_without_primary_bootstraps_one_then_reopens() {
    let (state, request) = pending(Ledger::open_secondary_at_path(db()));
    assert_eq!(state, Bootstrap::Preparing { path: db(), mode: Mode::Secondary });
    assert_eq!(request, Request::CreateDirectory { path: db() });

    let (state, request) = pending(Ledger::load_ledger_state(state, Answer::DirectoryCreated));
    assert_eq!(request, height_read(b"db", Some(b"db_secondary")));

    let (state, request) = pending(Ledger::load_ledger_state(state, Answer::Value(None)));
    assert_eq!(state, Bootstrap::InstallingForSecondary { path: db() });
    assert_genesis(request, Some(db()));

    let installed = Answer::GenesisInstalled(vec![b"g0".to_vec()]);
    let (state, request) = pending(Ledger::load_ledger_state(state, installed));
    assert_eq!(state, Bootstrap::ReadingHeight { path: db(), mode: Mode::SecondaryAgain });
    assert_eq!(request, height_read(b"db", Some(b"db_secondary")));

    let (state, request) =
        pending(Ledger::load_ledger_state(state, Answer::Value(Some(u32_to_bytes(0)))));
    assert_eq!(state, Bootstrap::Scanning { height: 0 });
    assert_eq!(
        request,
        Request::GetColumn { path: db(), secondary_path: Some(b"db_secondary".to_vec()), col: 5 }
    );

    let scan = vec![entry(b"g1", 1), entry(b"g0", 0)];
    let (state, request) = pending(Ledger::load_ledger_state(state, Answer::Column(scan)));
    assert_eq!(request, Request::BuildTree);
    let done = Ledger::load_ledger_state(state, Answer::TreeBuilt);
    assert_eq!(done, Step::Done(ledger(0, &[b"g0", b"g1"])));
}

#[test]
fn secondary_gives_up_when_the_installed_primary_shows_no_height() {
    let state = Bootstrap::ReadingHeight { path: db(), mode: Mode::SecondaryAgain };
    assert_eq!(
        Ledger::load_ledger_state(state, Answer::Value(None)),
        Step::Failed(LedgerError::MissingBestBlockNumber)
    );
}

#[test]
fn new_empty_clears_the_path_and_installs_genesis() {
    let (state, request) = pending(Ledger::new_empty(Some(db())));
    assert_eq!(state, Bootstrap::Clearing { path: db() });
    assert_eq!(request, Request::ClearDirectory { path: db() });

    let (state, request) = pending(Ledger::load_ledger_state(state, Answer::DirectoryCleared));
    assert_eq!(state, Bootstrap::Preparing { path: db(), mode: Mode::Fresh });
    assert_eq!(request, Request::CreateDirectory { path: db() });

    let (state, request) = pending(Ledger::load_ledger_state(state, Answer::DirectoryCreated));
    assert_eq!(state, Bootstrap::ReadingHeight { path: db(), mode: Mode::Fresh });
    assert_eq!(request, height_read(b"db", None));

    let (state, request) = pending(Ledger::load_ledger_state(state, Answer::Value(None)));
    assert_eq!(state, Bootstrap::InstallingPrimary);
    assert_genesis(request, Some(db()));

    let done = Ledger::load_ledger_state(state, Answer::GenesisInstalled(vec![b"g".to_vec()]));
    assert_eq!(done, Step::Done(ledger(0, &[b"g"])));
}

#[test]
fn new_empty_never_loads_the_chain_that_was_there() {
    let reading = Bootstrap::ReadingHeight { path: db(), mode: Mode::Fresh };
    for stored in [u32_to_bytes(7), u32_to_bytes(0), vec![1, 2, 3], vec![]] {
        assert_eq!(
            Ledger::load_ledger_state(reading.clone(), Answer::Value(Some(stored))),
            Step::Failed(LedgerError::ExistingChain)
        );
    }
}

#[test]
fn new_empty_stops_when_the_path_cannot_be_cleared() {
    let (state, _) = pending(Ledger::new_empty(Some(db())));
    assert_eq!(
        Ledger::load_ledger_state(state, Answer::Failed(LedgerError::Storage)),
        Step::Failed(LedgerError::Storage)
    );
}

#[test]
fn new_empty_without_path_installs_genesis_in_memory() {
    let (state, request) = pending(Ledger::new_empty(None));
    assert_eq!(state, Bootstrap::InstallingPrimary);
    assert_genesis(request, None);
    let done = Ledger::load_ledger_state(state, Answer::GenesisInstalled(vec![b"g".to_vec()]));
    assert_eq!(done, Step::Done(ledger(0, &[b"g"])));
}

#[test]
fn failures_end_the_loading_with_their_error() {
    let states = vec![
        Bootstrap::Clearing { path: db() },
        Bootstrap::Preparing { path: db(), mode: Mode::Primary },
        Bootstrap::ReadingHeight { path: db(), mode: Mode::Secondary },
        Bootstrap::Scanning { height: 3 },
        Bootstrap::Building { ledger: ledger(3, &[b"a"]) },
    ];
    for state in states {
        for e in [LedgerError::Storage, LedgerError::Decode, LedgerError::Tree] {
            assert_eq!(Ledger::load_ledger_state(state.clone(), Answer::Failed(e)), Step::Failed(e));
        }
    }
}

#[test]
fn genesis_that_does_not_decode_ends_the_loading() {
    let decode = Answer::Failed(LedgerError::Decode);
    assert_eq!(
        Ledger::load_ledger_state(Bootstrap::InstallingPrimary, decode.clone()),
        Step::Failed(LedgerError::Decode)
    );
    assert_eq!(
        Ledger::load_ledger_state(Bootstrap::InstallingForSecondary { path: db() }, decode),
        Step::Failed(LedgerError::Decode)
    );
}

#[test]
fn malformed_stored_integers_end_the_loading() {
    let reading = Bootstrap::ReadingHeight { path: db(), mode: Mode::Primary };
    assert_eq!(
        Ledger::load_ledger_state(reading, Answer::Value(Some(vec![1, 2, 3, 4, 5]))),
        Step::Failed(LedgerError::MalformedInteger)
    );
    let scan = vec![entry(b"A", 0), (b"B".to_vec(), vec![1])];
    assert_eq!(
        Ledger::load_ledger_state(Bootstrap::Scanning { height: 1 }, Answer::Column(scan)),
        Step::Failed(LedgerError::MalformedInteger)
    );
}

#[test]
fn answers_out_of_turn_are_rejected() {
    let unexpected = Step::Failed(LedgerError::UnexpectedAnswer);
    let preparing = Bootstrap::Preparing { path: db(), mode: Mode::Primary };
    assert_eq!(Ledger::load_ledger_state(preparing.clone(), Answer::Value(None)), unexpected);
    assert_eq!(Ledger::load_ledger_state(preparing, Answer::DirectoryCleared), unexpected);
    let clearing = Bootstrap::Clearing { path: db() };
    assert_eq!(Ledger::load_ledger_state(clearing, Answer::DirectoryCreated), unexpected);
    let scanning = Bootstrap::Scanning { height: 1 };
    assert_eq!(Ledger::load_ledger_state(scanning.clone(), Answer::TreeBuilt), unexpected);
    assert_eq!(Ledger::load_ledger_state(scanning, Answer::Value(Some(vec![0; 4]))), unexpected);
    let building = Bootstrap::Building { ledger: ledger(1, &[]) };
    assert_eq!(Ledger::load_ledger_state(building, Answer::Column(vec![])), unexpected);
    assert_eq!(
        Ledger::load_ledger_state(Bootstrap::InstallingPrimary, Answer::TreeBuilt),
        unexpected
    );
    let installing = Bootstrap::InstallingForSecondary { path: db() };
    assert_eq!(Ledger::load_ledger_state(installing, Answer::DirectoryCreated), unexpected);
}

#[test]
fn empty_commitment_column_gives_empty_snapshot() {
    let (state, _) =
        pending(Ledger::load_ledger_state(Bootstrap::Scanning { height: 12 }, Answer::Column(vec![])));
    assert_eq!(Ledger::load_ledger_state(state, Answer::TreeBuilt), Step::Done(ledger(12, &[])));
}
