use vstd::prelude::*;
use vstd::string::*;

use crate::codec::bytes_to_u32;
use crate::error::LedgerError;
use crate::genesis::load_genesis_block;
use crate::ledger::{BlockHeight, Ledger, LedgerState};
use crate::scanner::order_commitments;
use crate::store::{Read, COL_COMMITMENT, SECONDARY_SUFFIX};

verus! {

/// What a store is opened for.
#[derive(Debug, Clone, Copy, PartialEq, Eq, Structural)]
pub enum Mode {
    /// A primary over whatever chain the store holds.
    Primary,
    /// A primary over a store that has just been cleared and must hold no
    /// chain.
    Fresh,
    /// A read-only secondary of the primary at the same path.
    Secondary,
    /// A read-only secondary, after its primary has been installed.
    SecondaryAgain,
}

impl Mode {
    /// The store is opened as a secondary.
    pub open spec fn is_secondary(self) -> bool {
        self == Mode::Secondary || self == Mode::SecondaryAgain
    }
}

/// Where the loading of a ledger stands while the caller works on the store.
/// A path is the bytes of its encoding: any path can be given.
#[derive(Debug, Clone, PartialEq, Eq)]
pub enum Bootstrap {
    /// Whatever was stored at `path` is being removed.
    Clearing { path: Vec<u8> },
    /// The directory at `path` is being created, unless it exists.
    Preparing { path: Vec<u8>, mode: Mode },
    /// The store at `path` is being asked for the height of its best block.
    ReadingHeight { path: Vec<u8>, mode: Mode },
    /// The store holds a chain of the given height, and its commitment column
    /// is being scanned.
    Scanning { height: BlockHeight },
    /// The accumulator tree of `ledger` is being built.
    Building { ledger: Ledger },
    /// The genesis block is being installed in a new primary store, which will
    /// be the ledger.
    InstallingPrimary,
    /// The genesis block is being installed in a new primary store at `path`,
    /// which will then be opened as a secondary.
    InstallingForSecondary { path: Vec<u8> },
}

/// What the caller does for the loading of a ledger.
#[derive(Debug, Clone, PartialEq, Eq)]
pub enum Request {
    /// Remove the directory at `path` with all it holds. That there is none
    /// is no fault; that it cannot be removed is a failure.
    ClearDirectory { path: Vec<u8> },
    /// Create the directory at `path` and its parents, unless they exist.
    CreateDirectory { path: Vec<u8> },
    /// Open the store at `path`, as a primary if `secondary_path` is `None` and
    /// as a secondary with that marker path otherwise, and look up `read`.
    Get { path: Vec<u8>, secondary_path: Option<Vec<u8>>, read: Read },
    /// Open the store at `path` in the same way, and read every entry of the
    /// column `col`. The store stays open: it is the store of the ledger.
    GetColumn { path: Vec<u8>, secondary_path: Option<Vec<u8>>, col: u32 },
    /// Decode the block `genesis` and create a new primary ledger with it: at
    /// `path`, or in memory if there is none. A block that does not decode is
    /// a failure; a block that decodes and cannot be installed is a fault
    /// that ends the program.
    InstallGenesis { path: Option<Vec<u8>>, genesis: Vec<u8> },
    /// Decode the leaves of the ledger of the pending state and build the
    /// accumulator tree over them.
    BuildTree,
}

/// What the caller found when it performed a [`Request`].
#[derive(Debug, Clone, PartialEq, Eq)]
pub enum Answer {
    /// The directory is gone.
    DirectoryCleared,
    /// The directory exists.
    DirectoryCreated,
    /// The value found by a lookup, if the key is present.
    Value(Option<Vec<u8>>),
    /// The entries of a column, key and value of each, in the order of the
    /// scan.
    Column(Vec<(Vec<u8>, Vec<u8>)>),
    /// The genesis block is installed; these are the leaves of the
    /// accumulator of the new ledger.
    GenesisInstalled(Vec<Vec<u8>>),
    /// The accumulator tree is built.
    TreeBuilt,
    /// The request could not be performed.
    Failed(LedgerError),
}

/// How the loading of a ledger goes on.
#[derive(Debug, Clone, PartialEq, Eq)]
pub enum Step {
    /// The caller performs the request and goes on with its answer.
    Ask(Bootstrap, Request),
    /// The ledger is loaded.
    Done(Ledger),
    /// The ledger cannot be loaded.
    Failed(LedgerError),
}

/// What a [`Bootstrap`] stands for.
pub enum BootstrapView {
    Clearing { path: Seq<u8> },
    Preparing { path: Seq<u8>, mode: Mode },
    ReadingHeight { path: Seq<u8>, mode: Mode },
    Scanning { height: BlockHeight },
    Building { ledger: LedgerState },
    InstallingPrimary,
    InstallingForSecondary { path: Seq<u8> },
}

/// What a [`Request`] stands for. Of the genesis block it keeps nothing: the
/// block is the same at every installation.
pub enum RequestView {
    ClearDirectory { path: Seq<u8> },
    CreateDirectory { path: Seq<u8> },
    Get { path: Seq<u8>, secondary_path: Option<Seq<u8>>, col: u32, key: Seq<u8> },
    GetColumn { path: Seq<u8>, secondary_path: Option<Seq<u8>>, col: u32 },
    InstallGenesis { path: Option<Seq<u8>> },
    BuildTree,
}

/// What an [`Answer`] stands for.
pub enum AnswerView {
    DirectoryCleared,
    DirectoryCreated,
    Value(Option<Seq<u8>>),
    Column(Seq<(Seq<u8>, Seq<u8>)>),
    GenesisInstalled(Seq<Seq<u8>>),
    TreeBuilt,
    Failed(LedgerError),
}

/// What a [`Step`] stands for.
pub enum StepView {
    Ask(BootstrapView, RequestView),
    Done(LedgerState),
    Failed(LedgerError),
}

/// The bytes of a path that may be absent.
pub open spec fn path_view(path: Option<Vec<u8>>) -> Option<Seq<u8>> {
    match path {
        Some(p) => Some(p@),
        None => None,
    }
}

impl View for Bootstrap {
    type V = BootstrapView;

    open spec fn view(&self) -> BootstrapView {
        match self {
            Bootstrap::Clearing { path } => BootstrapView::Clearing { path: path@ },
            Bootstrap::Preparing { path, mode } => BootstrapView::Preparing {
                path: path@,
                mode: *mode,
            },
            Bootstrap::ReadingHeight { path, mode } => BootstrapView::ReadingHeight {
                path: path@,
                mode: *mode,
            },
            Bootstrap::Scanning { height } => BootstrapView::Scanning { height: *height },
            Bootstrap::Building { ledger } => BootstrapView::Building { ledger: ledger@ },
            Bootstrap::InstallingPrimary => BootstrapView::InstallingPrimary,
            Bootstrap::InstallingForSecondary { path } => BootstrapView::InstallingForSecondary {
                path: path@,
            },
        }
    }
}

impl View for Request {
    type V = RequestView;

    open spec fn view(&self) -> RequestView {
        match self {
            Request::ClearDirectory { path } => RequestView::ClearDirectory { path: path@ },
            Request::CreateDirectory { path } => RequestView::CreateDirectory { path: path@ },
            Request::Get { path, secondary_path, read } => RequestView::Get {
                path: path@,
                secondary_path: path_view(*secondary_path),
                col: read.col,
                key: read.key@,
            },
            Request::GetColumn { path, secondary_path, col } => RequestView::GetColumn {
                path: path@,
                secondary_path: path_view(*secondary_path),
                col: *col,
            },
            Request::InstallGenesis { path, genesis } => RequestView::InstallGenesis {
                path: path_view(*path),
            },
            Request::BuildTree => RequestView::BuildTree,
        }
    }
}

impl View for Answer {
    type V = AnswerView;

    open spec fn view(&self) -> AnswerView {
        match self {
            Answer::DirectoryCleared => AnswerView::DirectoryCleared,
            Answer::DirectoryCreated => AnswerView::DirectoryCreated,
            Answer::Value(None) => AnswerView::Value(None),
            Answer::Value(Some(bytes)) => AnswerView::Value(Some(bytes@)),
            Answer::Column(entries) => AnswerView::Column(crate::scanner::scan_view(entries@)),
            Answer::GenesisInstalled(leaves) => AnswerView::GenesisInstalled(
                crate::scanner::leaves_view(leaves@),
            ),
            Answer::TreeBuilt => AnswerView::TreeBuilt,
            Answer::Failed(e) => AnswerView::Failed(*e),
        }
    }
}

impl View for Step {
    type V = StepView;

    open spec fn view(&self) -> StepView {
        match self {
            Step::Ask(state, request) => StepView::Ask(state@, request@),
            Step::Done(ledger) => StepView::Done(ledger@),
            Step::Failed(e) => StepView::Failed(*e),
        }
    }
}

/// The marker path of the secondaries of the store at `path`.
pub open spec fn secondary_path_of(path: Seq<u8>) -> Seq<u8> {
    path + SECONDARY_SUFFIX.spec_bytes()
}

/// The marker path with which the store at `path` is opened: none for a
/// primary.
pub open spec fn marker_of(path: Seq<u8>, mode: Mode) -> Option<Seq<u8>> {
    if mode.is_secondary() {
        Some(secondary_path_of(path))
    } else {
        None
    }
}

/// The request for the height of the best block of the store at `path`.
pub open spec fn height_request(path: Seq<u8>, mode: Mode) -> RequestView {
    RequestView::Get {
        path,
        secondary_path: marker_of(path, mode),
        col: crate::store::COL_META,
        key: crate::store::KEY_BEST_BLOCK_NUMBER.spec_bytes(),
    }
}

/// How the opening of the store at `path` begins.
pub open spec fn opening(path: Seq<u8>, mode: Mode) -> StepView {
    StepView::Ask(BootstrapView::Preparing { path, mode }, RequestView::CreateDirectory { path })
}

/// How the creation of a fresh ledger begins.
pub open spec fn creating(path: Option<Seq<u8>>) -> StepView {
    match path {
        Some(path) => StepView::Ask(
            BootstrapView::Clearing { path },
            RequestView::ClearDirectory { path },
        ),
        None => StepView::Ask(
            BootstrapView::InstallingPrimary,
            RequestView::InstallGenesis { path: None },
        ),
    }
}

impl BootstrapView {
    /// `answer` may be handed in at this state. The one thing left out: a
    /// genesis block that decodes and cannot be installed. That is a fault of
    /// the setup, which ends the program; of an installation only a block
    /// that does not decode is answered as a failure.
    pub open spec fn admits(self, answer: AnswerView) -> bool {
        (self is InstallingPrimary || self is InstallingForSecondary) ==> (answer matches AnswerView::Failed(
            e,
        ) ==> e == LedgerError::Decode)
    }

    /// The loading began with the creation of a fresh ledger and has not left
    /// that course.
    pub open spec fn creates_anew(self) -> bool {
        match self {
            BootstrapView::Clearing { .. } => true,
            BootstrapView::Preparing { mode, .. } => mode == Mode::Fresh,
            BootstrapView::ReadingHeight { mode, .. } => mode == Mode::Fresh,
            BootstrapView::InstallingPrimary => true,
            _ => false,
        }
    }

    /// How the loading goes on from this state once the caller has found
    /// `answer`.
    ///
    /// Only the absence of the best block number makes a store count as new.
    /// A new store gets the genesis block, in a primary; for a secondary that
    /// primary is then opened as a secondary, once. A store with a best block
    /// number gives the ledger its height, and the scan of its commitment
    /// column, arranged by index, gives the snapshot; but a store that was to
    /// be created anew and shows a best block number ends the loading. A
    /// request that could not be performed ends the loading with its error.
    pub open spec fn next(self, answer: AnswerView) -> StepView {
        match (self, answer) {
            (_, AnswerView::Failed(e)) => StepView::Failed(e),
            (BootstrapView::Clearing { path }, AnswerView::DirectoryCleared) => opening(
                path,
                Mode::Fresh,
            ),
            (BootstrapView::Preparing { path, mode }, AnswerView::DirectoryCreated) => {
                StepView::Ask(
                    BootstrapView::ReadingHeight { path, mode },
                    height_request(path, mode),
                )
            },
            (BootstrapView::ReadingHeight { path, mode }, AnswerView::Value(Some(bytes))) => {
                if mode == Mode::Fresh {
                    StepView::Failed(LedgerError::ExistingChain)
                } else if bytes.len() == 4 {
                    StepView::Ask(
                        BootstrapView::Scanning { height: crate::codec::le_u32(bytes) as u32 },
                        RequestView::GetColumn {
                            path,
                            secondary_path: marker_of(path, mode),
                            col: COL_COMMITMENT,
                        },
                    )
                } else {
                    StepView::Failed(LedgerError::MalformedInteger)
                }
            },
            (BootstrapView::ReadingHeight { path, mode }, AnswerView::Value(None)) => {
                match mode {
                    Mode::Primary | Mode::Fresh => StepView::Ask(
                        BootstrapView::InstallingPrimary,
                        RequestView::InstallGenesis { path: Some(path) },
                    ),
                    Mode::Secondary => StepView::Ask(
                        BootstrapView::InstallingForSecondary { path },
                        RequestView::InstallGenesis { path: Some(path) },
                    ),
                    Mode::SecondaryAgain => StepView::Failed(LedgerError::MissingBestBlockNumber),
                }
            },
            (BootstrapView::Scanning { height }, AnswerView::Column(scan)) => {
                if crate::scanner::well_encoded(scan) {
                    StepView::Ask(
                        BootstrapView::Building {
                            ledger: LedgerState {
                                height,
                                leaves: crate::scanner::ordered_commitments(scan),
                            },
                        },
                        RequestView::BuildTree,
                    )
                } else {
                    StepView::Failed(LedgerError::MalformedInteger)
                }
            },
            (BootstrapView::Building { ledger }, AnswerView::TreeBuilt) => StepView::Done(ledger),
            (BootstrapView::InstallingPrimary, AnswerView::GenesisInstalled(leaves)) => {
                StepView::Done(LedgerState { height: 0, leaves })
            },
            (
                BootstrapView::InstallingForSecondary { path },
                AnswerView::GenesisInstalled(_),
            ) => StepView::Ask(
                BootstrapView::ReadingHeight { path, mode: Mode::SecondaryAgain },
                height_request(path, Mode::SecondaryAgain),
            ),
            _ => StepView::Failed(LedgerError::UnexpectedAnswer),
        }
    }
}

impl Step {
    /// Where this step asks for the genesis block to be installed, it hands
    /// over the whole serialized block.
    pub open spec fn hands_over_genesis(self) -> bool {
        self matches Step::Ask(_, Request::InstallGenesis { genesis, .. }) ==> genesis@.len()
            == crate::genesis::GENESIS_BLOCK_SIZE
    }
}

/// Derives the marker path of the secondaries of the store at `path`.
pub fn secondary_path(path: &Vec<u8>) -> (marker: Vec<u8>)
    ensures
        marker@ == secondary_path_of(path@),
{
    let mut marker = path.clone();
    assert(marker@ =~= path@);
    marker.extend_from_slice(SECONDARY_SUFFIX.as_bytes());
    assert(marker@ =~= secondary_path_of(path@));
    marker
}

fn is_secondary(mode: Mode) -> (secondary: bool)
    ensures
        secondary == mode.is_secondary(),
{
    match mode {
        Mode::Primary => false,
        Mode::Fresh => false,
        Mode::Secondary => true,
        Mode::SecondaryAgain => true,
    }
}

fn marker_for(path: &Vec<u8>, mode: Mode) -> (marker: Option<Vec<u8>>)
    ensures
        path_view(marker) == marker_of(path@, mode),
{
    if is_secondary(mode) {
        Some(secondary_path(path))
    } else {
        None
    }
}

fn copy_of(path: &Vec<u8>) -> (copy: Vec<u8>)
    ensures
        copy@ == path@,
{
    let copy = path.clone();
    assert(copy@ =~= path@);
    copy
}

fn ask_for_height(path: Vec<u8>, mode: Mode) -> (step: Step)
    ensures
        step@ == StepView::Ask(
            BootstrapView::ReadingHeight { path: path@, mode },
            height_request(path@, mode),
        ),
{
    let request = Request::Get {
        path: copy_of(&path),
        secondary_path: marker_for(&path, mode),
        read: Read::best_block_number(),
    };
    Step::Ask(Bootstrap::ReadingHeight { path, mode }, request)
}

fn ask_for_directory(path: Vec<u8>, mode: Mode) -> (step: Step)
    ensures
        step@ == opening(path@, mode),
{
    let request = Request::CreateDirectory { path: copy_of(&path) };
    Step::Ask(Bootstrap::Preparing { path, mode }, request)
}

fn ask_for_genesis(state: Bootstrap, path: Option<Vec<u8>>) -> (step: Step)
    ensures
        step@ == StepView::Ask(state@, RequestView::InstallGenesis { path: path_view(path) }),
        step.hands_over_genesis(),
{
    Step::Ask(state, Request::InstallGenesis { path, genesis: load_genesis_block() })
}

impl Ledger {
    /// Begins the creation of a fresh blockchain, optionally at the specified
    /// path. Warning: if specified, any existing storage at that location is
    /// removed. Without a path the ledger lives in memory only.
    ///
    /// The loading that begins here ends in a ledger of height zero over the
    /// leaves of the genesis block, or in an error: see
    /// [`lemma_fresh_ledger_starts_from_genesis`].
    pub fn new_empty(path: Option<Vec<u8>>) -> (step: Step)
        ensures
            step@ == creating(path_view(path)),
            step.hands_over_genesis(),
    {
        match path {
            Some(path) => {
                let request = Request::ClearDirectory { path: copy_of(&path) };
                Step::Ask(Bootstrap::Clearing { path }, request)
            },
            None => ask_for_genesis(Bootstrap::InstallingPrimary, None),
        }
    }

    /// Begins the opening of the blockchain storage at a particular path.
    pub fn open_at_path(path: Vec<u8>) -> (step: Step)
        ensures
            step@ == opening(path@, Mode::Primary),
    {
        ask_for_directory(path, Mode::Primary)
    }

    /// Begins the opening of the blockchain storage at a particular path as a
    /// secondary read-only instance.
    pub fn open_secondary_at_path(path: Vec<u8>) -> (step: Step)
        ensures
            step@ == opening(path@, Mode::Secondary),
    {
        ask_for_directory(path, Mode::Secondary)
    }

    /// Goes on with the loading of a ledger, as a primary or as a secondary,
    /// once the caller has found `answer` to the request that was pending in
    /// `state`. A secondary ledger runs as a read-only instance.
    ///
    /// A genesis block that decodes and cannot be installed is not answered:
    /// the caller ends the program there.
    pub fn load_ledger_state(state: Bootstrap, answer: Answer) -> (step: Step)
        requires
            state@.admits(answer@),
        ensures
            step@ == state@.next(answer@),
            step.hands_over_genesis(),
    {
        match (state, answer) {
            (_, Answer::Failed(e)) => Step::Failed(e),
            (Bootstrap::Clearing { path }, Answer::DirectoryCleared) => ask_for_directory(
                path,
                Mode::Fresh,
            ),
            (Bootstrap::Preparing { path, mode }, Answer::DirectoryCreated) => ask_for_height(
                path,
                mode,
            ),
            (Bootstrap::ReadingHeight { path, mode }, Answer::Value(Some(bytes))) => {
                match mode {
                    Mode::Fresh => Step::Failed(LedgerError::ExistingChain),
                    _ => match bytes_to_u32(bytes.as_slice()) {
                        Some(height) => {
                            let secondary_path = marker_for(&path, mode);
                            Step::Ask(
                                Bootstrap::Scanning { height },
                                Request::GetColumn { path, secondary_path, col: COL_COMMITMENT },
                            )
                        },
                        None => Step::Failed(LedgerError::MalformedInteger),
                    },
                }
            },
            (Bootstrap::ReadingHeight { path, mode }, Answer::Value(None)) => {
                match mode {
                    Mode::Primary | Mode::Fresh => ask_for_genesis(
                        Bootstrap::InstallingPrimary,
                        Some(path),
                    ),
                    Mode::Secondary => {
                        let store = copy_of(&path);
                        ask_for_genesis(Bootstrap::InstallingForSecondary { path }, Some(store))
                    },
                    Mode::SecondaryAgain => Step::Failed(LedgerError::MissingBestBlockNumber),
                }
            },
            (Bootstrap::Scanning { height }, Answer::Column(entries)) => {
                match order_commitments(&entries) {
                    Ok(leaves) => {
                        let ledger = Ledger { current_block_height: height, cm_merkle_tree: leaves };
                        Step::Ask(Bootstrap::Building { ledger }, Request::BuildTree)
                    },
                    Err(e) => Step::Failed(e),
                }
            },
            (Bootstrap::Building { ledger }, Answer::TreeBuilt) => Step::Done(ledger),
            (Bootstrap::InstallingPrimary, Answer::GenesisInstalled(leaves)) => Step::Done(
                Ledger { current_block_height: 0, cm_merkle_tree: leaves },
            ),
            (Bootstrap::InstallingForSecondary { path }, Answer::GenesisInstalled(_)) => {
                ask_for_height(path, Mode::SecondaryAgain)
            },
            _ => Step::Failed(LedgerError::UnexpectedAnswer),
        }
    }
}

/// The marker path of a secondary is the path of its store with the ASCII
/// bytes of `_secondary` behind it.
pub proof fn lemma_secondary_suffix(path: Seq<u8>)
    ensures
        secondary_path_of(path) == path + seq![95u8, 115, 101, 99, 111, 110, 100, 97, 114, 121],
{
    reveal_strlit("_secondary");
    assert(is_ascii(SECONDARY_SUFFIX));
    is_ascii_spec_bytes(SECONDARY_SUFFIX);
    assert(SECONDARY_SUFFIX.spec_bytes() =~= seq![
        95u8, 115, 101, 99, 111, 110, 100, 97, 114, 121,
    ]);
}

/// The creation of a fresh ledger never ends in a chain that was there
/// before. As long as the loading is on that course, every step keeps it
/// there, ends it with an error, or ends it with a ledger of height zero
/// whose leaves are those the installation of the genesis block brought. A
/// store that shows a best block number after it was cleared ends the
/// loading with an error.
pub proof fn lemma_fresh_ledger_starts_from_genesis(state: BootstrapView, answer: AnswerView)
    requires
        state.creates_anew(),
    ensures
        match state.next(answer) {
            StepView::Ask(then, _) => then.creates_anew(),
            StepView::Done(ledger) => ledger.height == 0 && answer == AnswerView::GenesisInstalled(
                ledger.leaves,
            ),
            StepView::Failed(_) => true,
        },
        (state is ReadingHeight && answer is Value && answer != AnswerView::Value(None))
            ==> state.next(answer) == StepView::Failed(LedgerError::ExistingChain),
{
}

/// The creation of a fresh ledger at a path clears the path, creates the
/// directory, finds no best block number in the store, and installs the
/// genesis block; with no path it installs the genesis block at once.
pub proof fn lemma_fresh_ledger_is_created(path: Seq<u8>, genesis_leaves: Seq<Seq<u8>>)
    ensures
        ({
            let clearing = BootstrapView::Clearing { path };
            let prepared = BootstrapView::Preparing { path, mode: Mode::Fresh };
            let reading = BootstrapView::ReadingHeight { path, mode: Mode::Fresh };
            let fresh = LedgerState { height: 0, leaves: genesis_leaves };
            &&& creating(Some(path)) == StepView::Ask(
                clearing,
                RequestView::ClearDirectory { path },
            )
            &&& creating(Some(path)) matches StepView::Ask(begun, _) && begun.creates_anew()
            &&& creating(None::<Seq<u8>>) matches StepView::Ask(begun, _) && begun.creates_anew()
            &&& clearing.next(AnswerView::DirectoryCleared) == StepView::Ask(
                prepared,
                RequestView::CreateDirectory { path },
            )
            &&& prepared.next(AnswerView::DirectoryCreated) == StepView::Ask(
                reading,
                height_request(path, Mode::Fresh),
            )
            &&& reading.next(AnswerView::Value(None)) == StepView::Ask(
                BootstrapView::InstallingPrimary,
                RequestView::InstallGenesis { path: Some(path) },
            )
            &&& BootstrapView::InstallingPrimary.next(AnswerView::GenesisInstalled(genesis_leaves))
                == StepView::Done(fresh)
        }),
{
}

/// Reopening a store that holds a chain gives a ledger of the stored height,
/// whose leaf `i` is the commitment stored with index `i`, wherever the
/// indices of the `n` stored commitments are `0, 1, .., n - 1` in some order.
pub proof fn lemma_reopening_restores_the_accumulator(
    path: Seq<u8>,
    mode: Mode,
    height: Seq<u8>,
    scan: Seq<(Seq<u8>, Seq<u8>)>,
)
    requires
        mode != Mode::Fresh,
        height.len() == 4,
        scan.len() <= usize::MAX,
        crate::scanner::well_encoded(scan),
        crate::order::dense_and_unique(crate::scanner::scan_indices(scan)),
    ensures
        ({
            let reading = BootstrapView::ReadingHeight { path, mode };
            let scanning = BootstrapView::Scanning {
                height: crate::codec::le_u32(height) as u32,
            };
            let ledger = LedgerState {
                height: crate::codec::le_u32(height) as u32,
                leaves: crate::scanner::ordered_commitments(scan),
            };
            &&& reading.next(AnswerView::Value(Some(height))) == StepView::Ask(
                scanning,
                RequestView::GetColumn {
                    path,
                    secondary_path: marker_of(path, mode),
                    col: COL_COMMITMENT,
                },
            )
            &&& scanning.next(AnswerView::Column(scan)) == StepView::Ask(
                BootstrapView::Building { ledger },
                RequestView::BuildTree,
            )
            &&& BootstrapView::Building { ledger }.next(AnswerView::TreeBuilt) == StepView::Done(
                ledger,
            )
            &&& ledger.height as int == crate::codec::le_u32(height)
            &&& ledger.leaves.len() == scan.len()
            &&& forall|p: int|
                0 <= p < scan.len() ==> ledger.leaves[crate::codec::le_u32(
                    (#[trigger] scan[p]).1,
                )] == scan[p].0
        }),
{
    crate::scanner::lemma_dense_scan_is_ordered_by_index(scan);
    crate::codec::lemma_encode_decoded(height);
}

/// Opening a primary at a path whose store has no best block number installs
/// the genesis block there, and gives a ledger of height zero whose snapshot
/// holds exactly the leaves that the genesis block brought.
pub proof fn lemma_new_primary_starts_from_genesis(path: Seq<u8>, genesis_leaves: Seq<Seq<u8>>)
    ensures
        ({
            let prepared = BootstrapView::Preparing { path, mode: Mode::Primary };
            let reading = BootstrapView::ReadingHeight { path, mode: Mode::Primary };
            &&& opening(path, Mode::Primary) == StepView::Ask(
                prepared,
                RequestView::CreateDirectory { path },
            )
            &&& prepared.next(AnswerView::DirectoryCreated) == StepView::Ask(
                reading,
                height_request(path, Mode::Primary),
            )
            &&& reading.next(AnswerView::Value(None)) == StepView::Ask(
                BootstrapView::InstallingPrimary,
                RequestView::InstallGenesis { path: Some(path) },
            )
            &&& BootstrapView::InstallingPrimary.next(AnswerView::GenesisInstalled(genesis_leaves))
                == StepView::Done(LedgerState { height: 0, leaves: genesis_leaves })
        }),
{
}

/// Opening a secondary at a path whose store has no best block number first
/// installs the genesis block in a primary at that path, then opens the
/// store as a secondary and loads the ledger from it, without an error.
pub proof fn lemma_secondary_bootstraps_its_primary(
    path: Seq<u8>,
    genesis_leaves: Seq<Seq<u8>>,
    height: Seq<u8>,
    scan: Seq<(Seq<u8>, Seq<u8>)>,
)
    requires
        height.len() == 4,
        crate::scanner::well_encoded(scan),
    ensures
        ({
            let marker = Some(secondary_path_of(path));
            let prepared = BootstrapView::Preparing { path, mode: Mode::Secondary };
            let reading = BootstrapView::ReadingHeight { path, mode: Mode::Secondary };
            let installing = BootstrapView::InstallingForSecondary { path };
            let again = BootstrapView::ReadingHeight { path, mode: Mode::SecondaryAgain };
            let scanning = BootstrapView::Scanning {
                height: crate::codec::le_u32(height) as u32,
            };
            let ledger = LedgerState {
                height: crate::codec::le_u32(height) as u32,
                leaves: crate::scanner::ordered_commitments(scan),
            };
            &&& opening(path, Mode::Secondary) == StepView::Ask(
                prepared,
                RequestView::CreateDirectory { path },
            )
            &&& prepared.next(AnswerView::DirectoryCreated) == StepView::Ask(
                reading,
                height_request(path, Mode::Secondary),
            )
            &&& height_request(path, Mode::Secondary) matches RequestView::Get {
                secondary_path,
                ..
            } && secondary_path == marker
            &&& reading.next(AnswerView::Value(None)) == StepView::Ask(
                installing,
                RequestView::InstallGenesis { path: Some(path) },
            )
            &&& installing.next(AnswerView::GenesisInstalled(genesis_leaves)) == StepView::Ask(
                again,
                height_request(path, Mode::SecondaryAgain),
            )
            &&& again.next(AnswerView::Value(Some(height))) == StepView::Ask(
                scanning,
                RequestView::GetColumn { path, secondary_path: marker, col: COL_COMMITMENT },
            )
            &&& scanning.next(AnswerView::Column(scan)) == StepView::Ask(
                BootstrapView::Building { ledger },
                RequestView::BuildTree,
            )
            &&& BootstrapView::Building { ledger }.next(AnswerView::TreeBuilt) == StepView::Done(
                ledger,
            )
        }),
{
}

/// The primary that was installed for a secondary is not installed a second
/// time: a store that still shows no best block number ends the loading.
pub proof fn lemma_secondary_retries_once(path: Seq<u8>)
    ensures
        ({
            let again = BootstrapView::ReadingHeight { path, mode: Mode::SecondaryAgain };
            again.next(AnswerView::Value(None)) == StepView::Failed(
                LedgerError::MissingBestBlockNumber,
            )
        }),
{
}

/// The genesis block is installed for one reason only: the store was asked
/// for the height of its best block and holds none.
pub proof fn lemma_only_a_store_without_height_is_new(state: BootstrapView, answer: AnswerView)
    requires
        state.next(answer) matches StepView::Ask(_, RequestView::InstallGenesis { .. }),
    ensures
        state is ReadingHeight,
        answer == AnswerView::Value(None),
{
}

/// A request that could not be performed ends the loading with its error,
/// whatever the state.
pub proof fn lemma_failures_surface(state: BootstrapView, failure: LedgerError)
    requires
        state.admits(AnswerView::Failed(failure)),
    ensures
        state.next(AnswerView::Failed(failure)) == StepView::Failed(failure),
{
}

} // verus!
