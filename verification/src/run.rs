//! Starting a run: where things are mounted, where a slot's profile is
//! written, which commit a mission branch starts from, which account a
//! mission spends, and the profile a run lifts.
//!
//! Taking the slot's lock, putting the slot on its branch, writing the
//! profile and launching the harness inside the agent's container are the
//! program's part; every decision on the way is here.

use vstd::prelude::*;
use crate::account::{Account, AccountError, Accounts};
use crate::compose::{NamedVolume, Plan, UserIds};
use crate::harness::Role;
use crate::mission::Header;
use crate::perimeter::Perimeter;
use crate::text::{
    bytes_end_on_char, join_path, keys_sorted, owned, pairs_map, path_join, push_str, put_pair, str_eq, trim, views,
};

verus! {

/// Where the tree is mounted, in every profile.
pub const TREE_AT: &'static str = "/work/tree";
/// Where the mission folder is mounted, in every profile.
pub const MISSION_AT: &'static str = "/work/mission";

/// Where a slot's current profile is written: one file per slot,
/// `<hq>/profiles/<slot>.yml`, regenerated at every launch.
pub fn profile_path(hq_root: &str, slot: &str) -> (r: String)
    ensures
        r@ == path_join(path_join(hq_root@, "profiles"@), slot@ + ".yml"@),
{
    let dir = join_path(hq_root, "profiles");
    let mut file = owned(slot);
    push_str(&mut file, ".yml");
    join_path(dir.as_str(), file.as_str())
}

/// Where a mission branch starts: the base as the clone knows it — its own
/// `<base>` when `git rev-parse --verify <base>` succeeds (`local`), else
/// `origin/<base>`, for a fresh clone has the remote's branches and only one
/// of its own.
pub fn branch_start(base: &str, local: bool) -> (r: String)
    ensures
        r@ == if local { base@ } else { "origin/"@ + base@ },
{
    if local {
        owned(base)
    } else {
        let mut r = owned("origin/");
        push_str(&mut r, base);
        r
    }
}

/// Why a run could not be started.
#[derive(Debug)]
pub enum RunError {
    AlreadyStarted(String),
    Account(AccountError),
    WrongHarness { account: String, has: String, wants: String },
    NoHome,
    NoImages(String),
    Engine(crate::engine::EngineError),
    Git(crate::git::GitError),
    State(crate::state::StateError),
    Lock(crate::state::lock::LockError),
    Compose(crate::compose::ComposeError),
    Perimeter(crate::perimeter::PerimeterError),
    /// The mission's folder or header could not be had.
    Mission(crate::mission::dir::MissionDirError),
    Io(String, String),
    Launch(String),
}

/// A mission is started once: a second start is refused, and the status
/// says where the first one is.
pub fn not_started(id: &str, has_state: bool) -> (r: Result<(), RunError>)
    ensures
        has_state ==> (r matches Err(RunError::AlreadyStarted(m)) && m@ == id@),
        !has_state ==> r is Ok,
{
    if has_state { Err(RunError::AlreadyStarted(owned(id))) } else { Ok(()) }
}

/// Which account a mission spends, and the token to pass: the mission's
/// header wins over the project's declaration, which wins over the index's
/// default. An account for another harness is refused. `token_text` is what
/// the account's token file holds, empty when it could not be read.
pub fn account_for(
    accounts: &Accounts,
    hq_home: &str,
    from_mission: Option<&str>,
    from_project: Option<&str>,
    harness: &str,
    token_text: &str,
) -> (r: Result<(String, Account, String), RunError>)
    requires
        accounts.well_formed(),
    ensures
        accounts.choice(from_mission, from_project) is None ==> r matches Err(RunError::Account(AccountError::NotNamed(_))),
        (accounts.choice(from_mission, from_project) matches Some(n) && !accounts.has(n)) ==> r matches Err(
            RunError::Account(AccountError::Unknown { .. }),
        ),
        r matches Ok((name, account, token)) ==> accounts.choice(from_mission, from_project) == Some(name@)
            && account.harness@ == harness@ && token@ == trim(token_text@) && token@.len() > 0
            && exists|i: int| 0 <= i < accounts.accounts@.len() && #[trigger] accounts.accounts@[i].0@ == name@
                && account@ == accounts.accounts@[i].1@,
        match accounts.choice(from_mission, from_project) {
            Some(n) => forall|i: int| 0 <= i < accounts.accounts@.len() && #[trigger] accounts.accounts@[i].0@ == n ==> {
                let a = accounts.accounts@[i].1;
                &&& a.harness@ != harness@ ==> (r matches Err(RunError::WrongHarness { account, has, wants })
                    && account@ == n && has@ == a.harness@ && wants@ == harness@)
                &&& a.harness@ == harness@ && trim(token_text@).len() == 0 ==> (r matches Err(
                    RunError::Account(AccountError::NoToken { .. }),
                ))
                &&& a.harness@ == harness@ && trim(token_text@).len() > 0 ==> (r is Ok)
            },
            None => true,
        },
{
    let (name, account) = match accounts.choose_account(hq_home, from_mission, from_project) {
        Ok(pair) => pair,
        Err(e) => return Err(RunError::Account(e)),
    };
    proof {
        assert forall|i: int, j: int| 0 <= i < accounts.accounts@.len() && 0 <= j < accounts.accounts@.len()
            && accounts.accounts@[i].0@ == accounts.accounts@[j].0@ implies i == j by {
            crate::account::lemma_names_unique(accounts, i, j);
        }
    }
    if !str_eq(account.harness.as_str(), harness) {
        return Err(RunError::WrongHarness { account: name, has: owned(account.harness.as_str()), wants: owned(harness) });
    }
    match crate::account::token_from(&account, hq_home, name.as_str(), token_text) {
        Ok(token) => Ok((name, account, token)),
        Err(e) => Err(RunError::Account(e)),
    }
}

/// The stack a project's runs use: the first it declares, or `rust`.
pub fn stack_of(stacks: &Vec<String>) -> (r: String)
    ensures
        stacks@.len() > 0 ==> r@ == stacks@[0]@,
        stacks@.len() == 0 ==> r@ == "rust"@,
{
    if stacks.len() > 0 { owned(stacks[0].as_str()) } else { owned("rust") }
}

/// The lot a mission's first run works on: its first, or `L1`.
pub fn first_lot(header: &Header) -> (r: String)
    ensures
        header.lots@.len() > 0 ==> r@ == header.lots@[0].id@,
        header.lots@.len() == 0 ==> r@ == "L1"@,
{
    if header.lots.len() > 0 { owned(header.lots[0].id.as_str()) } else { owned("L1") }
}

/// The first image this machine lacks, in the order given: a missing image
/// belongs to the machine, and is said once what the project declares has
/// been checked.
pub fn images_present(images: &[(String, bool)]) -> (r: Result<(), RunError>)
    ensures
        (forall|i: int| 0 <= i < images@.len() ==> (#[trigger] images@[i]).1) ==> r is Ok,
        !(forall|i: int| 0 <= i < images@.len() ==> (#[trigger] images@[i]).1) ==> (r matches Err(RunError::NoImages(n))
            && exists|i: int| 0 <= i < images@.len() && !(#[trigger] images@[i]).1 && n@ == images@[i].0@
                && forall|j: int| 0 <= j < i ==> (#[trigger] images@[j]).1),
{
    let mut i: usize = 0;
    while i < images.len()
        invariant
            i <= images@.len(),
            forall|j: int| 0 <= j < i ==> (#[trigger] images@[j]).1,
        decreases images@.len() - i,
    {
        if !images[i].1 {
            return Err(RunError::NoImages(owned(images[i].0.as_str())));
        }
        i += 1;
    }
    Ok(())
}

/// The environment a coder run starts with: the one secret, the token,
/// under the variable the harness reads it from, and the role and the
/// branch; in key order.
pub fn environment(token_env: &str, token: &str, branch: &str) -> (r: Vec<(String, String)>)
    ensures
        keys_sorted(r@),
        pairs_map(r@) == Map::<Seq<char>, Seq<char>>::empty().insert(token_env@, token@).insert("HQ_ROLE"@, "coder"@)
            .insert("HQ_BRANCH"@, branch@),
{
    let mut env: Vec<(String, String)> = Vec::new();
    put_pair(&mut env, (owned(token_env), owned(token)));
    put_pair(&mut env, (owned("HQ_ROLE"), owned("coder")));
    put_pair(&mut env, (owned("HQ_BRANCH"), owned(branch)));
    env
}

/// The profile a coder run lifts, as data: its image and sidecar, the
/// tree and the mission folder where every profile mounts them, the slot's
/// volumes (the clean copy of `HEAD`, the harness's sessions under
/// `harness_dir`, the cargo registry), the environment, a container that
/// stays up between runs, and the allowlist.
pub fn plan(
    session: &str,
    slot: &str,
    tree: &str,
    image: &str,
    firewall_image: &str,
    user: UserIds,
    mission_dir: &str,
    harness_dir: &str,
    environment: Vec<(String, String)>,
    perimeter: Perimeter,
) -> (r: Plan)
    ensures
        r.session@ == session@,
        r.slot@ == slot@,
        r.role == Role::Coder,
        r.image@ == image@,
        r.firewall_image@ == firewall_image@,
        r.user == user,
        r.tree@ == tree@,
        r.tree_at@ == TREE_AT@,
        r.mission_dir@ == mission_dir@,
        r.mission_dir_at@ == MISSION_AT@,
        r.stack_scripts@.len() == 0,
        r.credentials@.len() == 0,
        r.advisories is None,
        r.volumes@.len() == 3,
        r.volumes@[0].name@ == "nunki-"@ + slot@ + "-proof"@ && r.volumes@[0].at@ == "/work/proof"@,
        r.volumes@[1].name@ == "hq-"@ + slot@ + "-harness"@ && r.volumes@[1].at@ == harness_dir@,
        r.volumes@[2].name@ == "hq-"@ + slot@ + "-cargo"@ && r.volumes@[2].at@ == "/home/agent/.cargo/registry"@,
        r.environment@ == environment@,
        views(r.command@) == seq!["sleep"@, "infinity"@],
        r.perimeter == perimeter,
{
    let mut volumes: Vec<NamedVolume> = Vec::new();
    volumes.push(crate::exec::volume(slot));
    let mut h = owned("hq-");
    push_str(&mut h, slot);
    push_str(&mut h, "-harness");
    volumes.push(NamedVolume { name: h, at: owned(harness_dir) });
    let mut c = owned("hq-");
    push_str(&mut c, slot);
    push_str(&mut c, "-cargo");
    volumes.push(NamedVolume { name: c, at: owned("/home/agent/.cargo/registry") });
    let mut command: Vec<String> = Vec::new();
    command.push(owned("sleep"));
    command.push(owned("infinity"));
    assert(views(command@) =~= seq!["sleep"@, "infinity"@]);
    Plan {
        session: owned(session),
        slot: owned(slot),
        role: Role::Coder,
        image: owned(image),
        firewall_image: owned(firewall_image),
        user,
        tree: owned(tree),
        tree_at: owned(TREE_AT),
        mission_dir: owned(mission_dir),
        mission_dir_at: owned(MISSION_AT),
        stack_scripts: Vec::new(),
        credentials: Vec::new(),
        advisories: None,
        volumes,
        environment,
        command,
        perimeter,
    }
}


/// A lower-case hexadecimal digit.
pub open spec fn hex_digit(d: nat) -> char {
    if d < 10 { ((d + 48) as u8) as char } else { ((d + 87) as u8) as char }
}

/// `n` on exactly `width` lower-case hexadecimal digits, as `{:0width$x}`
/// writes a number that fits.
pub open spec fn spec_hex(n: nat, width: nat) -> Seq<char>
    decreases width,
{
    if width == 0 { Seq::empty() } else { spec_hex(n / 16, (width - 1) as nat).push(hex_digit(n % 16)) }
}

/// A session identifier in the shape of a UUID, version 4 and variant 8:
/// the 32 hex digits of `mix`, grouped 8-4-4-4-12, the version and the
/// variant digits written over the 13th and the 17th.
pub open spec fn spec_session_id(mix: nat) -> Seq<char> {
    let h = spec_hex(mix, 32);
    h.subrange(0, 8) + "-"@ + h.subrange(8, 12) + "-4"@ + h.subrange(13, 16) + "-8"@ + h.subrange(17, 20) + "-"@
        + h.subrange(20, 32)
}

fn hex_char(d: u128) -> (c: char)
    requires
        d < 16,
    ensures
        c == hex_digit(d as nat),
{
    if d < 10 { ((d + 48) as u8) as char } else { ((d + 87) as u8) as char }
}

/// A session identifier from 128 bits: the time and the process mixed by
/// the program, which reads them.
pub fn session_id(mix: u128) -> (r: String)
    ensures
        r@ == spec_session_id(mix as nat),
{
    let mut digits: Vec<char> = Vec::new();
    let mut n: u128 = mix;
    let mut k: usize = 0;
    let ghost orig = mix as nat;
    while k < 32
        invariant
            k <= 32,
            digits@.len() == k,
            spec_hex(orig, 32) == spec_hex(n as nat, (32 - k) as nat) + digits@,
        decreases 32 - k,
    {
        let ghost before = digits@;
        proof {
            assert(spec_hex(n as nat, (32 - k) as nat) == spec_hex((n / 16) as nat, (32 - k - 1) as nat).push(hex_digit((n % 16) as nat)));
        }
        digits.insert(0, hex_char(n % 16));
        assert(digits@ =~= seq![hex_digit((n % 16) as nat)] + before);
        proof {
            assert(spec_hex((n / 16) as nat, (32 - k - 1) as nat).push(hex_digit((n % 16) as nat)) + before
                =~= spec_hex((n / 16) as nat, (32 - k - 1) as nat) + (seq![hex_digit((n % 16) as nat)] + before));
        }
        n = n / 16;
        k += 1;
    }
    assert(spec_hex(n as nat, 0) =~= Seq::<char>::empty());
    assert(digits@ =~= spec_hex(orig, 32));
    let mut r = crate::text::string_of(digits.as_slice(), 0, 8);
    push_str(&mut r, "-");
    push_str(&mut r, crate::text::string_of(digits.as_slice(), 8, 12).as_str());
    push_str(&mut r, "-4");
    push_str(&mut r, crate::text::string_of(digits.as_slice(), 13, 16).as_str());
    push_str(&mut r, "-8");
    push_str(&mut r, crate::text::string_of(digits.as_slice(), 17, 20).as_str());
    push_str(&mut r, "-");
    push_str(&mut r, crate::text::string_of(digits.as_slice(), 20, 32).as_str());
    r
}


// ---------------------------------------------------------------------
// Starting a mission's first run, one step at a time: the program performs
// each action and hands back what it found; every decision, and the order,
// is here. The order is itself a decision: nothing is changed before the
// slot's lock is held; the header is read once and frozen; what the project
// declares (the account) is judged before what the machine holds (the
// images); the branch is put in place before anything is written for the
// run; the profile is lifted before the harness is launched inside it; and
// the state is saved last, with the handle of the run.

/// What a start knows before it begins, read by the program without
/// changing anything: the project, the mission and its slot, the images'
/// version, the host's ids, what the harness needs (its domains, the
/// variable its token goes in, where it keeps its sessions), the stack's
/// declared domains, which of the perimeter's hosts are IP literals, the
/// project's session and the identifier the run will have.
pub struct StartContext {
    pub project: crate::project::Project,
    pub id: String,
    pub slot: String,
    /// The slot's working tree on the host.
    pub tree: String,
    pub version: String,
    pub user: UserIds,
    pub harness_domains: Vec<String>,
    pub token_env: String,
    pub harness_dir: String,
    pub stack_domains: Vec<String>,
    pub ip_hosts: Vec<String>,
    /// The project's session, which names its Compose projects.
    pub session: String,
    /// The identifier the run will have.
    pub run_session: String,
}

/// Where a start is.
#[derive(Debug, Clone, Copy, PartialEq, Eq, Structural)]
pub enum StartPhase {
    /// Nothing done: whether the mission has a state is asked first.
    Begin,
    /// The slot's lock is being taken.
    Locking,
    /// The header is being read.
    Reading,
    /// The account index is being read.
    Choosing,
    /// The chosen account's token is being read.
    Token,
    /// The images are being looked for.
    Checking,
    /// The slot's branch is being read.
    Branching,
    /// The slot is being put on the mission's branch.
    CheckingOut,
    /// The role's prompt is being written.
    Prompting,
    /// The profile is being written.
    Profiling,
    /// The profile is being lifted.
    Lifting,
    /// The harness is being launched.
    Launching,
    /// The mission's state is being saved.
    Saving,
    /// Started.
    Done,
}

/// A start in progress: where it is, and what it has learnt so far.
pub struct StartState {
    pub phase: StartPhase,
    pub ctx: StartContext,
    /// The header, frozen once read.
    pub header: Option<Header>,
    pub accounts: Option<Accounts>,
    /// The chosen account's name and its token.
    pub account: Option<(String, Account)>,
    pub token: Option<String>,
    /// The Compose project the profile is lifted as.
    pub compose: Option<String>,
}

/// What the program found or did, for the step that asked.
pub enum StartEvent {
    /// Whether the mission already has a state.
    StateRead(bool),
    Locked(Result<(), crate::state::lock::LockError>),
    HeaderRead(Result<Header, crate::mission::dir::MissionDirError>),
    AccountsRead(Result<Accounts, AccountError>),
    /// The token file's text, empty when it could not be read.
    TokenRead(String),
    /// Whether each image asked about is present, in the order asked.
    ImagesChecked(Vec<bool>),
    /// The slot's current branch, and whether the base exists as a local
    /// branch.
    BranchRead { current: Result<String, crate::git::GitError>, base_local: bool },
    CheckedOut(Result<(), crate::git::GitError>),
    /// A file written, or why not.
    Written(Result<(), String>),
    Up(Result<(), crate::engine::EngineError>),
    Launched(Result<crate::harness::RunHandle, String>),
    Saved(Result<(), crate::state::StateError>),
}

/// What the program is to do next.
pub enum StartAction {
    /// Say whether the mission already has a state.
    ReadState,
    Lock { slot: String },
    ReadHeader { id: String },
    ReadAccounts,
    ReadToken { path: String },
    CheckImages { names: Vec<String> },
    ReadBranch { tree: String, base: String },
    /// `git <args>` in the tree.
    Checkout { tree: String, args: Vec<String> },
    WritePrompt { path: String, text: String },
    /// Generate the Compose file of `plan` and write it at `path`, readable
    /// by its owner alone: it carries the token.
    WriteProfile { path: String, plan: Plan },
    Up { file: String, project: String },
    Launch { request: crate::harness::RunRequest, file: String, project: String },
    Save { state: crate::state::MissionState },
    /// Nothing more: the run is started and its state saved.
    Started,
}

/// Whether an event answers the phase's action.
pub open spec fn answers(phase: StartPhase, event: StartEvent) -> bool {
    match phase {
        StartPhase::Begin => event is StateRead,
        StartPhase::Locking => event is Locked,
        StartPhase::Reading => event is HeaderRead,
        StartPhase::Choosing => event matches StartEvent::AccountsRead(a) && (a matches Ok(x) ==> x.well_formed()),
        StartPhase::Token => event is TokenRead,
        StartPhase::Checking => event matches StartEvent::ImagesChecked(v) && v@.len() == 2,
        StartPhase::Branching => event is BranchRead,
        StartPhase::CheckingOut => event is CheckedOut,
        StartPhase::Prompting => event is Written,
        StartPhase::Profiling => event is Written,
        StartPhase::Lifting => event is Up,
        StartPhase::Launching => event is Launched,
        StartPhase::Saving => event is Saved,
        StartPhase::Done => false,
    }
}

impl StartState {
    /// What each phase has learnt: the header from the reading on, the
    /// index while the token is read, the account and token from then on,
    /// the Compose project once the profile is written; and a session whose
    /// first eight bytes end on a character.
    pub open spec fn well_formed(&self) -> bool {
        &&& bytes_end_on_char(self.ctx.session@, 8)
        &&& (self.phase is Begin || self.phase is Locking || self.phase is Reading || self.phase is Saving
            || self.phase is Done || self.header is Some)
        &&& (self.phase is Token ==> (self.accounts matches Some(a) && a.well_formed() && self.account is Some))
        &&& (self.phase is Checking || self.phase is Branching || self.phase is CheckingOut || self.phase is Prompting
            || self.phase is Profiling || self.phase is Lifting || self.phase is Launching ==> self.token is Some)
        &&& (self.phase is Lifting || self.phase is Launching ==> self.compose is Some)
    }

    /// A start, before anything is asked; nothing when the session's first
    /// eight bytes do not end on a character, since the Compose project is
    /// named after them.
    pub fn begin(ctx: StartContext) -> (r: Option<(StartState, StartAction)>)
        ensures
            bytes_end_on_char(ctx.session@, 8) ==> (r matches Some((s, a)) && s.phase == StartPhase::Begin && s.well_formed()
                && s.ctx == ctx && a is ReadState),
            !bytes_end_on_char(ctx.session@, 8) ==> r is None,
    {
        if !crate::text::ends_on_char(ctx.session.as_str(), 8) {
            return None;
        }
        Some((StartState { phase: StartPhase::Begin, ctx, header: None, accounts: None, account: None, token: None, compose: None },
            StartAction::ReadState))
    }
}


/// `~/.nunki/`, as `Project::nunki_home` derives it.
pub open spec fn nunki_home_of(p: crate::project::Project) -> Seq<char> {
    match crate::text::path_parent(p.home@) {
        Some(d) => d,
        None => p.home@,
    }
}

/// The paths of a start's mission folder.
pub open spec fn start_dir(ctx: StartContext) -> Seq<char> {
    crate::mission::dir::mission_dir(ctx.project.hq_root@, ctx.id@)
}

/// The coder's allowlist a start computes: the stack's and the harness's
/// domains, no service, the project's forge refused — or why it cannot be
/// had (a domain on the forge among them).
pub open spec fn start_perimeter(ctx: StartContext) -> Result<(Seq<Seq<char>>, Seq<Seq<char>>), crate::perimeter::PerimeterErrorView> {
    crate::perimeter::scan(
        crate::perimeter::all_entries(Role::Coder, views(ctx.stack_domains@), views(ctx.harness_domains@), Seq::empty()),
        views(ctx.project.config.forge@),
        crate::perimeter::profile_name(crate::perimeter::Profile::spec_of(Role::Coder)),
        views(ctx.ip_hosts@),
    )
}

/// The image names a start looks for: the agent's, then the firewall's.
pub open spec fn start_images(ctx: StartContext) -> Seq<Seq<char>> {
    let stack = if ctx.project.config.stacks@.len() > 0 { ctx.project.config.stacks@[0]@ } else { "rust"@ };
    seq![
        "nunki/"@ + crate::image::image_project(ctx.project) + "-"@ + stack + ":latest"@,
        "nunki/firewall:"@ + ctx.version@,
    ]
}

/// The git arguments that put a tree on `branch`, from `start`.
pub open spec fn checkout_args(branch: Seq<char>, start: Seq<char>) -> Seq<Seq<char>> {
    seq!["checkout"@, "-q"@, "-B"@, branch, start]
}

fn image_names(ctx: &StartContext) -> (r: Vec<String>)
    ensures
        views(r@) == start_images(*ctx),
{
    let stack = stack_of(&ctx.project.config.stacks);
    let images = crate::image::names(&ctx.project, stack.as_str(), ctx.version.as_str());
    let mut v: Vec<String> = Vec::new();
    v.push(images.agent);
    v.push(images.firewall);
    assert(views(v@) =~= start_images(*ctx));
    v
}

/// One step of starting a mission's first run: from where the start is
/// and what the program found, either why the start stops or where it is
/// next and what the program does next. The order is fixed: the state is
/// asked first and an existing one stops everything before any action;
/// then the lock; the header; the account, judged before any image is
/// looked for; the images, a missing one stopping the start before the
/// branch is touched; the branch; the prompt; the profile, the plan of the
/// frozen header; lifting it; the launch; and saving the state.
pub fn start_step(state: StartState, event: StartEvent) -> (r: Result<(StartState, StartAction), RunError>)
    requires
        state.well_formed(),
        answers(state.phase, event),
    ensures
        r matches Ok((s, _)) ==> s.well_formed() && s.ctx == state.ctx,
        // Begin: a mission that has a state is refused, and nothing is done.
        state.phase is Begin ==> match event {
            StartEvent::StateRead(true) => r matches Err(RunError::AlreadyStarted(i)) && i@ == state.ctx.id@,
            _ => r matches Ok((s, StartAction::Lock { slot })) && s.phase == StartPhase::Locking && slot@ == state.ctx.slot@,
        },
        state.phase is Locking ==> match event {
            StartEvent::Locked(Err(e)) => r == Err::<(StartState, StartAction), RunError>(RunError::Lock(e)),
            _ => r matches Ok((s, StartAction::ReadHeader { id })) && s.phase == StartPhase::Reading && id@ == state.ctx.id@,
        },
        state.phase is Reading ==> match event {
            StartEvent::HeaderRead(Err(e)) => r == Err::<(StartState, StartAction), RunError>(RunError::Mission(e)),
            StartEvent::HeaderRead(Ok(h)) => r matches Ok((s, StartAction::ReadAccounts)) && s.phase == StartPhase::Choosing
                && s.header == Some(h),
            _ => false,
        },
        state.phase is Choosing ==> match event {
            StartEvent::AccountsRead(Err(e)) => r matches Err(RunError::Account(x)) && x == e,
            StartEvent::AccountsRead(Ok(a)) => {
                let named = crate::account::chosen_name(a.name_views(), crate::text::opt_view(a.default),
                    crate::text::opt_view(state.header->0.account), crate::text::opt_view(state.ctx.project.config.account));
                &&& named is None ==> (r matches Err(RunError::Account(AccountError::NotNamed(_))))
                &&& (named matches Some(n) && !a.has(n)) ==> (r matches Err(RunError::Account(AccountError::Unknown { .. })))
                &&& forall|i: int| 0 <= i < a.accounts@.len() && named == Some(#[trigger] a.accounts@[i].0@) ==> {
                        let acc = a.accounts@[i].1;
                        &&& acc.harness@ != state.ctx.project.config.harness@ ==> (r matches Err(
                            RunError::WrongHarness { account, has, wants },
                        ) && account@ == a.accounts@[i].0@ && has@ == acc.harness@ && wants@ == state.ctx.project.config.harness@)
                        &&& acc.harness@ == state.ctx.project.config.harness@ ==> (r matches Ok((s, StartAction::ReadToken { path }))
                            && s.phase == StartPhase::Token && path@ == path_join(nunki_home_of(state.ctx.project), acc.token_file@))
                    }
            },
            _ => false,
        },
        state.phase is Token ==> match event {
            StartEvent::TokenRead(t) => if trim(t@).len() == 0 {
                r matches Err(RunError::Account(AccountError::NoToken { .. }))
            } else {
                r matches Ok((s, StartAction::CheckImages { names })) && s.phase == StartPhase::Checking
                    && views(names@) == start_images(state.ctx) && (s.token matches Some(k) && k@ == trim(t@))
            },
            _ => false,
        },
        state.phase is Checking ==> match event {
            StartEvent::ImagesChecked(b) => if !b@[0] {
                r matches Err(RunError::NoImages(n)) && n@ == start_images(state.ctx)[0]
            } else if !b@[1] {
                r matches Err(RunError::NoImages(n)) && n@ == start_images(state.ctx)[1]
            } else {
                r matches Ok((s, StartAction::ReadBranch { tree, base })) && s.phase == StartPhase::Branching
                    && tree@ == state.ctx.tree@ && base@ == state.header->0.base@
            },
            _ => false,
        },
        state.phase is Branching ==> match event {
            StartEvent::BranchRead { current: Err(e), .. } => r matches Err(RunError::Git(x)) && x == e,
            StartEvent::BranchRead { current: Ok(c), base_local } => if c@ == state.header->0.branch@ {
                r matches Ok((s, StartAction::WritePrompt { path, text })) && s.phase == StartPhase::Prompting
                    && path@ == path_join(start_dir(state.ctx), crate::role::PROMPT_FILE@)
                    && text@ == crate::role::particular(Role::Coder) + "\n\n"@ + crate::role::COMMON@ + "\n"@
            } else {
                r matches Ok((s, StartAction::Checkout { tree, args })) && s.phase == StartPhase::CheckingOut
                    && tree@ == state.ctx.tree@ && views(args@) == checkout_args(state.header->0.branch@,
                    if base_local { state.header->0.base@ } else { "origin/"@ + state.header->0.base@ })
            },
            _ => false,
        },
        state.phase is CheckingOut ==> match event {
            StartEvent::CheckedOut(Err(e)) => r matches Err(RunError::Git(x)) && x == e,
            _ => r matches Ok((s, StartAction::WritePrompt { path, .. })) && s.phase == StartPhase::Prompting
                && path@ == path_join(start_dir(state.ctx), crate::role::PROMPT_FILE@),
        },
        state.phase is Prompting ==> match event {
            StartEvent::Written(Err(w)) => r matches Err(RunError::Io(p, x))
                && p@ == path_join(start_dir(state.ctx), crate::role::PROMPT_FILE@) && x@ == w@,
            _ => match start_perimeter(state.ctx) {
                Err(ev) => r matches Err(RunError::Perimeter(e)) && e@ == ev,
                Ok((ds, ads)) => r matches Ok((s, StartAction::WriteProfile { path, plan })) && {
                    &&& s.phase == StartPhase::Profiling
                    &&& path@ == path_join(path_join(state.ctx.project.hq_root@, "profiles"@), state.ctx.slot@ + ".yml"@)
                    &&& plan.session@ == state.ctx.session@ && plan.slot@ == state.ctx.slot@ && plan.role == Role::Coder
                    &&& plan.image@ == start_images(state.ctx)[0] && plan.firewall_image@ == start_images(state.ctx)[1]
                    &&& plan.tree@ == state.ctx.tree@ && plan.mission_dir@ == start_dir(state.ctx) && plan.user == state.ctx.user
                    &&& plan.credentials@.len() == 0
                    &&& crate::text::pairs_map(plan.environment@) == Map::<Seq<char>, Seq<char>>::empty().insert(
                        state.ctx.token_env@, state.token->0@).insert("HQ_ROLE"@, "coder"@).insert("HQ_BRANCH"@, state.header->0.branch@)
                    &&& plan.perimeter.well_formed()
                    &&& views(plan.perimeter.domains@).to_set() == ds.to_set()
                    &&& views(plan.perimeter.addresses@).to_set() == ads.to_set()
                },
            },
        },
        state.phase is Profiling ==> match event {
            StartEvent::Written(Err(w)) => r matches Err(RunError::Io(p, x))
                && p@ == path_join(path_join(state.ctx.project.hq_root@, "profiles"@), state.ctx.slot@ + ".yml"@) && x@ == w@,
            _ => match crate::compose::spec_project_name(state.ctx.session@, state.ctx.slot@) {
                Ok(n) => r matches Ok((s, StartAction::Up { file, project })) && s.phase == StartPhase::Lifting
                    && project@ == n && file@ == path_join(path_join(state.ctx.project.hq_root@, "profiles"@), state.ctx.slot@ + ".yml"@),
                Err(n) => r matches Err(RunError::Compose(crate::compose::ComposeError::SlotName(x))) && x@ == n,
            },
        },
        state.phase is Lifting ==> match event {
            StartEvent::Up(Err(e)) => r matches Err(RunError::Engine(x)) && x == e,
            _ => r matches Ok((s, StartAction::Launch { request, file, project })) && s.phase == StartPhase::Launching
                && request.role == Role::Coder && request.attempt == 1 && !request.resume
                && request.session.0@ == state.ctx.run_session@ && request.workspace.tree@ == TREE_AT@
                && request.workspace.mission_dir@ == MISSION_AT@
                && request.runs_dir@ == path_join(start_dir(state.ctx), "runs"@)
                && project@ == state.compose->0@,
        },
        state.phase is Launching ==> match event {
            StartEvent::Launched(Err(w)) => r matches Err(RunError::Launch(x)) && x@ == w@,
            StartEvent::Launched(Ok(h)) => if state.header->0.lots@.len() == 0 {
                r matches Err(RunError::State(crate::state::StateError::Flow(crate::mission::flow::FlowError::NoLots)))
            } else {
                r matches Ok((s, StartAction::Save { state: m })) && s.phase == StartPhase::Saving
                    && m.id@ == state.ctx.id@ && m.slot@ == state.ctx.slot@ && m.run == Some(h) && m.app is None
                    && m.flow.header == state.header->0
            },
            _ => false,
        },
        state.phase is Saving ==> match event {
            StartEvent::Saved(Err(e)) => r matches Err(RunError::State(x)) && x == e,
            _ => r matches Ok((s, StartAction::Started)) && s.phase == StartPhase::Done,
        },
{
    let StartState { phase, ctx, header, accounts, account, token, compose } = state;
    match phase {
        StartPhase::Begin => {
            if let StartEvent::StateRead(true) = event {
                return Err(RunError::AlreadyStarted(owned(ctx.id.as_str())));
            }
            let slot = owned(ctx.slot.as_str());
            Ok((StartState { phase: StartPhase::Locking, ctx, header, accounts, account, token, compose }, StartAction::Lock { slot }))
        },
        StartPhase::Locking => {
            if let StartEvent::Locked(Err(e)) = event {
                return Err(RunError::Lock(e));
            }
            let id = owned(ctx.id.as_str());
            Ok((StartState { phase: StartPhase::Reading, ctx, header, accounts, account, token, compose }, StartAction::ReadHeader { id }))
        },
        StartPhase::Reading => {
            match event {
                StartEvent::HeaderRead(Err(e)) => Err(RunError::Mission(e)),
                StartEvent::HeaderRead(Ok(h)) => Ok((
                    StartState { phase: StartPhase::Choosing, ctx, header: Some(h), accounts, account, token, compose },
                    StartAction::ReadAccounts,
                )),
                _ => Err(RunError::NoHome),
            }
        },
        StartPhase::Choosing => {
            let a = match event {
                StartEvent::AccountsRead(Err(e)) => return Err(RunError::Account(e)),
                StartEvent::AccountsRead(Ok(a)) => a,
                _ => return Err(RunError::NoHome),
            };
            let home = ctx.project.nunki_home();
            let from_mission = match &header {
                Some(h) => match &h.account {
                    Some(x) => Some(x.as_str()),
                    None => None,
                },
                None => None,
            };
            let from_project = match &ctx.project.config.account {
                Some(x) => Some(x.as_str()),
                None => None,
            };
            let (name, acc) = match a.choose_account(home.as_str(), from_mission, from_project) {
                Ok(pair) => pair,
                Err(e) => return Err(RunError::Account(e)),
            };
            proof {
                assert forall|i: int, j: int| 0 <= i < a.accounts@.len() && 0 <= j < a.accounts@.len()
                    && a.accounts@[i].0@ == a.accounts@[j].0@ implies i == j by {
                    crate::account::lemma_names_unique(&a, i, j);
                }
            }
            if !str_eq(acc.harness.as_str(), ctx.project.config.harness.as_str()) {
                return Err(RunError::WrongHarness {
                    account: name,
                    has: owned(acc.harness.as_str()),
                    wants: owned(ctx.project.config.harness.as_str()),
                });
            }
            let path = acc.token_path(home.as_str());
            Ok((
                StartState { phase: StartPhase::Token, ctx, header, accounts: Some(a), account: Some((name, acc)), token, compose },
                StartAction::ReadToken { path },
            ))
        },
        StartPhase::Token => {
            let t = match event {
                StartEvent::TokenRead(t) => t,
                _ => return Err(RunError::NoHome),
            };
            let (name, acc) = match &account {
                Some(pair) => (pair.0.as_str(), &pair.1),
                None => return Err(RunError::NoHome),
            };
            let home = ctx.project.nunki_home();
            let k = match crate::account::token_from(acc, home.as_str(), name, t.as_str()) {
                Ok(k) => k,
                Err(e) => return Err(RunError::Account(e)),
            };
            let names = image_names(&ctx);
            Ok((
                StartState { phase: StartPhase::Checking, ctx, header, accounts, account, token: Some(k), compose },
                StartAction::CheckImages { names },
            ))
        },
        StartPhase::Checking => {
            let b = match event {
                StartEvent::ImagesChecked(b) => b,
                _ => return Err(RunError::NoHome),
            };
            let names = image_names(&ctx);
            assert(views(names@).len() == 2);
            assert(views(names@)[0] == names@[0]@ && views(names@)[1] == names@[1]@);
            if !b[0] {
                return Err(RunError::NoImages(owned(names[0].as_str())));
            }
            if !b[1] {
                return Err(RunError::NoImages(owned(names[1].as_str())));
            }
            let base = match &header {
                Some(h) => owned(h.base.as_str()),
                None => return Err(RunError::NoHome),
            };
            let tree = owned(ctx.tree.as_str());
            Ok((
                StartState { phase: StartPhase::Branching, ctx, header, accounts, account, token, compose },
                StartAction::ReadBranch { tree, base },
            ))
        },
        StartPhase::Branching => {
            let (current, base_local) = match event {
                StartEvent::BranchRead { current, base_local } => (current, base_local),
                _ => return Err(RunError::NoHome),
            };
            let c = match current {
                Err(e) => return Err(RunError::Git(e)),
                Ok(c) => c,
            };
            let (branch, base) = match &header {
                Some(h) => (owned(h.branch.as_str()), owned(h.base.as_str())),
                None => return Err(RunError::NoHome),
            };
            if str_eq(c.as_str(), branch.as_str()) {
                let (path, text) = prompt_action(&ctx);
                return Ok((
                    StartState { phase: StartPhase::Prompting, ctx, header, accounts, account, token, compose },
                    StartAction::WritePrompt { path, text },
                ));
            }
            let start = branch_start(base.as_str(), base_local);
            let mut args: Vec<String> = Vec::new();
            args.push(owned("checkout"));
            args.push(owned("-q"));
            args.push(owned("-B"));
            args.push(branch);
            args.push(start);
            proof {
                reveal_strlit("checkout");
                reveal_strlit("-q");
                reveal_strlit("-B");
            }
            assert(views(args@) =~= checkout_args(header->0.branch@, if base_local { header->0.base@ } else { "origin/"@ + header->0.base@ }));
            let tree = owned(ctx.tree.as_str());
            Ok((
                StartState { phase: StartPhase::CheckingOut, ctx, header, accounts, account, token, compose },
                StartAction::Checkout { tree, args },
            ))
        },
        StartPhase::CheckingOut => {
            if let StartEvent::CheckedOut(Err(e)) = event {
                return Err(RunError::Git(e));
            }
            let (path, text) = prompt_action(&ctx);
            Ok((
                StartState { phase: StartPhase::Prompting, ctx, header, accounts, account, token, compose },
                StartAction::WritePrompt { path, text },
            ))
        },
        StartPhase::Prompting => {
            let dir = crate::mission::dir::Paths::of(ctx.project.hq_root.as_str(), ctx.id.as_str()).dir;
            if let StartEvent::Written(Err(w)) = event {
                return Err(RunError::Io(join_path(dir.as_str(), crate::role::PROMPT_FILE), w));
            }
            let perimeter = {
                let services: Vec<crate::mission::Service> = Vec::new();
                assert(services@ =~= Seq::<crate::mission::Service>::empty());
                let sources = crate::perimeter::Sources {
                    stack: ctx.stack_domains.as_slice(),
                    harness: ctx.harness_domains.as_slice(),
                    services: services.as_slice(),
                    forge: ctx.project.config.forge.as_slice(),
                };
                match crate::perimeter::compute(Role::Coder, &sources, ctx.ip_hosts.as_slice()) {
                    Ok(p) => p,
                    Err(e) => return Err(RunError::Perimeter(e)),
                }
            };
            let (k, branch) = match (&token, &header) {
                (Some(k), Some(h)) => (k.as_str(), h.branch.as_str()),
                _ => return Err(RunError::NoHome),
            };
            let env = environment(ctx.token_env.as_str(), k, branch);
            let names = image_names(&ctx);
            assert(views(names@).len() == 2);
            assert(views(names@)[0] == names@[0]@ && views(names@)[1] == names@[1]@);
            let plan = plan(
                ctx.session.as_str(),
                ctx.slot.as_str(),
                ctx.tree.as_str(),
                names[0].as_str(),
                names[1].as_str(),
                ctx.user,
                dir.as_str(),
                ctx.harness_dir.as_str(),
                env,
                perimeter,
            );
            let path = profile_path(ctx.project.hq_root.as_str(), ctx.slot.as_str());
            Ok((
                StartState { phase: StartPhase::Profiling, ctx, header, accounts, account, token, compose },
                StartAction::WriteProfile { path, plan },
            ))
        },
        StartPhase::Profiling => {
            let file = profile_path(ctx.project.hq_root.as_str(), ctx.slot.as_str());
            if let StartEvent::Written(Err(w)) = event {
                return Err(RunError::Io(file, w));
            }
            let name = match crate::compose::project_name(ctx.session.as_str(), ctx.slot.as_str()) {
                Ok(n) => n,
                Err(e) => return Err(RunError::Compose(e)),
            };
            let project = owned(name.as_str());
            Ok((
                StartState { phase: StartPhase::Lifting, ctx, header, accounts, account, token, compose: Some(name) },
                StartAction::Up { file, project },
            ))
        },
        StartPhase::Lifting => {
            if let StartEvent::Up(Err(e)) = event {
                return Err(RunError::Engine(e));
            }
            let dir = crate::mission::dir::Paths::of(ctx.project.hq_root.as_str(), ctx.id.as_str()).dir;
            let lot = match &header {
                Some(h) => first_lot(h),
                None => return Err(RunError::NoHome),
            };
            let project = match &compose {
                Some(c) => owned(c.as_str()),
                None => return Err(RunError::NoHome),
            };
            let request = crate::harness::RunRequest {
                role: Role::Coder,
                workspace: crate::harness::Workspace { tree: owned(TREE_AT), mission_dir: owned(MISSION_AT) },
                lot,
                attempt: 1,
                session: crate::harness::SessionId(owned(ctx.run_session.as_str())),
                resume: false,
                runs_dir: join_path(dir.as_str(), "runs"),
            };
            let file = profile_path(ctx.project.hq_root.as_str(), ctx.slot.as_str());
            Ok((
                StartState { phase: StartPhase::Launching, ctx, header, accounts, account, token, compose },
                StartAction::Launch { request, file, project },
            ))
        },
        StartPhase::Launching => {
            let h = match event {
                StartEvent::Launched(Err(w)) => return Err(RunError::Launch(w)),
                StartEvent::Launched(Ok(h)) => h,
                _ => return Err(RunError::NoHome),
            };
            let header = match header {
                Some(x) => x,
                None => return Err(RunError::NoHome),
            };
            let flow = match crate::mission::flow::Flow::new(header) {
                Ok(f) => f,
                Err(e) => return Err(RunError::State(crate::state::StateError::Flow(e))),
            };
            let m = crate::state::MissionState {
                id: owned(ctx.id.as_str()),
                slot: owned(ctx.slot.as_str()),
                flow,
                run: Some(h),
                app: None,
                updated_at: owned(""),
            };
            Ok((
                StartState { phase: StartPhase::Saving, ctx, header: None, accounts, account, token, compose },
                StartAction::Save { state: m },
            ))
        },
        StartPhase::Saving => {
            if let StartEvent::Saved(Err(e)) = event {
                return Err(RunError::State(e));
            }
            Ok((StartState { phase: StartPhase::Done, ctx, header, accounts, account, token, compose }, StartAction::Started))
        },
        StartPhase::Done => Err(RunError::NoHome),
    }
}

/// Where the role's prompt goes, and what it says.
fn prompt_action(ctx: &StartContext) -> (r: (String, String))
    ensures
        r.0@ == path_join(start_dir(*ctx), crate::role::PROMPT_FILE@),
        r.1@ == crate::role::particular(Role::Coder) + "\n\n"@ + crate::role::COMMON@ + "\n"@,
{
    let dir = crate::mission::dir::Paths::of(ctx.project.hq_root.as_str(), ctx.id.as_str()).dir;
    (join_path(dir.as_str(), crate::role::PROMPT_FILE), crate::role::prompt(Role::Coder))
}

} // verus!
