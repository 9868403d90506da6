//! Accounts: which subscription a mission spends.
//!
//! One human can hold several, and a mission says which it runs on. The
//! choice is made when the mission is framed and frozen with the rest of the
//! header. Accounts live at `~/.hq/accounts.yaml`, outside every repository;
//! the tokens are in files of their own, one per account, so the index can be
//! read without reading the secrets.

use vstd::prelude::*;
use crate::text::{
    debug_quoted, quoted,
    opt_str, opt_view,
    chars_of, join, join_path, join_strings, owned, path_join, push_str, str_eq, strictly_sorted,
    trim, trim_span, string_of, views,
};

verus! {

/// The file that names the accounts, under `~/.hq/`.
pub const INDEX_FILE: &'static str = "accounts.yaml";
/// Where the tokens themselves live, one file per account.
pub const TOKENS_DIR: &'static str = "accounts";

/// One subscription.
#[derive(Debug, Clone, PartialEq, Eq)]
pub struct Account {
    /// Which harness this account authenticates.
    pub harness: String,
    /// Where the token is. Relative paths are taken from `~/.hq/`.
    pub token_file: String,
    /// What this account is, for a human reading the list.
    pub note: Option<String>,
}

/// An account, its words as text.
pub struct AccountView {
    pub harness: Seq<char>,
    pub token_file: Seq<char>,
    pub note: Option<Seq<char>>,
}

impl View for Account {
    type V = AccountView;

    open spec fn view(&self) -> AccountView {
        AccountView {
            harness: self.harness@,
            token_file: self.token_file@,
            note: opt_view(self.note),
        }
    }
}

impl Account {
    /// A copy of this account.
    pub fn copied(&self) -> (r: Account)
        ensures
            r@ == self@,
    {
        Account {
            harness: owned(self.harness.as_str()),
            token_file: owned(self.token_file.as_str()),
            note: match &self.note {
                Some(n) => Some(owned(n.as_str())),
                None => None,
            },
        }
    }

    /// Where the token is, resolved: a relative path is taken from `~/.hq/`,
    /// so an index can be written without absolute paths.
    pub fn token_path(&self, hq_home: &str) -> (r: String)
        ensures
            r@ == path_join(hq_home@, self.token_file@),
    {
        join_path(hq_home, self.token_file.as_str())
    }
}

/// The index of accounts: each name once, in order, with the one used when
/// neither the mission nor the project names one.
#[derive(Debug, Clone, PartialEq, Eq)]
pub struct Accounts {
    pub accounts: Vec<(String, Account)>,
    pub default: Option<String>,
}

/// Why an account could not be had.
#[derive(Debug)]
pub enum AccountError {
    Unknown { name: String, known: String },
    NotNamed(String),
    NoToken { name: String, path: String, command: String },
    Invalid(String, String),
    Io(String, String),
}

/// What an unknown account's error says.
pub open spec fn unknown_message(name: Seq<char>, known: Seq<char>) -> Seq<char> {
    "no account "@ + debug_quoted(name) + "; "@ + known
}

/// What the error for an account nobody named says.
pub open spec fn not_named_message(index: Seq<char>) -> Seq<char> {
    "no account named: put one in the mission's header (`hq mission new --account <name>`), in hq.yaml, or as `default:` in "@
        + index
}

/// What an account error says.
pub open spec fn account_error_message(e: AccountError) -> Seq<char> {
    match e {
        AccountError::Unknown { name, known } => unknown_message(name@, known@),
        AccountError::NotNamed(index) => not_named_message(index@),
        AccountError::NoToken { name, path, command } => "account "@ + debug_quoted(name@) + " has no token at "@
            + path@ + " — put the output of `"@ + command@ + "` there"@,
        AccountError::Invalid(path, why) => path@ + " is not valid: "@ + why@,
        AccountError::Io(path, why) => path@ + ": "@ + why@,
    }
}

impl AccountError {
    /// What the error says, in words a human acts on.
    pub fn message(&self) -> (r: String)
        ensures
            r@ == account_error_message(*self),
    {
        match self {
            AccountError::Unknown { name, known } => {
                let mut m = owned("no account ");
                push_str(&mut m, quoted(name.as_str()).as_str());
                push_str(&mut m, "; ");
                push_str(&mut m, known.as_str());
                m
            },
            AccountError::NotNamed(index) => {
                let mut m = owned(
                    "no account named: put one in the mission's header (`hq mission new --account <name>`), in hq.yaml, or as `default:` in ",
                );
                push_str(&mut m, index.as_str());
                m
            },
            AccountError::NoToken { name, path, command } => {
                let mut m = owned("account ");
                push_str(&mut m, quoted(name.as_str()).as_str());
                push_str(&mut m, " has no token at ");
                push_str(&mut m, path.as_str());
                push_str(&mut m, " — put the output of `");
                push_str(&mut m, command.as_str());
                push_str(&mut m, "` there");
                m
            },
            AccountError::Invalid(path, why) => {
                let mut m = owned(path.as_str());
                push_str(&mut m, " is not valid: ");
                push_str(&mut m, why.as_str());
                m
            },
            AccountError::Io(path, why) => {
                let mut m = owned(path.as_str());
                push_str(&mut m, ": ");
                push_str(&mut m, why.as_str());
                m
            },
        }
    }
}

/// Which account a mission spends: the mission's choice, else the
/// project's, else the index's default, else the only account there is.
pub open spec fn chosen_name(
    names: Seq<Seq<char>>,
    default: Option<Seq<char>>,
    from_mission: Option<Seq<char>>,
    from_project: Option<Seq<char>>,
) -> Option<Seq<char>> {
    if from_mission is Some {
        from_mission
    } else if from_project is Some {
        from_project
    } else if default is Some {
        default
    } else if names.len() == 1 {
        Some(names[0])
    } else {
        None
    }
}

/// What an unknown account's message says of the ones there are.
pub open spec fn known_message(names: Seq<Seq<char>>, index: Seq<char>) -> Seq<char> {
    if names.len() == 0 {
        "none are declared in "@ + index
    } else {
        "known: "@ + join(names, ", "@)
    }
}

/// How a human obtains a token for a harness.
pub open spec fn spec_setup_command(harness: Seq<char>) -> Seq<char> {
    if harness == "codex"@ {
        "codex login --api-key, or your provider's console"@
    } else {
        "whatever "@ + harness + " uses to issue a long-lived token"@
    }
}

impl Accounts {
    /// The names, in order.
    pub open spec fn name_views(&self) -> Seq<Seq<char>> {
        Seq::new(self.accounts@.len(), |i: int| self.accounts@[i].0@)
    }

    /// The name the mission, the project or the index points at.
    pub open spec fn choice(&self, from_mission: Option<&str>, from_project: Option<&str>) -> Option<Seq<char>> {
        chosen_name(self.name_views(), opt_view(self.default), opt_str(from_mission), opt_str(from_project))
    }

    /// Whether an account is named `name`.
    pub open spec fn has(&self, name: Seq<char>) -> bool {
        exists|i: int| 0 <= i < self.accounts@.len() && #[trigger] self.accounts@[i].0@ == name
    }

    /// Each name once, in order.
    pub open spec fn well_formed(&self) -> bool {
        strictly_sorted(self.name_views())
    }

    /// The names, in order.
    pub fn names(&self) -> (r: Vec<String>)
        ensures
            views(r@) == self.name_views(),
    {
        let mut r: Vec<String> = Vec::new();
        let mut i: usize = 0;
        while i < self.accounts.len()
            invariant
                i <= self.accounts@.len(),
                views(r@) == self.name_views().take(i as int),
            decreases self.accounts@.len() - i,
        {
            let ghost before = views(r@);
            let n = owned(self.accounts[i].0.as_str());
            r.push(n);
            assert(views(r@) =~= before.push(self.accounts@[i as int].0@));
            i += 1;
            assert(views(r@) =~= self.name_views().take(i as int));
        }
        assert(self.name_views().take(i as int) =~= self.name_views());
        r
    }

    /// The account to use, given what the mission asks and what the project
    /// declares: the mission wins, then the project, then the index's own
    /// default; and when a single account exists, it is the answer rather
    /// than a question.
    pub fn choose_account(&self, hq_home: &str, from_mission: Option<&str>, from_project: Option<&str>) -> (r: Result<(String, Account), AccountError>)
        requires
            self.well_formed(),
        ensures
            match self.choice(from_mission, from_project) {
                None => r matches Err(AccountError::NotNamed(p)) && p@ == path_join(hq_home@, INDEX_FILE@),
                Some(name) => if self.has(name) {
                    r matches Ok((n, a)) && n@ == name && exists|i: int| 0 <= i < self.accounts@.len()
                        && #[trigger] self.accounts@[i].0@ == name && a@ == self.accounts@[i].1@
                } else {
                    r matches Err(AccountError::Unknown { name: n, known }) && n@ == name
                        && known@ == known_message(self.name_views(), path_join(hq_home@, INDEX_FILE@))
                },
            },
    {
        let name = match from_mission {
            Some(m) => owned(m),
            None => match from_project {
                Some(p) => owned(p),
                None => match &self.default {
                    Some(d) => owned(d.as_str()),
                    None => if self.accounts.len() == 1 {
                        owned(self.accounts[0].0.as_str())
                    } else {
                        return Err(AccountError::NotNamed(join_path(hq_home, INDEX_FILE)));
                    },
                },
            },
        };
        let ghost want = chosen_name(
            self.name_views(),
            opt_view(self.default),
            opt_str(from_mission),
            opt_str(from_project),
        );
        assert(want == Some(name@));
        let mut i: usize = 0;
        while i < self.accounts.len()
            invariant
                i <= self.accounts@.len(),
                want == Some(name@),
                want == chosen_name(
                    self.name_views(),
                    opt_view(self.default),
                    opt_str(from_mission),
                    opt_str(from_project),
                ),
                forall|j: int| 0 <= j < i ==> self.accounts@[j].0@ != name@,
            decreases self.accounts@.len() - i,
        {
            if str_eq(self.accounts[i].0.as_str(), name.as_str()) {
                let account = self.accounts[i].1.copied();
                assert(self.accounts@[i as int].0@ == name@);
                return Ok((name, account));
            }
            i += 1;
        }
        let index = join_path(hq_home, INDEX_FILE);
        let known = if self.accounts.len() == 0 {
            let mut k = owned("none are declared in ");
            push_str(&mut k, index.as_str());
            k
        } else {
            let names = self.names();
            let mut k = owned("known: ");
            let listed = join_strings(names.as_slice(), ", ");
            push_str(&mut k, listed.as_str());
            k
        };
        Err(AccountError::Unknown { name, known })
    }
}

/// In a well-formed index, names further down come later.
pub proof fn lemma_names_ordered(a: &Accounts, i: int, j: int)
    requires
        a.well_formed(),
        0 <= i < j < a.accounts@.len(),
    ensures
        crate::text::lex_lt(a.accounts@[i].0@, a.accounts@[j].0@),
    decreases j - i,
{
    assert(crate::text::in_order(a.name_views(), j - 1));
    if i < j - 1 {
        lemma_names_ordered(a, i, j - 1);
        crate::text::lemma_lex_trans(a.accounts@[i].0@, a.accounts@[j - 1].0@, a.accounts@[j].0@);
    }
}

/// In a well-formed index, a name is held by one account at most.
pub proof fn lemma_names_unique(a: &Accounts, i: int, j: int)
    requires
        a.well_formed(),
        0 <= i < a.accounts@.len(),
        0 <= j < a.accounts@.len(),
        a.accounts@[i].0@ == a.accounts@[j].0@,
    ensures
        i == j,
{
    if i < j {
        lemma_names_ordered(a, i, j);
        crate::text::lemma_lex_irreflexive(a.accounts@[i].0@);
    } else if j < i {
        lemma_names_ordered(a, j, i);
        crate::text::lemma_lex_irreflexive(a.accounts@[j].0@);
    }
}

/// How a human obtains a token for a harness. Named per harness because the
/// answer differs, and saying "run the right command" helps nobody.
pub fn setup_command(harness: &str) -> (r: String)
    ensures
        r@ == spec_setup_command(harness@),
{
    proof {
        reveal_strlit("codex");
    }
    if str_eq(harness, "codex") {
        owned("codex login --api-key, or your provider's console")
    } else {
        let mut r = owned("whatever ");
        push_str(&mut r, harness);
        push_str(&mut r, " uses to issue a long-lived token");
        r
    }
}

/// The token an account's file holds, once read: the file's text trimmed. An
/// empty one is no token, and the error says where to put one and how to get
/// it.
pub fn token_from(account: &Account, hq_home: &str, name: &str, text: &str) -> (r: Result<String, AccountError>)
    ensures
        trim(text@).len() > 0 ==> (r matches Ok(t) && t@ == trim(text@)),
        trim(text@).len() == 0 ==> (r matches Err(AccountError::NoToken { name: n, path, command })
            && n@ == name@ && path@ == path_join(hq_home@, account.token_file@)
            && command@ == spec_setup_command(account.harness@)),
{
    let v = chars_of(text);
    let (a, b) = trim_span(v.as_slice(), 0, v.len());
    assert(v@.subrange(0, v@.len() as int) =~= text@);
    if a == b {
        return Err(AccountError::NoToken {
            name: owned(name),
            path: account.token_path(hq_home),
            command: setup_command(account.harness.as_str()),
        });
    }
    Ok(string_of(v.as_slice(), a, b))
}

} // verus!
