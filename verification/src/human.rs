//! Who the engine is talking to.
//!
//! A mission ends by giving something back to a person, and "arbitration for
//! Arnaud" and "arbitration for Igor" are different sentences. The name is
//! taken from the least surprising place that has one: a file the human
//! wrote, then git, then the account on the machine. It is never guessed
//! silently: the source says where the name came from.

use vstd::prelude::*;
use crate::text::{opt_view, owned, trim, trimmed};

verus! {

/// The file a human writes to say who they are, under `~/.nunki/`.
pub const ME_FILE: &'static str = "me.yaml";

/// What the human wrote about themselves.
#[derive(Debug, Clone, PartialEq, Eq)]
pub struct Declared {
    pub name: String,
    pub email: Option<String>,
}

/// Where a name came from: a name from `$USER` is a guess and a name from a
/// file is a statement.
#[derive(Debug, Clone, PartialEq, Eq)]
pub enum Source {
    /// `~/.nunki/me.yaml`, at this path.
    Declared(String),
    /// `git config user.name`, in the project.
    Git,
    /// The machine's account name.
    Environment,
    /// Nothing said who this is.
    Unknown,
}

impl Source {
    /// Where the name came from, in words.
    pub fn describe(&self) -> (r: String)
        ensures
            r@ == match self {
                Source::Declared(p) => p@,
                Source::Git => "git config user.name"@,
                Source::Environment => "the machine's account name"@,
                Source::Unknown => "nowhere — nothing says who you are"@,
            },
    {
        match self {
            Source::Declared(p) => owned(p.as_str()),
            Source::Git => owned("git config user.name"),
            Source::Environment => owned("the machine's account name"),
            Source::Unknown => owned("nowhere — nothing says who you are"),
        }
    }
}

/// The person on the other side.
#[derive(Debug, Clone, PartialEq, Eq)]
pub struct Human {
    pub name: Option<String>,
    pub email: Option<String>,
    pub source: Source,
}

impl Human {
    /// The name to put in front of a person, or a plain fallback that does
    /// not pretend to know one.
    pub fn addressed(&self) -> (r: String)
        ensures
            r@ == match self.name {
                Some(n) => n@,
                None => "the human"@,
            },
    {
        match &self.name {
            Some(n) => owned(n.as_str()),
            None => owned("the human"),
        }
    }

    /// Whether anything says who this is.
    pub fn is_known(&self) -> (b: bool)
        ensures
            b == self.name is Some,
    {
        self.name.is_some()
    }
}

/// What the file says, once read: the name trimmed, and nothing when it is
/// blank.
pub fn declared_of(read: Declared) -> (r: Option<Declared>)
    ensures
        trim(read.name@).len() == 0 ==> r is None,
        trim(read.name@).len() > 0 ==> (r matches Some(d) && d.name@ == trim(read.name@)
            && opt_view(d.email) == opt_view(read.email)),
{
    let name = trimmed(read.name.as_str());
    if name.as_str().unicode_len() == 0 {
        None
    } else {
        Some(Declared { name, email: read.email })
    }
}

/// Who is running the engine, from what each place said: the declared file
/// (at `me_file`), then git's `user.name` and `user.email` in the project,
/// then `$USER`. A blank answer is no answer.
pub fn me(declared: Option<Declared>, me_file: &str, git_name: Option<String>, git_email: Option<String>, user: Option<String>) -> (r: Human)
    ensures
        match declared {
            Some(d) => opt_view(r.name) == Some(d.name@) && opt_view(r.email) == opt_view(d.email)
                && (r.source matches Source::Declared(p) && p@ == me_file@),
            None => match git_name {
                Some(g) if trim(g@).len() > 0 => opt_view(r.name) == Some(trim(g@))
                    && r.source == Source::Git
                    && opt_view(r.email) == match git_email {
                        Some(e) if trim(e@).len() > 0 => Some(e@),
                        _ => None,
                    },
                _ => match user {
                    Some(u) if u@.len() > 0 => opt_view(r.name) == Some(u@) && r.email is None
                        && r.source == Source::Environment,
                    _ => r.name is None && r.email is None && r.source == Source::Unknown,
                },
            },
        },
{
    if let Some(d) = declared {
        return Human { name: Some(d.name), email: d.email, source: Source::Declared(owned(me_file)) };
    }
    if let Some(g) = git_name {
        let name = trimmed(g.as_str());
        if name.as_str().unicode_len() > 0 {
            let email = match git_email {
                Some(e) => if trimmed(e.as_str()).as_str().unicode_len() > 0 { Some(e) } else { None },
                None => None,
            };
            return Human { name: Some(name), email, source: Source::Git };
        }
    }
    match user {
        Some(u) => if u.as_str().unicode_len() > 0 {
            Human { name: Some(u), email: None, source: Source::Environment }
        } else {
            Human { name: None, email: None, source: Source::Unknown }
        },
        None => Human { name: None, email: None, source: Source::Unknown },
    }
}

} // verus!
