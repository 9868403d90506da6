//! The lock on a real provider.
//!
//! Two missions running system tests against one real third-party API at
//! once trample each other. So a service the mission's header declares
//! shared is locked, for the other missions of the project, for as long as
//! an integration run uses it. The lock is derived from the state, not kept
//! beside it: a provider is taken while another mission stands on its
//! integration stage with a run recorded and declares it. Reading the states
//! and taking the short guard files are the program's part.

use vstd::prelude::*;
use crate::mission::{Header, Integration, Service};
use crate::mission::flow::Stage;
use crate::text::{decimal, owned, push_char, push_str, spec_decimal, str_eq, views};

verus! {

/// Why a provider claim could not be made.
#[derive(Debug)]
pub enum ProviderError {
    State(crate::state::StateError),
    Lock(crate::state::lock::LockError),
}

/// What a launch that needs the providers gets.
#[derive(Debug)]
pub enum Claim {
    /// Every shared provider is free.
    Free,
    /// One is taken, and by whom.
    Busy { provider: String, by: String },
}

/// The names of the services marked shared, in order.
pub open spec fn shared_names(services: Seq<Service>) -> Seq<Seq<char>>
    decreases services.len(),
{
    if services.len() == 0 {
        Seq::empty()
    } else if services.last().shared {
        shared_names(services.drop_last()).push(services.last().name@)
    } else {
        shared_names(services.drop_last())
    }
}

/// The providers a header declares shared, in the order declared.
pub open spec fn spec_shared(header: Header) -> Seq<Seq<char>> {
    match header.integration {
        Integration::Services { services, .. } => shared_names(services@),
        Integration::Declined { .. } => Seq::empty(),
    }
}

/// The providers a header declares shared, in the order declared.
pub fn shared(header: &Header) -> (r: Vec<String>)
    ensures
        views(r@) == spec_shared(*header),
{
    let mut r: Vec<String> = Vec::new();
    match &header.integration {
        Integration::Services { services, .. } => {
            let mut i: usize = 0;
            while i < services.len()
                invariant
                    i <= services@.len(),
                    views(r@) == shared_names(services@.take(i as int)),
                decreases services@.len() - i,
            {
                assert(services@.take(i + 1).drop_last() =~= services@.take(i as int));
                let ghost before = views(r@);
                if services[i].shared {
                    r.push(owned(services[i].name.as_str()));
                    assert(views(r@) =~= before.push(services@[i as int].name@));
                }
                i += 1;
            }
            assert(services@.take(i as int) =~= services@);
        },
        Integration::Declined { .. } => {
            assert(views(r@) =~= Seq::<Seq<char>>::empty());
        },
    }
    r
}

/// What one mission's state says about the providers: its id, its stage,
/// whether a run is recorded, and its frozen header.
pub struct Standing {
    pub id: String,
    pub stage: Stage,
    pub running: bool,
    pub header: Header,
}

/// Whether a mission holds a provider: on its integration stage, with a
/// run recorded, and declaring it shared.
pub open spec fn holds(s: Standing, provider: Seq<char>) -> bool {
    s.stage is Integration && s.running && spec_shared(s.header).contains(provider)
}

/// The first mission, in the order given and other than `me`, that holds
/// `provider`.
pub open spec fn spec_holder(ms: Seq<Standing>, me: Seq<char>, provider: Seq<char>) -> Option<int> {
    let k = crate::text::first_from(0, ms.len() as int, |i: int| ms[i].id@ != me && holds(ms[i], provider));
    if k < ms.len() { Some(k) } else { None }
}

fn declares(names: &Vec<String>, provider: &str) -> (b: bool)
    ensures
        b == views(names@).contains(provider@),
{
    let mut i: usize = 0;
    while i < names.len()
        invariant
            i <= names@.len(),
            forall|j: int| 0 <= j < i ==> names@[j]@ != provider@,
        decreases names@.len() - i,
    {
        if str_eq(names[i].as_str(), provider) {
            assert(views(names@)[i as int] == provider@);
            return true;
        }
        i += 1;
    }
    assert(!views(names@).contains(provider@)) by {
        if views(names@).contains(provider@) {
            let j = choose|j: int| 0 <= j < views(names@).len() && views(names@)[j] == provider@;
            assert(names@[j]@ == provider@);
        }
    }
    false
}

/// The mission, other than `me`, whose integration run holds `provider`.
pub fn holder(ms: &[Standing], me: &str, provider: &str) -> (r: Option<String>)
    ensures
        match (r, spec_holder(ms@, me@, provider@)) {
            (Some(id), Some(k)) => id@ == ms@[k].id@,
            (None, None) => true,
            _ => false,
        },
{
    let ghost q = |i: int| ms@[i].id@ != me@ && holds(ms@[i], provider@);
    let mut i: usize = 0;
    while i < ms.len()
        invariant
            i <= ms@.len(),
            q == (|i: int| ms@[i].id@ != me@ && holds(ms@[i], provider@)),
            crate::text::first_from(0, ms@.len() as int, q) == crate::text::first_from(i as int, ms@.len() as int, q),
        decreases ms@.len() - i,
    {
        let m = &ms[i];
        let on = match m.stage {
            Stage::Integration { .. } => true,
            _ => false,
        };
        let held = !str_eq(m.id.as_str(), me) && on && m.running && declares(&shared(&m.header), provider);
        if held {
            assert(q(i as int));
            return Some(owned(m.id.as_str()));
        }
        assert(!q(i as int));
        i += 1;
    }
    None
}

/// The guard's file name for a provider: letters, digits, `-`, `_` and `.`
/// kept, anything else made `_`, after `provider-`. A provider's name is the
/// human's to choose, and a file name is not.
pub open spec fn safe_char(c: char) -> char {
    if ('a' <= c && c <= 'z') || ('A' <= c && c <= 'Z') || ('0' <= c && c <= '9') || c == '-' || c == '_' || c == '.' {
        c
    } else {
        '_'
    }
}

/// The guard's file name for a provider.
pub fn guard_name(provider: &str) -> (r: String)
    ensures
        r@ == "provider-"@ + provider@.map_values(|c: char| safe_char(c)),
{
    let v = crate::text::chars_of(provider);
    let mut r = owned("provider-");
    let ghost start = r@;
    let mut i: usize = 0;
    while i < v.len()
        invariant
            v@ == provider@,
            i <= v@.len(),
            start == "provider-"@,
            r@ == start + v@.take(i as int).map_values(|c: char| safe_char(c)),
        decreases v@.len() - i,
    {
        let c = v[i];
        let s = if ('a' <= c && c <= 'z') || ('A' <= c && c <= 'Z') || ('0' <= c && c <= '9') || c == '-' || c == '_'
            || c == '.' {
            c
        } else {
            '_'
        };
        push_char(&mut r, s);
        i += 1;
        assert(r@ =~= start + v@.take(i as int).map_values(|c: char| safe_char(c)));
    }
    assert(v@.take(i as int) =~= v@);
    r
}

/// What a claim answers when another `hq` holds a provider's guard.
pub fn busy_guard(provider: &str, verb: &str, pid: u32) -> (r: Claim)
    ensures
        r matches Claim::Busy { provider: p, by } && p@ == provider@ && by@ == "`hq "@ + verb@ + "` (pid "@
            + spec_decimal(pid as nat) + "), claiming it now"@,
{
    let mut by = owned("`hq ");
    push_str(&mut by, verb);
    push_str(&mut by, "` (pid ");
    push_str(&mut by, decimal(pid as u64).as_str());
    push_str(&mut by, "), claiming it now");
    Claim::Busy { provider: owned(provider), by }
}

/// What a claim answers when another mission holds a provider.
pub fn busy_mission(provider: &str, by: &str) -> (r: Claim)
    ensures
        r matches Claim::Busy { provider: p, by: b } && p@ == provider@ && b@ == "mission "@ + by@,
{
    let mut b = owned("mission ");
    push_str(&mut b, by);
    Claim::Busy { provider: owned(provider), by: b }
}

/// The first provider `header` shares that another mission holds, and who.
pub fn blocked(ms: &[Standing], me: &str, header: &Header) -> (r: Option<(String, String)>)
    ensures
        match r {
            Some((p, by)) => exists|j: int| 0 <= j < spec_shared(*header).len() && spec_shared(*header)[j] == p@
                && (spec_holder(ms@, me@, p@) matches Some(k) && by@ == ms@[k].id@)
                && forall|i: int| 0 <= i < j ==> spec_holder(ms@, me@, #[trigger] spec_shared(*header)[i]) is None,
            None => forall|i: int| 0 <= i < spec_shared(*header).len() ==> spec_holder(ms@, me@, #[trigger] spec_shared(*header)[i]) is None,
        },
{
    let names = shared(header);
    let mut i: usize = 0;
    while i < names.len()
        invariant
            i <= names@.len(),
            views(names@) == spec_shared(*header),
            forall|j: int| 0 <= j < i ==> spec_holder(ms@, me@, #[trigger] spec_shared(*header)[j]) is None,
        decreases names@.len() - i,
    {
        assert(spec_shared(*header)[i as int] == names@[i as int]@);
        match holder(ms, me, names[i].as_str()) {
            Some(by) => return Some((owned(names[i].as_str()), by)),
            None => {},
        }
        i += 1;
    }
    None
}

} // verus!
