//! The allowlist a firewall sidecar enforces.
//!
//! Computed by the HQ, never by an agent and never read back from the slot:
//! the frozen mission header, the stack fragment and the harness adapter are
//! the only three sources. The coder's list is what his stack needs plus what
//! his harness needs, and nothing else; the integrator's and the security
//! agent's add the services the mission declares, address by address.

use vstd::prelude::*;
use crate::harness::Role;
use crate::mission::Service;
use crate::text::{
    ascii_lower, chars_of, has_suffix, owned, push_str, sorted_unique, str_eq, str_ends_with,
    strictly_sorted, string_of, to_ascii_lower, trim, trimmed, views,
};

verus! {

/// Which profile a role runs in.
#[derive(Debug, Clone, Copy, PartialEq, Eq, Structural)]
pub enum Profile {
    /// The coder: no external service, no credentials.
    Mission,
    /// The integrator and the security agent: the mission's services, its
    /// test credentials.
    System,
}

impl Profile {
    pub open spec fn spec_of(role: Role) -> Profile {
        if role == Role::Coder { Profile::Mission } else { Profile::System }
    }

    pub fn of(role: Role) -> (p: Profile)
        ensures
            p == Self::spec_of(role),
    {
        match role {
            Role::Coder => Profile::Mission,
            Role::Integrator | Role::Security => Profile::System,
        }
    }
}

/// What the sidecar is allowed to resolve and to reach. Sorted and without
/// duplicates, because the Compose file is regenerated at every launch and a
/// diff must mean a real change.
#[derive(Debug, Clone, Default, PartialEq, Eq)]
pub struct Perimeter {
    /// Names the filtering resolver answers for. Everything else is
    /// NXDOMAIN.
    pub domains: Vec<String>,
    /// Addresses reachable without a name. No private range is ever opened
    /// implicitly.
    pub addresses: Vec<String>,
}

impl Perimeter {
    /// Both lists sorted, each entry once.
    pub open spec fn well_formed(&self) -> bool {
        strictly_sorted(views(self.domains@)) && strictly_sorted(views(self.addresses@))
    }

    pub fn is_empty(&self) -> (b: bool)
        ensures
            b == (self.domains@.len() == 0 && self.addresses@.len() == 0),
    {
        self.domains.len() == 0 && self.addresses.len() == 0
    }
}

/// The three sources, and the forge that must appear in none of them.
#[derive(Debug, Clone)]
pub struct Sources<'a> {
    /// The package registries the stack needs.
    pub stack: &'a [String],
    /// What the harness adapter needs: the model API.
    pub harness: &'a [String],
    /// The services of the frozen mission header. A mission profile must not
    /// carry any.
    pub services: &'a [Service],
    /// The project's forge. No agent may reach it.
    pub forge: &'a [String],
}

/// Why an allowlist could not be built.
#[derive(Debug, Clone, PartialEq, Eq)]
pub enum PerimeterError {
    /// The allowlist names the project's forge.
    Forge { profile: String, domain: String, declared_by: String },
    /// A mission profile was given services.
    ServicesOnMissionProfile { count: usize },
    /// A source declared an empty entry.
    Empty { declared_by: String },
}

/// What an allowlist error says.
pub open spec fn perimeter_error_message(e: PerimeterErrorView) -> Seq<char> {
    match e {
        PerimeterErrorView::Forge { profile, domain, declared_by } => "the "@ + profile
            + " profile's allowlist names the project's forge ("@ + domain + "), declared by "@ + declared_by
            + " — an agent must never reach the forge"@,
        PerimeterErrorView::ServicesOnMissionProfile { count } => "the mission profile carries "@
            + crate::text::spec_decimal(count) + " service(s); only the system profile may"@,
        PerimeterErrorView::Empty { declared_by } => declared_by + " declared an empty entry"@,
    }
}

impl PerimeterError {
    /// What the error says.
    pub fn message(&self) -> (r: String)
        ensures
            r@ == perimeter_error_message(self@),
    {
        match self {
            PerimeterError::Forge { profile, domain, declared_by } => {
                let mut m = crate::text::owned("the ");
                crate::text::push_str(&mut m, profile.as_str());
                crate::text::push_str(&mut m, " profile's allowlist names the project's forge (");
                crate::text::push_str(&mut m, domain.as_str());
                crate::text::push_str(&mut m, "), declared by ");
                crate::text::push_str(&mut m, declared_by.as_str());
                crate::text::push_str(&mut m, " — an agent must never reach the forge");
                m
            },
            PerimeterError::ServicesOnMissionProfile { count } => {
                let mut m = crate::text::owned("the mission profile carries ");
                crate::text::push_str(&mut m, crate::text::decimal(*count as u64).as_str());
                crate::text::push_str(&mut m, " service(s); only the system profile may");
                m
            },
            PerimeterError::Empty { declared_by } => {
                let mut m = crate::text::owned(declared_by.as_str());
                crate::text::push_str(&mut m, " declared an empty entry");
                m
            },
        }
    }
}

/// An error of the allowlist, its words as text.
pub enum PerimeterErrorView {
    Forge { profile: Seq<char>, domain: Seq<char>, declared_by: Seq<char> },
    ServicesOnMissionProfile { count: nat },
    Empty { declared_by: Seq<char> },
}

impl View for PerimeterError {
    type V = PerimeterErrorView;

    open spec fn view(&self) -> PerimeterErrorView {
        match self {
            PerimeterError::Forge { profile, domain, declared_by } =>
                PerimeterErrorView::Forge { profile: profile@, domain: domain@, declared_by: declared_by@ },
            PerimeterError::ServicesOnMissionProfile { count } =>
                PerimeterErrorView::ServicesOnMissionProfile { count: *count as nat },
            PerimeterError::Empty { declared_by } => PerimeterErrorView::Empty { declared_by: declared_by@ },
        }
    }
}

/// The part of an entry before its first `/`, or all of it.
pub open spec fn host_part(entry: Seq<char>) -> Seq<char> {
    let k = crate::text::next_where(entry, 0, |c: char| c == '/');
    entry.take(k)
}

/// A bare address or a CIDR block, as opposed to a name: its host part is
/// among those that parse as an IP address (`parsed`, which the program
/// around this crate learns from `std::net::IpAddr`).
pub open spec fn spec_is_address(entry: Seq<char>, parsed: Seq<Seq<char>>) -> bool {
    parsed.contains(host_part(entry))
}

/// A name, lower-cased, its trailing dots dropped: names are compared on
/// this form.
pub open spec fn spec_normalise(entry: Seq<char>) -> Seq<char> {
    let k = entry.len() - crate::text::trail_count(entry, '.');
    entry.take(k).map_values(|c: char| ascii_lower(c))
}

/// The first forge entry that `domain` is, or is a subdomain of: the domain
/// then, or nothing.
pub open spec fn spec_forge_hit(domain: Seq<char>, forge: Seq<Seq<char>>) -> Option<Seq<char>>
    decreases forge.len(),
{
    if forge.len() == 0 {
        None
    } else {
        match spec_forge_hit(domain, forge.drop_last()) {
            Some(h) => Some(h),
            None => {
                let f = spec_normalise(trim(forge.last()));
                if f.len() > 0 && (domain == f || has_suffix(domain, "."@ + f)) { Some(domain) } else { None }
            },
        }
    }
}

/// An entry's source, as an error names it.
pub open spec fn by_stack() -> Seq<char> { "the stack fragment"@ }
pub open spec fn by_harness() -> Seq<char> { "the harness adapter"@ }
pub open spec fn by_service() -> Seq<char> { "a mission service"@ }

/// Each entry of the services, in order.
pub open spec fn service_entries(services: Seq<Service>) -> Seq<Seq<char>>
    decreases services.len(),
{
    if services.len() == 0 {
        Seq::empty()
    } else {
        service_entries(services.drop_last()) + views(services.last().reach@)
    }
}

/// Every entry a role's allowlist is built from, with its source.
pub open spec fn all_entries(role: Role, stack: Seq<Seq<char>>, harness: Seq<Seq<char>>, services: Seq<Service>) -> Seq<(Seq<char>, Seq<char>)> {
    stack.map_values(|e: Seq<char>| (e, by_stack()))
        + harness.map_values(|e: Seq<char>| (e, by_harness()))
        + if Profile::spec_of(role) == Profile::System {
            service_entries(services).map_values(|e: Seq<char>| (e, by_service()))
        } else {
            Seq::empty()
        }
}

/// The names and the addresses entries add, in order, or the error the
/// first bad one meets: an empty entry, or a name that is the forge.
pub open spec fn scan(entries: Seq<(Seq<char>, Seq<char>)>, forge: Seq<Seq<char>>, profile: Seq<char>, parsed: Seq<Seq<char>>)
    -> Result<(Seq<Seq<char>>, Seq<Seq<char>>), PerimeterErrorView>
    decreases entries.len(),
{
    if entries.len() == 0 {
        Ok((Seq::empty(), Seq::empty()))
    } else {
        match scan(entries.drop_last(), forge, profile, parsed) {
            Err(e) => Err(e),
            Ok((ds, ads)) => {
                let (raw, by) = entries.last();
                let t = trim(raw);
                if t.len() == 0 {
                    Err(PerimeterErrorView::Empty { declared_by: by })
                } else if spec_is_address(t, parsed) {
                    Ok((ds, ads.push(t)))
                } else {
                    let d = spec_normalise(t);
                    match spec_forge_hit(d, forge) {
                        Some(hit) => Err(PerimeterErrorView::Forge { profile, domain: hit, declared_by: by }),
                        None => Ok((ds.push(d), ads)),
                    }
                }
            },
        }
    }
}

/// The part of an entry before its first `/`.
fn host_of(entry: &str) -> (r: String)
    ensures
        r@ == host_part(entry@),
{
    let v = chars_of(entry);
    let mut k: usize = 0;
    while k < v.len() && v[k] != '/'
        invariant
            v@ == entry@,
            k <= v@.len(),
            forall|j: int| 0 <= j < k ==> v@[j] != '/',
        decreases v@.len() - k,
    {
        k += 1;
    }
    proof {
        crate::text::lemma_next_where(entry@, 0, |c: char| c == '/');
        let n = crate::text::next_where(entry@, 0, |c: char| c == '/');
        if n < k { assert(v@[n] == '/'); }
        if k < n { assert(v@[k as int] == '/'); }
        assert(v@.subrange(0, k as int) =~= entry@.take(k as int));
    }
    string_of(v.as_slice(), 0, k)
}

/// A bare address or a CIDR block, as opposed to a name. Anything the
/// resolver would have to answer for is a domain.
fn is_address(entry: &str, parsed: &[String]) -> (b: bool)
    ensures
        b == spec_is_address(entry@, views(parsed@)),
{
    let host = host_of(entry);
    let mut i: usize = 0;
    while i < parsed.len()
        invariant
            host@ == host_part(entry@),
            i <= parsed@.len(),
            forall|k: int| 0 <= k < i ==> parsed@[k]@ != host@,
        decreases parsed@.len() - i,
    {
        if str_eq(parsed[i].as_str(), host.as_str()) {
            assert(views(parsed@)[i as int] == host@);
            return true;
        }
        i += 1;
    }
    assert(!views(parsed@).contains(host@)) by {
        if views(parsed@).contains(host@) {
            let k = choose|k: int| 0 <= k < views(parsed@).len() && views(parsed@)[k] == host@;
            assert(parsed@[k]@ == host@);
        }
    }
    false
}

/// Lower-cased, trailing dots dropped.
fn normalise_domain(entry: &str) -> (r: String)
    ensures
        r@ == spec_normalise(entry@),
{
    let v = chars_of(entry);
    let n = crate::text::count_trail(v.as_slice(), '.');
    let k = v.len() - n;
    let mut r = String::new();
    let mut i: usize = 0;
    while i < k
        invariant
            v@ == entry@,
            k <= v@.len(),
            i <= k,
            r@ == entry@.take(i as int).map_values(|c: char| ascii_lower(c)),
        decreases k - i,
    {
        crate::text::push_char(&mut r, to_ascii_lower(v[i]));
        i += 1;
        assert(r@ =~= entry@.take(i as int).map_values(|c: char| ascii_lower(c)));
    }
    r
}

/// A domain is the forge if it is the forge, or a subdomain of it.
fn forge_hit(domain: &str, forge: &[String]) -> (r: Option<String>)
    ensures
        match (r, spec_forge_hit(domain@, views(forge@))) {
            (Some(a), Some(b)) => a@ == b,
            (None, None) => true,
            _ => false,
        },
{
    let mut i: usize = 0;
    while i < forge.len()
        invariant
            i <= forge@.len(),
            spec_forge_hit(domain@, views(forge@).subrange(0, i as int)) is None,
        decreases forge@.len() - i,
    {
        proof {
            assert(views(forge@).subrange(0, i + 1).drop_last() =~= views(forge@).subrange(0, i as int));
        }
        let t = trimmed(forge[i].as_str());
        let f = normalise_domain(t.as_str());
        if f.as_str().unicode_len() > 0 {
            let mut dotted = owned(".");
            push_str(&mut dotted, f.as_str());
            if str_eq(domain, f.as_str()) || str_ends_with(domain, dotted.as_str()) {
                proof {
                    lemma_forge_hit_prefix(domain@, views(forge@), i + 1);
                }
                return Some(owned(domain));
            }
        }
        i += 1;
    }
    assert(views(forge@).subrange(0, i as int) =~= views(forge@));
    None
}

proof fn lemma_forge_hit_prefix(domain: Seq<char>, forge: Seq<Seq<char>>, k: int)
    requires
        0 <= k <= forge.len(),
        spec_forge_hit(domain, forge.subrange(0, k)) is Some,
    ensures
        spec_forge_hit(domain, forge) == spec_forge_hit(domain, forge.subrange(0, k)),
    decreases forge.len() - k,
{
    if k < forge.len() {
        assert(forge.subrange(0, k + 1).drop_last() =~= forge.subrange(0, k));
        lemma_forge_hit_prefix(domain, forge, k + 1);
    } else {
        assert(forge.subrange(0, k) =~= forge);
    }
}

/// The name of a profile, as an error says it.
pub open spec fn profile_name(p: Profile) -> Seq<char> {
    if p == Profile::Mission { "mission"@ } else { "system"@ }
}

/// Add `entries`, declared by `by`, to what was gathered so far.
fn take(
    entries: &[String],
    by: &str,
    forge: &[String],
    profile: &str,
    parsed: &[String],
    domains: &mut Vec<String>,
    addresses: &mut Vec<String>,
    Ghost(done): Ghost<Seq<(Seq<char>, Seq<char>)>>,
) -> (r: Result<(), PerimeterError>)
    requires
        scan(done, views(forge@), profile@, views(parsed@)) == Ok::<(Seq<Seq<char>>, Seq<Seq<char>>), PerimeterErrorView>((views(old(domains)@), views(old(addresses)@))),
    ensures
        ({
            let all = done + views(entries@).map_values(|e: Seq<char>| (e, by@));
            match scan(all, views(forge@), profile@, views(parsed@)) {
                Ok((ds, ads)) => r is Ok && views(final(domains)@) == ds && views(final(addresses)@) == ads,
                Err(ev) => r matches Err(e) && e@ == ev,
            }
        }),
{
    let ghost tagged = views(entries@).map_values(|e: Seq<char>| (e, by@));
    let mut i: usize = 0;
    while i < entries.len()
        invariant
            i <= entries@.len(),
            tagged == views(entries@).map_values(|e: Seq<char>| (e, by@)),
            scan(done + tagged.subrange(0, i as int), views(forge@), profile@, views(parsed@))
                == Ok::<(Seq<Seq<char>>, Seq<Seq<char>>), PerimeterErrorView>((views(domains@), views(addresses@))),
        decreases entries@.len() - i,
    {
        let ghost prev = done + tagged.subrange(0, i as int);
        let ghost next = done + tagged.subrange(0, i + 1);
        assert(next.drop_last() =~= prev);
        assert(next.last() == (entries@[i as int]@, by@));
        let t = trimmed(entries[i].as_str());
        if t.as_str().is_empty() {
            proof {
                assert((done + tagged).take(next.len() as int) =~= next);
                lemma_scan_stops(next, views(forge@), profile@, views(parsed@), tagged.len() - i - 1,
                    done + tagged);
                assert(next + tagged.subrange(i + 1, tagged.len() as int) =~= done + tagged);
            }
            return Err(PerimeterError::Empty { declared_by: owned(by) });
        }
        if is_address(t.as_str(), parsed) {
            let ghost before = views(addresses@);
            addresses.push(t);
            assert(views(addresses@) =~= before.push(trim(entries@[i as int]@)));
        } else {
            let d = normalise_domain(t.as_str());
            match forge_hit(d.as_str(), forge) {
                Some(hit) => {
                    proof {
                        assert((done + tagged).take(next.len() as int) =~= next);
                        lemma_scan_stops(next, views(forge@), profile@, views(parsed@), tagged.len() - i - 1,
                            done + tagged);
                        assert(next + tagged.subrange(i + 1, tagged.len() as int) =~= done + tagged);
                    }
                    return Err(PerimeterError::Forge { profile: owned(profile), domain: hit, declared_by: owned(by) });
                },
                None => {
                    let ghost before = views(domains@);
                    domains.push(d);
                    assert(views(domains@) =~= before.push(spec_normalise(trim(entries@[i as int]@))));
                },
            }
        }
        i += 1;
    }
    assert(tagged.subrange(0, i as int) =~= tagged);
    Ok(())
}

/// Once an entry has met an error, the entries after it change nothing.
proof fn lemma_scan_stops(
    head: Seq<(Seq<char>, Seq<char>)>,
    forge: Seq<Seq<char>>,
    profile: Seq<char>,
    parsed: Seq<Seq<char>>,
    more: int,
    all: Seq<(Seq<char>, Seq<char>)>,
)
    requires
        0 <= more,
        head.len() + more == all.len(),
        head == all.take(head.len() as int),
        scan(head, forge, profile, parsed) is Err,
    ensures
        scan(all, forge, profile, parsed) == scan(head, forge, profile, parsed),
    decreases more,
{
    if more > 0 {
        let shorter = all.drop_last();
        assert(head == shorter.take(head.len() as int));
        lemma_scan_stops(head, forge, profile, parsed, more - 1, shorter);
    } else {
        assert(head =~= all);
    }
}

/// Each entry of the services, in order.
fn reach_of(services: &[Service]) -> (r: Vec<String>)
    ensures
        views(r@) == service_entries(services@),
{
    let mut r: Vec<String> = Vec::new();
    let mut i: usize = 0;
    while i < services.len()
        invariant
            i <= services@.len(),
            views(r@) == service_entries(services@.subrange(0, i as int)),
        decreases services@.len() - i,
    {
        assert(services@.subrange(0, i + 1).drop_last() =~= services@.subrange(0, i as int));
        crate::text::extend_strings(&mut r, services[i].reach.as_slice(), 0);
        assert(views(services@[i as int].reach@).subrange(0, services@[i as int].reach@.len() as int)
            =~= views(services@[i as int].reach@));
        i += 1;
    }
    assert(services@.subrange(0, i as int) =~= services@);
    r
}

/// The host parts whose parsing as an IP address `compute` needs: those of
/// every entry, trimmed. The program around this crate asks
/// `std::net::IpAddr` about each and hands back those that parse.
pub fn hosts(role: Role, src: &Sources) -> (r: Vec<String>)
    ensures
        views(r@) == all_entries(role, views(src.stack@), views(src.harness@), src.services@)
            .map_values(|e: (Seq<char>, Seq<char>)| host_part(trim(e.0))),
{
    let mut raw: Vec<String> = Vec::new();
    crate::text::extend_strings(&mut raw, src.stack, 0);
    crate::text::extend_strings(&mut raw, src.harness, 0);
    if Profile::of(role) == Profile::System {
        let reach = reach_of(src.services);
        crate::text::extend_strings(&mut raw, reach.as_slice(), 0);
    }
    let ghost entries = all_entries(role, views(src.stack@), views(src.harness@), src.services@);
    assert(views(raw@) =~= entries.map_values(|e: (Seq<char>, Seq<char>)| e.0));
    let ghost hosts = entries.map_values(|e: (Seq<char>, Seq<char>)| host_part(trim(e.0)));
    let mut r: Vec<String> = Vec::new();
    let mut i: usize = 0;
    while i < raw.len()
        invariant
            i <= raw@.len(),
            raw@.len() == entries.len(),
            hosts == entries.map_values(|e: (Seq<char>, Seq<char>)| host_part(trim(e.0))),
            views(raw@) == entries.map_values(|e: (Seq<char>, Seq<char>)| e.0),
            views(r@) == entries.map_values(|e: (Seq<char>, Seq<char>)| host_part(trim(e.0))).subrange(0, i as int),
        decreases raw@.len() - i,
    {
        let t = trimmed(raw[i].as_str());
        let h = host_of(t.as_str());
        let ghost before = views(r@);
        assert(views(raw@)[i as int] == entries[i as int].0);
        assert(h@ == hosts[i as int]);
        r.push(h);
        assert(views(r@) =~= before.push(h@));
        assert(views(r@) =~= hosts.subrange(0, i + 1));
        i += 1;
    }
    r
}

/// Build the allowlist for a role. `parsed` holds the host parts, among
/// [`hosts`], that parse as an IP address.
pub fn compute(role: Role, src: &Sources, parsed: &[String]) -> (r: Result<Perimeter, PerimeterError>)
    ensures
        Profile::spec_of(role) == Profile::Mission && src.services@.len() > 0 ==> (r matches Err(e)
            && e@ == (PerimeterErrorView::ServicesOnMissionProfile { count: src.services@.len() })),
        !(Profile::spec_of(role) == Profile::Mission && src.services@.len() > 0) ==> match scan(
            all_entries(role, views(src.stack@), views(src.harness@), src.services@),
            views(src.forge@), profile_name(Profile::spec_of(role)), views(parsed@)) {
            Ok((ds, ads)) => r matches Ok(p) && p.well_formed()
                && views(p.domains@).to_set() == ds.to_set() && views(p.addresses@).to_set() == ads.to_set(),
            Err(ev) => r matches Err(e) && e@ == ev,
        },
{
    let profile = Profile::of(role);
    let name = match profile { Profile::Mission => "mission", Profile::System => "system" };
    if profile == Profile::Mission && src.services.len() > 0 {
        return Err(PerimeterError::ServicesOnMissionProfile { count: src.services.len() });
    }
    let mut domains: Vec<String> = Vec::new();
    let mut addresses: Vec<String> = Vec::new();
    let ghost all = all_entries(role, views(src.stack@), views(src.harness@), src.services@);
    let ghost s1 = views(src.stack@).map_values(|e: Seq<char>| (e, by_stack()));
    let ghost s2 = views(src.harness@).map_values(|e: Seq<char>| (e, by_harness()));
    let ghost s3 = service_entries(src.services@).map_values(|e: Seq<char>| (e, by_service()));
    let ghost forge = views(src.forge@);
    let ghost pn = profile_name(profile);
    assert(views(domains@) =~= Seq::<Seq<char>>::empty());
    assert(views(addresses@) =~= Seq::<Seq<char>>::empty());
    assert(Seq::<(Seq<char>, Seq<char>)>::empty() + s1 =~= s1);
    if let Err(e) = take(src.stack, "the stack fragment", src.forge, name, parsed, &mut domains, &mut addresses, Ghost(Seq::empty())) {
        proof {
            assert(all.take(s1.len() as int) =~= s1);
            lemma_scan_stops(s1, forge, pn, views(parsed@), all.len() - s1.len(), all);
        }
        return Err(e);
    }
    if let Err(e) = take(src.harness, "the harness adapter", src.forge, name, parsed, &mut domains, &mut addresses, Ghost(s1)) {
        proof {
            assert(all.take((s1 + s2).len() as int) =~= s1 + s2);
            lemma_scan_stops(s1 + s2, forge, pn, views(parsed@), all.len() - (s1 + s2).len(), all);
        }
        return Err(e);
    }
    if profile == Profile::System {
        let reach = reach_of(src.services);
        assert(views(reach@).map_values(|e: Seq<char>| (e, by_service())) =~= s3);
        if let Err(e) = take(reach.as_slice(), "a mission service", src.forge, name, parsed, &mut domains, &mut addresses, Ghost(s1 + s2)) {
            proof {
                assert(s1 + s2 + s3 =~= all);
            }
            return Err(e);
        }
        assert(s1 + s2 + s3 =~= all);
    } else {
        assert(s1 + s2 =~= all);
    }
    let ds = sorted_unique(domains.as_slice());
    let ads = sorted_unique(addresses.as_slice());
    Ok(Perimeter { domains: ds, addresses: ads })
}

/// No allowlist names the project's forge: every domain an allowlist holds
/// is neither the forge nor a subdomain of it, and no address is empty.
pub proof fn law_forge_never_allowed(
    entries: Seq<(Seq<char>, Seq<char>)>,
    forge: Seq<Seq<char>>,
    profile: Seq<char>,
    parsed: Seq<Seq<char>>,
)
    ensures
        scan(entries, forge, profile, parsed) matches Ok((ds, ads)) ==> {
            &&& forall|i: int| 0 <= i < ds.len() ==> spec_forge_hit(#[trigger] ds[i], forge) is None
            &&& forall|i: int| 0 <= i < ads.len() ==> (#[trigger] ads[i]).len() > 0
        },
    decreases entries.len(),
{
    if entries.len() > 0 {
        law_forge_never_allowed(entries.drop_last(), forge, profile, parsed);
    }
}

} // verus!
