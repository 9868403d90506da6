//! The images a profile needs: the stack's own, with the harness in a
//! layer of `hq`'s on top, the firewall sidecar, and the prober.
//!
//! Images are named per project and stack, not per slot: two slots of the
//! same project share an image, and rebuilding one rebuilds for both. The
//! builds themselves are the program's; this module names the images and
//! writes the Dockerfile of the harness layer.

use vstd::prelude::*;
use crate::harness::Provisioning;
use crate::project::Project;
use crate::text::{join, join_strings, lowercase, owned, path_file_name, push_str, quoted, debug_quoted, to_lowercase, views};

verus! {

/// What the images of a project's stack are called.
#[derive(Debug, Clone, PartialEq, Eq)]
pub struct Images {
    pub agent: String,
    pub firewall: String,
    /// The container probes are run from, never the agent's.
    pub prober: String,
}

/// Why the images could not be built.
#[derive(Debug, Clone, PartialEq, Eq)]
pub enum ImageError {
    NoDockerfile { stack: String, at: String },
    Build { image: String, stderr: String },
    Io(String, String),
    NoEngine(String),
}

/// What an image error says.
pub open spec fn image_error_message(e: ImageError) -> Seq<char> {
    match e {
        ImageError::NoDockerfile { stack, at } =>
            "no Dockerfile for stack "@ + debug_quoted(stack@) + " at "@ + at@ + " — `nunki init --stack "@
                + stack@ + "` writes one"@,
        ImageError::Build { image, stderr } => "building "@ + image@ + " failed:\n"@ + stderr@,
        ImageError::Io(at, why) => at@ + ": "@ + why@,
        ImageError::NoEngine(why) => "the container engine is not on this machine: "@ + why@,
    }
}

impl ImageError {
    /// What the error says.
    pub fn message(&self) -> (r: String)
        ensures
            r@ == image_error_message(*self),
    {
        match self {
            ImageError::NoDockerfile { stack, at } => {
                let mut m = owned("no Dockerfile for stack ");
                push_str(&mut m, quoted(stack.as_str()).as_str());
                push_str(&mut m, " at ");
                push_str(&mut m, at.as_str());
                push_str(&mut m, " — `nunki init --stack ");
                push_str(&mut m, stack.as_str());
                push_str(&mut m, "` writes one");
                m
            },
            ImageError::Build { image, stderr } => {
                let mut m = owned("building ");
                push_str(&mut m, image.as_str());
                push_str(&mut m, " failed:\n");
                push_str(&mut m, stderr.as_str());
                m
            },
            ImageError::Io(at, why) => {
                let mut m = at.clone();
                push_str(&mut m, ": ");
                push_str(&mut m, why.as_str());
                m
            },
            ImageError::NoEngine(why) => {
                let mut m = owned("the container engine is not on this machine: ");
                push_str(&mut m, why.as_str());
                m
            },
        }
    }
}

/// A project's name, as its images carry it: in lower case.
pub open spec fn image_project(p: Project) -> Seq<char> {
    lowercase(match path_file_name(p.root@) {
        Some(n) => n,
        None => "project"@,
    })
}

/// The image the stack alone builds, before the harness is added: kept
/// under its own tag so that a change of harness rebuilds one thin layer.
pub fn base_tag(project: &Project, stack: &str) -> (r: String)
    ensures
        r@ == "nunki/"@ + image_project(*project) + "-"@ + stack@ + ":base"@,
{
    let name = project.name();
    let mut r = owned("nunki/");
    push_str(&mut r, to_lowercase(name.as_str()).as_str());
    push_str(&mut r, "-");
    push_str(&mut r, stack);
    push_str(&mut r, ":base");
    r
}

/// What the images of a project's stack are called; `version` is this
/// program's, which the sidecar and the prober are built from.
pub fn names(project: &Project, stack: &str, version: &str) -> (r: Images)
    ensures
        r.agent@ == "nunki/"@ + image_project(*project) + "-"@ + stack@ + ":latest"@,
        r.firewall@ == "nunki/firewall:"@ + version@,
        r.prober@ == "nunki/prober:"@ + version@,
{
    let name = project.name();
    let mut agent = owned("nunki/");
    push_str(&mut agent, to_lowercase(name.as_str()).as_str());
    push_str(&mut agent, "-");
    push_str(&mut agent, stack);
    push_str(&mut agent, ":latest");
    let mut firewall = owned("nunki/firewall:");
    push_str(&mut firewall, version);
    let mut prober = owned("nunki/prober:");
    push_str(&mut prober, version);
    Images { agent, firewall, prober }
}

/// The head of the harness layer.
pub open spec fn layer_head(base: Seq<char>) -> Seq<char> {
    "# Generated by nunki: the harness, on top of the stack's own image.\n# Do not edit — `nunki slot rebuild` writes it again.\nFROM "@
        + base + "\n"@ + "RUN mkdir -p "@ + crate::exec::PROOF_AT@ + "\n"@
}

/// The line that creates one writable directory of the tree, so that the
/// named volume mounted there is born owned by the agent.
pub open spec fn writable_line(path: Seq<char>) -> Seq<char> {
    "RUN mkdir -p "@ + crate::run::TREE_AT@ + "/"@ + path + "\n"@
}

/// The lines for a list of writable directories, in order.
pub open spec fn writable_lines(ps: Seq<Seq<char>>) -> Seq<char>
    decreases ps.len(),
{
    if ps.len() == 0 { Seq::empty() } else { writable_lines(ps.drop_last()) + writable_line(ps.last()) }
}

/// The line that refuses a stack image which ends as root.
pub open spec fn root_check() -> Seq<char> {
    "RUN [ \"$(id -u)\" != 0 ] || (echo \"nunki: this stack's image ends as root; its Dockerfile must end with USER set to the agent, so that what the agent writes belongs to the human on the host\" >&2; exit 1)\n"@
}

/// The lines that make every build install the harness afresh.
pub open spec fn fresh_install() -> Seq<char> {
    "ARG NUNKI_HARNESS_BUILD\nRUN echo \"harness build ${NUNKI_HARNESS_BUILD:-unset}\" > /dev/null\n"@
}

/// The install steps, each run as the agent.
pub open spec fn install_lines(steps: Seq<Seq<char>>) -> Seq<char>
    decreases steps.len(),
{
    if steps.len() == 0 { Seq::empty() } else { install_lines(steps.drop_last()) + "RUN "@ + steps.last() + "\n"@ }
}

/// The line that fails the build when the harness is not on `PATH`.
pub open spec fn binary_check(binary: Seq<char>) -> Seq<char> {
    "RUN command -v "@ + binary + " > /dev/null || (echo \"nunki: "@ + binary + " is not on PATH after the install\" >&2; exit 1)\n"@
}

/// The Dockerfile of the harness layer, as the body of `harness_layer`
/// builds it.
pub open spec fn spec_harness_layer(base: Seq<char>, p: Provisioning, writable: Seq<Seq<char>>) -> Seq<char> {
    layer_head(base) + writable_lines(writable)
        + (if p.path@.len() == 0 { Seq::empty() } else { "ENV PATH="@ + join(views(p.path@), ":"@) + ":${PATH}\n"@ })
        + (if p.install@.len() == 0 { Seq::empty() } else { root_check() + fresh_install() })
        + install_lines(views(p.install@))
        + (if p.binary@.len() == 0 { Seq::empty() } else { binary_check(p.binary@) })
}

/// The layer's order: it starts with its head and the writable
/// directories, in the order given; the not-root guard and the fresh-install
/// lines come right after the `PATH`, exactly when there is something to
/// install; and the check that the harness is on `PATH` is the last line
/// when a binary is named.
pub proof fn law_layer_order(base: Seq<char>, p: Provisioning, writable: Seq<Seq<char>>)
    ensures
        ({
            let l = spec_harness_layer(base, p, writable);
            let start = layer_head(base) + writable_lines(writable);
            let path = if p.path@.len() == 0 { Seq::<char>::empty() } else { "ENV PATH="@ + join(views(p.path@), ":"@) + ":${PATH}\n"@ };
            &&& l.take(start.len() as int) == start
            &&& p.install@.len() > 0 ==> l.subrange((start.len() + path.len()) as int, (start.len() + path.len()
                + (root_check() + fresh_install()).len()) as int) == root_check() + fresh_install()
            &&& p.binary@.len() > 0 ==> l.skip(l.len() - binary_check(p.binary@).len()) == binary_check(p.binary@)
        }),
{
    let l = spec_harness_layer(base, p, writable);
    let start = layer_head(base) + writable_lines(writable);
    let path = if p.path@.len() == 0 { Seq::<char>::empty() } else { "ENV PATH="@ + join(views(p.path@), ":"@) + ":${PATH}\n"@ };
    let guard = if p.install@.len() == 0 { Seq::<char>::empty() } else { root_check() + fresh_install() };
    let rest = install_lines(views(p.install@)) + (if p.binary@.len() == 0 { Seq::<char>::empty() } else { binary_check(p.binary@) });
    assert(l =~= start + path + guard + rest);
    assert(l.take(start.len() as int) =~= start);
    if p.install@.len() > 0 {
        assert(l.subrange((start.len() + path.len()) as int, (start.len() + path.len() + guard.len()) as int) =~= guard);
    }
    if p.binary@.len() > 0 {
        assert(l.skip(l.len() - binary_check(p.binary@).len()) =~= binary_check(p.binary@));
    }
}

/// The Dockerfile of `hq`'s own layer on top of a stack's image: the
/// harness, and the directories the agent must own before any volume is
/// mounted on them.
pub fn harness_layer(base: &str, provisioning: &Provisioning, writable: &[String]) -> (r: String)
    ensures
        r@ == spec_harness_layer(base@, *provisioning, views(writable@)),
{
    let mut out = owned("# Generated by nunki: the harness, on top of the stack's own image.\n# Do not edit — `nunki slot rebuild` writes it again.\nFROM ");
    push_str(&mut out, base);
    push_str(&mut out, "\n");
    push_str(&mut out, "RUN mkdir -p ");
    push_str(&mut out, crate::exec::PROOF_AT);
    push_str(&mut out, "\n");
    let ghost head = out@;
    let mut i: usize = 0;
    while i < writable.len()
        invariant
            i <= writable@.len(),
            out@ == head + writable_lines(views(writable@).subrange(0, i as int)),
        decreases writable@.len() - i,
    {
        assert(views(writable@).subrange(0, i + 1).drop_last() =~= views(writable@).subrange(0, i as int));
        push_str(&mut out, "RUN mkdir -p ");
        push_str(&mut out, crate::run::TREE_AT);
        push_str(&mut out, "/");
        push_str(&mut out, writable[i].as_str());
        push_str(&mut out, "\n");
        i += 1;
    }
    assert(views(writable@).subrange(0, writable@.len() as int) =~= views(writable@));
    if provisioning.path.len() > 0 {
        push_str(&mut out, "ENV PATH=");
        push_str(&mut out, join_strings(provisioning.path.as_slice(), ":").as_str());
        push_str(&mut out, ":${PATH}\n");
    }
    if provisioning.install.len() > 0 {
        push_str(&mut out, "RUN [ \"$(id -u)\" != 0 ] || (echo \"nunki: this stack's image ends as root; its Dockerfile must end with USER set to the agent, so that what the agent writes belongs to the human on the host\" >&2; exit 1)\n");
        push_str(&mut out, "ARG NUNKI_HARNESS_BUILD\nRUN echo \"harness build ${NUNKI_HARNESS_BUILD:-unset}\" > /dev/null\n");
    }
    let ghost mid = out@;
    let mut j: usize = 0;
    while j < provisioning.install.len()
        invariant
            j <= provisioning.install@.len(),
            out@ == mid + install_lines(views(provisioning.install@).subrange(0, j as int)),
        decreases provisioning.install@.len() - j,
    {
        assert(views(provisioning.install@).subrange(0, j + 1).drop_last()
            =~= views(provisioning.install@).subrange(0, j as int));
        push_str(&mut out, "RUN ");
        push_str(&mut out, provisioning.install[j].as_str());
        push_str(&mut out, "\n");
        j += 1;
    }
    assert(views(provisioning.install@).subrange(0, provisioning.install@.len() as int) =~= views(provisioning.install@));
    if provisioning.binary.as_str().unicode_len() > 0 {
        push_str(&mut out, "RUN command -v ");
        push_str(&mut out, provisioning.binary.as_str());
        push_str(&mut out, " > /dev/null || (echo \"nunki: ");
        push_str(&mut out, provisioning.binary.as_str());
        push_str(&mut out, " is not on PATH after the install\" >&2; exit 1)\n");
    }
    out
}

} // verus!
