//! The deployment pipeline: packaging one application and making it
//! reachable through the reverse proxy.
//!
//! The whole pipeline is computed up front as an ordered plan of steps —
//! local builds, remote shell commands, one file upload — from the resolved
//! arguments. A driver outside this crate executes the steps in order,
//! aborting on the first critical failure, exactly as [`crate::command`]
//! prescribes.
use vstd::prelude::*;

use crate::command::Policy;
use crate::command::SpecStep;
use crate::command::SpecStepKind;
use crate::command::Step;
use crate::command::StepKind;
use crate::command::remote_step;
use crate::template::render;
use crate::template::spec_render;
use crate::text::concat2;
use crate::text::concat3;
use crate::text::find_char;
use crate::text::find_idx;
use crate::text::lemma_find_idx;
use crate::text::lemma_find_idx_is;
use crate::text::lemma_split_nonempty;
use crate::text::spec_dec;
use crate::text::spec_split;
use crate::text::split_char;
use crate::text::substring;
use crate::text::u16_string;

verus! {

/// A deployment argument that could not be parsed.
#[derive(Debug)]
pub enum DeployError {
    /// A volume mapping entry with no `:` separator; the whole volumes
    /// argument is rejected.
    InvalidVolume { entry: String },
}

impl DeployError {
    /// The offending volume entry.
    pub open spec fn spec_entry(self) -> Seq<char> {
        match self {
            DeployError::InvalidVolume { entry } => entry@,
        }
    }

    /// The offending volume entry.
    pub fn entry(&self) -> (r: &String)
        ensures
            r@ == self.spec_entry(),
    {
        match self {
            DeployError::InvalidVolume { entry } => entry,
        }
    }
}

/// One volume entry split at its first `:` into (local name, container
/// path); an entry with no `:` is a parse error.
pub open spec fn spec_parse_entry(piece: Seq<char>) -> Option<(Seq<char>, Seq<char>)> {
    if find_idx(piece, ':') < 0 {
        None
    } else {
        Some(
            (
                piece.subrange(0, find_idx(piece, ':')),
                piece.subrange(find_idx(piece, ':') + 1, piece.len() as int),
            ),
        )
    }
}

/// All entries parsed, in order; `None` as soon as any entry is malformed.
pub open spec fn spec_parse_pieces(pieces: Seq<Seq<char>>) -> Option<
    Seq<(Seq<char>, Seq<char>)>,
>
    decreases pieces.len(),
{
    if pieces.len() == 0 {
        Some(Seq::empty())
    } else {
        match (spec_parse_entry(pieces[0]), spec_parse_pieces(pieces.skip(1))) {
            (Some(e), Some(rest)) => Some(seq![e] + rest),
            _ => None,
        }
    }
}

/// The volume mappings encoded by a comma-separated argument; the empty
/// argument means no volumes, and one malformed entry rejects the whole
/// argument.
pub open spec fn spec_parse_volumes(s: Seq<char>) -> Option<Seq<(Seq<char>, Seq<char>)>> {
    if s.len() == 0 {
        Some(Seq::empty())
    } else {
        spec_parse_pieces(spec_split(s, ','))
    }
}

/// The remote directory owned by one application.
pub open spec fn spec_app_dir(app: Seq<char>) -> Seq<char> {
    "/opt/minion/"@ + app
}

/// The application's remote volumes directory.
pub open spec fn spec_volumes_dir(app: Seq<char>) -> Seq<char> {
    spec_app_dir(app) + "/volumes"@
}

/// The remote directory backing one named volume.
pub open spec fn spec_vol_path(app: Seq<char>, local: Seq<char>) -> Seq<char> {
    spec_volumes_dir(app) + "/"@ + local
}

/// The image tag derived deterministically from the application name.
pub open spec fn spec_image_tag(app: Seq<char>) -> Seq<char> {
    "minion_"@ + app
}

/// The remote path the image archive is shipped to.
pub open spec fn spec_tar_path(app: Seq<char>) -> Seq<char> {
    spec_app_dir(app) + "/"@ + app + ".tar"@
}

/// One routing alternation clause for one hostname.
pub open spec fn spec_host_clause(u: Seq<char>) -> Seq<char> {
    "Host(`"@ + u + "`)"@
}

/// The routing predicate: one clause per hostname, OR-combined, so the
/// application answers on every supplied hostname.
pub open spec fn spec_host_rules(urls: Seq<Seq<char>>) -> Seq<char>
    decreases urls.len(),
{
    if urls.len() == 0 {
        Seq::empty()
    } else if urls.len() == 1 {
        spec_host_clause(urls[0])
    } else {
        spec_host_clause(urls[0]) + " || "@ + spec_host_rules(urls.skip(1))
    }
}

proof fn lemma_host_rules_push(urls: Seq<Seq<char>>, u: Seq<char>)
    ensures
        spec_host_rules(urls.push(u)) == if urls.len() == 0 {
            spec_host_clause(u)
        } else {
            spec_host_rules(urls) + " || "@ + spec_host_rules(seq![u])
        },
    decreases urls.len(),
{
    assert(spec_host_rules(seq![u]) == spec_host_clause(seq![u][0]));
    assert(seq![u][0] == u);
    if urls.len() == 0 {
        assert(urls.push(u).len() == 1);
        assert(urls.push(u)[0] == u);
    } else {
        lemma_host_rules_push(urls.skip(1), u);
        assert(urls.push(u)[0] == urls[0]);
        assert(urls.push(u).skip(1) =~= urls.skip(1).push(u));
        if urls.len() == 1 {
            assert(spec_host_rules(urls) == spec_host_clause(urls[0]));
        } else {
            assert(spec_host_rules(urls.push(u)) == spec_host_clause(urls[0]) + " || "@ + (
            spec_host_rules(urls.skip(1)) + " || "@ + spec_host_clause(u)));
            assert(spec_host_clause(urls[0]) + " || "@ + (spec_host_rules(urls.skip(1)) + " || "@
                + spec_host_clause(u)) =~= (spec_host_clause(urls[0]) + " || "@ + spec_host_rules(
                urls.skip(1),
            )) + " || "@ + spec_host_clause(u));
        }
    }
}

/// Builds the routing predicate for the supplied hostnames.
pub fn host_rules(urls: &Vec<String>) -> (r: String)
    ensures
        r@ == spec_host_rules(urls.deep_view()),
{
    let ghost udv = urls.deep_view();
    let mut out = String::new();
    let mut i: usize = 0;
    while i < urls.len()
        invariant
            i <= urls.len(),
            i == 0 ==> out@ == Seq::<char>::empty(),
            i > 0 ==> out@ == spec_host_rules(udv.take(i as int)),
        decreases urls.len() - i,
    {
        proof {
            assert(udv[i as int] == urls@[i as int]@);
            assert(udv.take(i + 1) =~= udv.take(i as int).push(udv[i as int]));
            lemma_host_rules_push(udv.take(i as int), udv[i as int]);
        }
        if i > 0 {
            out.append(" || ");
        }
        out.append("Host(`");
        out.append(urls[i].as_str());
        out.append("`)");
        proof {
            if i == 0 {
                assert(out@ =~= spec_host_clause(udv[0]));
                assert(udv.take(1)[0] == udv[0]);
                assert(udv.take(1).len() == 1);
            } else {
                assert(out@ =~= spec_host_rules(udv.take(i as int)) + " || "@ + spec_host_clause(
                    udv[i as int],
                ));
                assert(spec_host_rules(seq![udv[i as int]]) == spec_host_clause(
                    seq![udv[i as int]][0],
                ));
                assert(seq![udv[i as int]][0] == udv[i as int]);
            }
        }
        i = i + 1;
    }
    proof {
        if urls.len() > 0 {
            assert(udv.take(urls.len() as int) =~= udv);
        } else {
            assert(udv.len() == 0);
        }
    }
    out
}

/// One volume line of the compose document.
pub open spec fn spec_volume_line(app: Seq<char>, vol: (Seq<char>, Seq<char>)) -> Seq<char> {
    "      - "@ + spec_vol_path(app, vol.0) + ":"@ + vol.1
}

/// The volume lines, one per mapping, joined by newlines.
pub open spec fn spec_volume_lines(app: Seq<char>, vols: Seq<(Seq<char>, Seq<char>)>) -> Seq<char>
    decreases vols.len(),
{
    if vols.len() == 0 {
        Seq::empty()
    } else if vols.len() == 1 {
        spec_volume_line(app, vols[0])
    } else {
        spec_volume_line(app, vols[0]) + seq!['\n'] + spec_volume_lines(app, vols.skip(1))
    }
}

/// The compose document's volumes section: entirely absent (the empty
/// string, not an empty stanza) when no volumes were declared.
pub open spec fn spec_volumes_section(
    app: Seq<char>,
    vols: Seq<(Seq<char>, Seq<char>)>,
) -> Seq<char> {
    if vols.len() == 0 {
        Seq::empty()
    } else {
        "    volumes:\n"@ + spec_volume_lines(app, vols)
    }
}

proof fn lemma_volume_lines_push(
    app: Seq<char>,
    vols: Seq<(Seq<char>, Seq<char>)>,
    v: (Seq<char>, Seq<char>),
)
    ensures
        spec_volume_lines(app, vols.push(v)) == if vols.len() == 0 {
            spec_volume_line(app, v)
        } else {
            spec_volume_lines(app, vols) + seq!['\n'] + spec_volume_line(app, v)
        },
    decreases vols.len(),
{
    if vols.len() == 0 {
        assert(vols.push(v)[0] == v);
        assert(vols.push(v).len() == 1);
    } else {
        lemma_volume_lines_push(app, vols.skip(1), v);
        assert(vols.push(v)[0] == vols[0]);
        assert(vols.push(v).skip(1) =~= vols.skip(1).push(v));
        if vols.len() == 1 {
            assert(spec_volume_lines(app, vols) == spec_volume_line(app, vols[0]));
        } else {
            assert(spec_volume_lines(app, vols.push(v)) == spec_volume_line(app, vols[0])
                + seq!['\n'] + (spec_volume_lines(app, vols.skip(1)) + seq!['\n']
                + spec_volume_line(app, v)));
            assert(spec_volume_line(app, vols[0]) + seq!['\n'] + (spec_volume_lines(
                app,
                vols.skip(1),
            ) + seq!['\n'] + spec_volume_line(app, v)) =~= (spec_volume_line(app, vols[0])
                + seq!['\n'] + spec_volume_lines(app, vols.skip(1))) + seq!['\n']
                + spec_volume_line(app, v));
        }
    }
}

/// The application's remote volumes directory.
fn volumes_dir(app: &str) -> (r: String)
    ensures
        r@ == spec_volumes_dir(app@),
{
    concat3("/opt/minion/", app, "/volumes")
}

/// The remote directory backing one named volume.
fn vol_path(app: &str, local: &str) -> (r: String)
    ensures
        r@ == spec_vol_path(app@, local@),
{
    let d = volumes_dir(app);
    let r = concat3(d.as_str(), "/", local);
    proof {
        assert(r@ =~= spec_vol_path(app@, local@));
    }
    r
}

/// Builds the compose volumes section for the parsed mappings.
pub fn volumes_section(app: &str, vols: &Vec<(String, String)>) -> (r: String)
    ensures
        r@ == spec_volumes_section(app@, vols.deep_view()),
{
    let ghost vdv = vols.deep_view();
    if vols.len() == 0 {
        return String::new();
    }
    let mut lines = String::new();
    let mut i: usize = 0;
    proof {
        reveal_strlit("\n");
    }
    while i < vols.len()
        invariant
            i <= vols.len(),
            i == 0 ==> lines@ == Seq::<char>::empty(),
            i > 0 ==> lines@ == spec_volume_lines(app@, vdv.take(i as int)),
        decreases vols.len() - i,
    {
        proof {
            assert(vdv[i as int] == (vols@[i as int].0@, vols@[i as int].1@));
            assert(vdv.take(i + 1) =~= vdv.take(i as int).push(vdv[i as int]));
            lemma_volume_lines_push(app@, vdv.take(i as int), vdv[i as int]);
        }
        if i > 0 {
            lines.append("\n");
        }
        let path = vol_path(app, vols[i].0.as_str());
        lines.append("      - ");
        lines.append(path.as_str());
        lines.append(":");
        lines.append(vols[i].1.as_str());
        proof {
            assert("\n"@ =~= seq!['\n']);
            if i == 0 {
                assert(lines@ =~= spec_volume_line(app@, vdv[0]));
                assert(vdv.take(1)[0] == vdv[0]);
                assert(vdv.take(1).len() == 1);
            } else {
                assert(lines@ =~= spec_volume_lines(app@, vdv.take(i as int)) + seq!['\n']
                    + spec_volume_line(app@, vdv[i as int]));
            }
        }
        i = i + 1;
    }
    proof {
        assert(vdv.take(vols.len() as int) =~= vdv);
    }
    let r = concat2("    volumes:\n", lines.as_str());
    r
}

/// The ordered plan of one deployment, ready for a driver to execute.
pub struct DeployPlan {
    /// The steps, strictly in order, each with its failure policy.
    pub steps: Vec<Step>,
    /// The first supplied hostname: where the application should answer.
    pub first_url: String,
}

/// The two local steps that build the image and persist it to the archive.
pub open spec fn spec_build_steps(app: Seq<char>, archive: Seq<char>) -> Seq<SpecStep> {
    seq![
        SpecStep {
            kind: SpecStepKind::Local {
                program: "docker"@,
                args: seq![
                    "build"@,
                    "-t"@,
                    spec_image_tag(app),
                    "."@,
                    "--platform=linux/amd64"@,
                ],
            },
            policy: Policy::Critical,
        },
        SpecStep {
            kind: SpecStepKind::Local {
                program: "docker"@,
                args: seq!["save"@, "-o"@, archive, spec_image_tag(app)],
            },
            policy: Policy::Critical,
        },
        SpecStep {
            kind: SpecStepKind::Remote { command: "sudo mkdir -p "@ + spec_app_dir(app) },
            policy: Policy::Critical,
        },
        SpecStep {
            kind: SpecStepKind::Remote { command: "sudo mkdir -p "@ + spec_volumes_dir(app) },
            policy: Policy::Critical,
        },
        SpecStep {
            kind: SpecStepKind::Remote {
                command: "sudo chown -R minion:minion "@ + spec_app_dir(app),
            },
            policy: Policy::Critical,
        },
    ]
}

/// The two steps serving one declared volume: create its backing directory
/// (critical), then hand it to the operating user (best-effort).
pub open spec fn spec_vol_pair(app: Seq<char>, v: (Seq<char>, Seq<char>)) -> Seq<SpecStep> {
    seq![
        SpecStep {
            kind: SpecStepKind::Remote { command: "sudo mkdir -p "@ + spec_vol_path(app, v.0) },
            policy: Policy::Critical,
        },
        SpecStep {
            kind: SpecStepKind::Remote {
                command: "sudo chown -R minion:minion "@ + spec_vol_path(app, v.0),
            },
            policy: Policy::BestEffort,
        },
    ]
}

/// The per-volume steps, in declaration order.
pub open spec fn spec_volume_steps(
    app: Seq<char>,
    vols: Seq<(Seq<char>, Seq<char>)>,
) -> Seq<SpecStep>
    decreases vols.len(),
{
    if vols.len() == 0 {
        Seq::empty()
    } else {
        spec_vol_pair(app, vols[0]) + spec_volume_steps(app, vols.skip(1))
    }
}

proof fn lemma_volume_steps_push(
    app: Seq<char>,
    vols: Seq<(Seq<char>, Seq<char>)>,
    v: (Seq<char>, Seq<char>),
)
    ensures
        spec_volume_steps(app, vols.push(v)) == spec_volume_steps(app, vols) + spec_vol_pair(
            app,
            v,
        ),
    decreases vols.len(),
{
    if vols.len() == 0 {
        assert(vols.push(v)[0] == v);
        assert(vols.push(v).skip(1) =~= Seq::<(Seq<char>, Seq<char>)>::empty());
        assert(spec_volume_steps(app, Seq::<(Seq<char>, Seq<char>)>::empty()) == Seq::<
            SpecStep,
        >::empty());
        assert(spec_volume_steps(app, vols.push(v)) == spec_vol_pair(app, v) + Seq::<
            SpecStep,
        >::empty());
        assert(spec_vol_pair(app, v) + Seq::<SpecStep>::empty() =~= Seq::<SpecStep>::empty()
            + spec_vol_pair(app, v));
    } else {
        lemma_volume_steps_push(app, vols.skip(1), v);
        assert(vols.push(v)[0] == vols[0]);
        assert(vols.push(v).skip(1) =~= vols.skip(1).push(v));
        assert(spec_volume_steps(app, vols.push(v)) == spec_vol_pair(app, vols[0]) + (
        spec_volume_steps(app, vols.skip(1)) + spec_vol_pair(app, v)));
        assert(spec_vol_pair(app, vols[0]) + (spec_volume_steps(app, vols.skip(1))
            + spec_vol_pair(app, v)) =~= (spec_vol_pair(app, vols[0]) + spec_volume_steps(
            app,
            vols.skip(1),
        )) + spec_vol_pair(app, v));
    }
}

/// The closing steps: write the compose document, ship the image archive,
/// load it, drop the archive, and start the stack.
pub open spec fn spec_finish_steps(
    app: Seq<char>,
    content: Seq<char>,
    archive: Seq<char>,
) -> Seq<SpecStep> {
    seq![
        SpecStep {
            kind: SpecStepKind::Remote {
                command: "cat > "@ + spec_app_dir(app) + "/docker-compose.yml << 'EOL'\n"@
                    + content + "\nEOL"@,
            },
            policy: Policy::Critical,
        },
        SpecStep {
            kind: SpecStepKind::Upload { local_path: archive, remote_path: spec_tar_path(app) },
            policy: Policy::Critical,
        },
        SpecStep {
            kind: SpecStepKind::Remote {
                command: "cd "@ + spec_app_dir(app) + " && docker load -i "@ + app + ".tar"@,
            },
            policy: Policy::Critical,
        },
        SpecStep {
            kind: SpecStepKind::Remote { command: "rm "@ + spec_tar_path(app) },
            policy: Policy::Critical,
        },
        SpecStep {
            kind: SpecStepKind::Remote {
                command: "cd "@ + spec_app_dir(app) + " && docker compose up -d"@,
            },
            policy: Policy::Critical,
        },
    ]
}

/// The bindings the compose template is rendered under.
pub open spec fn spec_compose_bindings(
    app: Seq<char>,
    urls: Seq<Seq<char>>,
    port: u16,
    vols: Seq<(Seq<char>, Seq<char>)>,
) -> Seq<(Seq<char>, Seq<char>)> {
    seq![
        ("app_name"@, app),
        ("host_rules"@, spec_host_rules(urls)),
        ("port"@, spec_dec(port as nat)),
        ("volumes_section"@, spec_volumes_section(app, vols)),
    ]
}

/// The rendered compose document.
pub open spec fn spec_compose_content(
    template: Seq<char>,
    app: Seq<char>,
    urls: Seq<Seq<char>>,
    port: u16,
    vols: Seq<(Seq<char>, Seq<char>)>,
) -> Seq<char> {
    spec_render(template, spec_compose_bindings(app, urls, port, vols))
}

/// The full deployment plan: build and persist locally, prepare the remote
/// directories, one pair of steps per volume, then write, ship, load and
/// start.
pub open spec fn spec_deploy_steps(
    app: Seq<char>,
    urls: Seq<Seq<char>>,
    port: u16,
    vols: Seq<(Seq<char>, Seq<char>)>,
    archive: Seq<char>,
    template: Seq<char>,
) -> Seq<SpecStep> {
    spec_build_steps(app, archive) + spec_volume_steps(app, vols) + spec_finish_steps(
        app,
        spec_compose_content(template, app, urls, port, vols),
        archive,
    )
}

/// Packages one application and makes it reachable through the proxy.
pub struct DeployCommand;

impl DeployCommand {
    /// A fresh deploy command.
    pub fn new() -> (r: DeployCommand) {
        DeployCommand
    }

    /// Stores the resolved argument bundle, volumes included, under its
    /// well-known keys.
    pub fn apply_args(
        config: &mut crate::config::Config,
        host: &str,
        name: &str,
        url: &str,
        port: &str,
        volumes: &str,
    )
        requires
            old(config).wf(),
        ensures
            final(config).wf(),
            final(config)@ == crate::config::spec_insert(
                crate::config::spec_insert(
                    crate::config::spec_insert(
                        crate::config::spec_insert(
                            crate::config::spec_insert(old(config)@, "VPS_HOST"@, host@),
                            "APP_NAME"@,
                            name@,
                        ),
                        "APP_URL"@,
                        url@,
                    ),
                    "APP_PORT"@,
                    port@,
                ),
                "APP_VOLUMES"@,
                volumes@,
            ),
            final(config).path_view() == old(config).path_view(),
    {
        config.set(String::from_str("VPS_HOST"), host.to_owned());
        config.set(String::from_str("APP_NAME"), name.to_owned());
        config.set(String::from_str("APP_URL"), url.to_owned());
        config.set(String::from_str("APP_PORT"), port.to_owned());
        config.set(String::from_str("APP_VOLUMES"), volumes.to_owned());
    }

    /// Parses the comma-separated volumes argument; each entry is split at
    /// its first `:`, and an entry with no `:` rejects the whole argument.
    pub fn parse_volumes(volumes: &str) -> (r: Result<Vec<(String, String)>, DeployError>)
        ensures
            match r {
                Ok(v) => spec_parse_volumes(volumes@) == Some(v.deep_view()),
                Err(e) => {
                    &&& spec_parse_volumes(volumes@) is None
                    &&& find_idx(e.spec_entry(), ':') < 0
                    &&& exists|i: int|
                        0 <= i < spec_split(volumes@, ',').len() && #[trigger] spec_split(
                            volumes@,
                            ',',
                        )[i] == e.spec_entry()
                },
            },
    {
        let mut out: Vec<(String, String)> = Vec::new();
        if volumes.is_empty() {
            proof {
                assert(out.deep_view() =~= Seq::<(Seq<char>, Seq<char>)>::empty());
            }
            return Ok(out);
        }
        let pieces = split_char(volumes, ',');
        let ghost pdv = pieces.deep_view();
        let mut i: usize = 0;
        proof {
            assert(pdv.skip(0) =~= pdv);
            if spec_parse_pieces(pdv) is Some {
                assert(out.deep_view() + spec_parse_pieces(pdv)->Some_0
                    =~= spec_parse_pieces(pdv)->Some_0);
            }
        }
        while i < pieces.len()
            invariant
                i <= pieces.len(),
                volumes@.len() > 0,
                pdv == spec_split(volumes@, ','),
                spec_parse_pieces(pdv.skip(i as int)) is Some ==> spec_parse_pieces(pdv)
                    == Some(out.deep_view() + spec_parse_pieces(pdv.skip(i as int))->Some_0),
                spec_parse_pieces(pdv.skip(i as int)) is None ==> spec_parse_pieces(pdv) is None,
            decreases pieces.len() - i,
        {
            let ghost suffix = pdv.skip(i as int);
            proof {
                assert(pdv[i as int] == pieces@[i as int]@);
                assert(suffix[0] == pdv[i as int]);
                assert(suffix.skip(1) =~= pdv.skip(i + 1));
            }
            let piece = &pieces[i];
            let plen = piece.unicode_len();
            match find_char(piece.as_str(), 0, ':') {
                Some(j) => {
                    proof {
                        lemma_find_idx_is(piece@, ':', j as int);
                    }
                    let local = substring(piece.as_str(), 0, j);
                    let container = substring(piece.as_str(), j + 1, plen);
                    let ghost old_dv = out.deep_view();
                    out.push((local, container));
                    proof {
                        assert(out.deep_view() =~= old_dv.push((local@, container@)));
                        assert(spec_parse_entry(suffix[0]) == Some((local@, container@)));
                        if spec_parse_pieces(pdv.skip(i + 1)) is Some {
                            assert(old_dv.push((local@, container@)) + spec_parse_pieces(
                                pdv.skip(i + 1),
                            )->Some_0 =~= old_dv + (seq![(local@, container@)]
                                + spec_parse_pieces(pdv.skip(i + 1))->Some_0));
                        }
                    }
                },
                None => {
                    proof {
                        lemma_find_idx(piece@, ':');
                        if find_idx(piece@, ':') >= 0 {
                            assert(piece@[find_idx(piece@, ':')] == ':');
                            assert(false);
                        }
                        assert(spec_parse_entry(suffix[0]) is None);
                        assert(spec_parse_pieces(suffix) is None);
                    }
                    return Err(DeployError::InvalidVolume { entry: piece.clone() });
                },
            }
            i = i + 1;
        }
        proof {
            assert(pdv.skip(pieces.len() as int).len() == 0);
            assert(spec_parse_pieces(pdv.skip(pieces.len() as int)) == Some(
                Seq::<(Seq<char>, Seq<char>)>::empty(),
            ));
            assert(out.deep_view() + Seq::<(Seq<char>, Seq<char>)>::empty() =~= out.deep_view());
        }
        Ok(out)
    }

    /// Computes the whole deployment plan from the resolved arguments: the
    /// application name, the comma-separated hostnames, the container port,
    /// the volumes argument, the local image archive path, and the compose
    /// document template.
    #[verifier::rlimit(50)]
    pub fn deploy_plan(
        app_name: &str,
        urls: &str,
        port: u16,
        volumes: &str,
        archive_path: &str,
        compose_template: &str,
    ) -> (r: Result<DeployPlan, DeployError>)
        ensures
            match r {
                Ok(p) => {
                    &&& spec_parse_volumes(volumes@) is Some
                    &&& p.steps.deep_view() == spec_deploy_steps(
                        app_name@,
                        spec_split(urls@, ','),
                        port,
                        spec_parse_volumes(volumes@)->Some_0,
                        archive_path@,
                        compose_template@,
                    )
                    &&& p.first_url@ == spec_split(urls@, ',')[0]
                },
                Err(e) => spec_parse_volumes(volumes@) is None && find_idx(e.spec_entry(), ':')
                    < 0,
            },
    {
        let vols = match Self::parse_volumes(volumes) {
            Ok(v) => v,
            Err(e) => {
                return Err(e);
            },
        };
        let ghost vdv = vols.deep_view();
        let url_vec = split_char(urls, ',');
        proof {
            lemma_split_nonempty(urls@, ',');
            assert(url_vec.deep_view()[0] == url_vec@[0]@);
        }
        let rules = host_rules(&url_vec);
        let section = volumes_section(app_name, &vols);
        let port_str = u16_string(port);

        let mut bindings: Vec<(String, String)> = Vec::new();
        bindings.push((String::from_str("app_name"), app_name.to_owned()));
        bindings.push((String::from_str("host_rules"), rules));
        bindings.push((String::from_str("port"), port_str));
        bindings.push((String::from_str("volumes_section"), section));
        proof {
            assert(bindings.deep_view() =~= spec_compose_bindings(
                app_name@,
                url_vec.deep_view(),
                port,
                vdv,
            ));
        }
        let content = render(compose_template, &bindings);

        let app_dir = concat2("/opt/minion/", app_name);
        let vol_dir = volumes_dir(app_name);
        let image = concat2("minion_", app_name);
        let tar = concat2(app_dir.as_str(), "/");
        let tar = concat3(tar.as_str(), app_name, ".tar");
        proof {
            assert(tar@ =~= spec_tar_path(app_name@));
        }

        let mut steps: Vec<Step> = Vec::new();
        let mut build_args: Vec<String> = Vec::new();
        build_args.push(String::from_str("build"));
        build_args.push(String::from_str("-t"));
        build_args.push(image.clone());
        build_args.push(String::from_str("."));
        build_args.push(String::from_str("--platform=linux/amd64"));
        proof {
            assert(build_args.deep_view() =~= seq![
                "build"@,
                "-t"@,
                spec_image_tag(app_name@),
                "."@,
                "--platform=linux/amd64"@,
            ]);
        }
        steps.push(
            Step {
                kind: StepKind::Local { program: String::from_str("docker"), args: build_args },
                policy: Policy::Critical,
            },
        );
        proof {
            assert(steps.deep_view() =~= seq![spec_build_steps(app_name@, archive_path@)[0]]);
        }
        let mut save_args: Vec<String> = Vec::new();
        save_args.push(String::from_str("save"));
        save_args.push(String::from_str("-o"));
        save_args.push(archive_path.to_owned());
        save_args.push(image.clone());
        proof {
            assert(save_args.deep_view() =~= seq![
                "save"@,
                "-o"@,
                archive_path@,
                spec_image_tag(app_name@),
            ]);
        }
        steps.push(
            Step {
                kind: StepKind::Local { program: String::from_str("docker"), args: save_args },
                policy: Policy::Critical,
            },
        );
        steps.push(
            remote_step(concat2("sudo mkdir -p ", app_dir.as_str()), Policy::Critical),
        );
        steps.push(
            remote_step(concat2("sudo mkdir -p ", vol_dir.as_str()), Policy::Critical),
        );
        steps.push(
            remote_step(
                concat2("sudo chown -R minion:minion ", app_dir.as_str()),
                Policy::Critical,
            ),
        );
        proof {
            assert(steps.deep_view() =~= spec_build_steps(app_name@, archive_path@));
        }

        let mut i: usize = 0;
        proof {
            assert(vdv.take(0) =~= Seq::<(Seq<char>, Seq<char>)>::empty());
            assert(spec_build_steps(app_name@, archive_path@) + Seq::<SpecStep>::empty()
                =~= spec_build_steps(app_name@, archive_path@));
        }
        while i < vols.len()
            invariant
                i <= vols.len(),
                steps.deep_view() == spec_build_steps(app_name@, archive_path@)
                    + spec_volume_steps(app_name@, vdv.take(i as int)),
            decreases vols.len() - i,
        {
            proof {
                assert(vdv[i as int] == (vols@[i as int].0@, vols@[i as int].1@));
                assert(vdv.take(i + 1) =~= vdv.take(i as int).push(vdv[i as int]));
                lemma_volume_steps_push(app_name@, vdv.take(i as int), vdv[i as int]);
            }
            let path = vol_path(app_name, vols[i].0.as_str());
            let ghost before = steps.deep_view();
            let mk = remote_step(concat2("sudo mkdir -p ", path.as_str()), Policy::Critical);
            let ghost mk_view = mk@;
            steps.push(mk);
            proof {
                assert(steps.deep_view() =~= before.push(mk_view));
            }
            let ch = remote_step(
                concat2("sudo chown -R minion:minion ", path.as_str()),
                Policy::BestEffort,
            );
            let ghost ch_view = ch@;
            steps.push(ch);
            proof {
                assert(steps.deep_view() =~= before.push(mk_view).push(ch_view));
                assert(mk_view == spec_vol_pair(app_name@, vdv[i as int])[0]);
                assert(ch_view == spec_vol_pair(app_name@, vdv[i as int])[1]);
                assert(before.push(mk_view).push(ch_view) =~= before + spec_vol_pair(
                    app_name@,
                    vdv[i as int],
                ));
                assert(steps.deep_view() =~= spec_build_steps(app_name@, archive_path@)
                    + spec_volume_steps(app_name@, vdv.take(i + 1)));
            }
            i = i + 1;
        }
        proof {
            assert(vdv.take(vols.len() as int) =~= vdv);
        }

        let ghost mid = steps.deep_view();
        let write_cmd = concat3("cat > ", app_dir.as_str(), "/docker-compose.yml << 'EOL'\n");
        let write_cmd = concat3(write_cmd.as_str(), content.as_str(), "\nEOL");
        steps.push(remote_step(write_cmd, Policy::Critical));
        steps.push(
            Step {
                kind: StepKind::Upload {
                    local_path: archive_path.to_owned(),
                    remote_path: tar.clone(),
                },
                policy: Policy::Critical,
            },
        );
        let load_cmd = concat3("cd ", app_dir.as_str(), " && docker load -i ");
        let load_cmd = concat3(load_cmd.as_str(), app_name, ".tar");
        steps.push(remote_step(load_cmd, Policy::Critical));
        steps.push(remote_step(concat2("rm ", tar.as_str()), Policy::Critical));
        steps.push(
            remote_step(
                concat3("cd ", app_dir.as_str(), " && docker compose up -d"),
                Policy::Critical,
            ),
        );
        proof {
            assert(steps.deep_view() =~= mid + spec_finish_steps(
                app_name@,
                spec_compose_content(compose_template@, app_name@, url_vec.deep_view(), port, vdv),
                archive_path@,
            ));
            assert(steps.deep_view() =~= spec_deploy_steps(
                app_name@,
                spec_split(urls@, ','),
                port,
                vdv,
                archive_path@,
                compose_template@,
            ));
        }
        let first_url = url_vec[0].clone();
        Ok(DeployPlan { steps, first_url })
    }
}

} // verus!
