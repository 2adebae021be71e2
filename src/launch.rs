//! Launch planning: the proxy's argument vector, the executable names tried
//! in turn, and what to do after each attempt.
use vstd::prelude::*;

use crate::client_config::{strings_view, DefaultConfigItem};

verus! {

/// Why a launch cannot go on.
#[derive(Debug, Clone, Copy, PartialEq, Eq)]
pub enum LaunchError {
    /// The chosen run configuration does not exist.
    ConfigMissing,
    /// No executable name resolved to a program.
    ExecutableNotFound,
    /// Spawning failed for another reason than a missing program.
    SpawnFailed,
}

/// How one spawn attempt ended.
#[derive(Debug, Clone, Copy, PartialEq, Eq)]
pub enum SpawnOutcome {
    /// The process started.
    Spawned,
    /// The system found no program of that name.
    NotFound,
    /// Any other failure.
    OtherError,
}

/// What to do next.
#[derive(Debug, Clone, Copy, PartialEq, Eq)]
pub enum LaunchStep {
    /// Try to spawn the executable name at this index.
    Try(usize),
    /// The process runs: wait for it and pass its exit status on.
    Wait,
    /// Stop with this error.
    Fail(LaunchError),
}

/// What the `use` subcommand's argument designates.
#[derive(Debug, Clone, PartialEq, Eq)]
pub enum UseTarget {
    /// A `host:port` shorthand: launch with the derived configuration.
    Endpoint(DefaultConfigItem),
    /// Anything else: the path of a run configuration.
    Path(String),
}

/// The names under which the proxy executable is looked for, in order.
pub open spec fn executable_names_spec() -> Seq<Seq<char>> {
    seq!["ppp"@, "ppp.cmd"@, "ppp.sh"@]
}

pub open spec fn config_flag(path: Seq<char>) -> Seq<char> {
    "--config="@ + path
}

pub open spec fn bypass_flag(path: Seq<char>) -> Seq<char> {
    "--bypass-iplist="@ + path
}

/// The proxy's arguments: the configured ones, then `--config=<path>`, then
/// `--bypass-iplist=<list>` where the list was written.
pub open spec fn launch_args_spec(
    args: Seq<Seq<char>>,
    config_path: Seq<char>,
    bypass_list: Option<Seq<char>>,
) -> Seq<Seq<char>> {
    args.push(config_flag(config_path)) + match bypass_list {
        Some(p) => seq![bypass_flag(p)],
        None => Seq::empty(),
    }
}

/// The step after attempt `attempt` ended with `outcome`.
pub open spec fn step_after(attempt: nat, outcome: SpawnOutcome) -> LaunchStep {
    match outcome {
        SpawnOutcome::Spawned => LaunchStep::Wait,
        SpawnOutcome::OtherError => LaunchStep::Fail(LaunchError::SpawnFailed),
        SpawnOutcome::NotFound => if attempt + 1 < executable_names_spec().len() {
            LaunchStep::Try((attempt + 1) as usize)
        } else {
            LaunchStep::Fail(LaunchError::ExecutableNotFound)
        },
    }
}

/// The names under which the proxy executable is looked for, in order.
pub fn executable_names() -> (r: Vec<String>)
    ensures
        strings_view(r@) == executable_names_spec(),
{
    let r = vec![String::from_str("ppp"), String::from_str("ppp.cmd"), String::from_str("ppp.sh")];
    assert(strings_view(r@) =~= executable_names_spec());
    r
}

/// Builds the proxy's argument vector.
pub fn launch_args(args: &Vec<String>, config_path: &str, bypass_list: Option<&str>) -> (r: Vec<
    String,
>)
    ensures
        strings_view(r@) == launch_args_spec(
            strings_view(args@),
            config_path@,
            match bypass_list {
                Some(p) => Some(p@),
                None => None,
            },
        ),
{
    let mut r: Vec<String> = Vec::new();
    let mut i: usize = 0;
    while i < args.len()
        invariant
            i <= args@.len(),
            strings_view(r@) == strings_view(args@.take(i as int)),
        decreases args.len() - i,
    {
        let a = args[i].clone();
        let ghost old_r = r@;
        r.push(a);
        assert(args@.take(i + 1) =~= args@.take(i as int).push(args@[i as int]));
        assert(strings_view(r@) =~= strings_view(old_r).push(a@));
        assert(strings_view(r@) =~= strings_view(args@.take(i + 1)));
        i = i + 1;
    }
    assert(args@.take(args@.len() as int) =~= args@);
    let ghost base = r@;
    let mut c = String::from_str("--config=");
    c.append(config_path);
    r.push(c);
    match bypass_list {
        Some(p) => {
            let mut b = String::from_str("--bypass-iplist=");
            b.append(p);
            r.push(b);
            assert(strings_view(r@) =~= strings_view(base).push(c@).push(b@));
        },
        None => {},
    }
    assert(strings_view(r@) =~= launch_args_spec(
        strings_view(args@),
        config_path@,
        match bypass_list {
            Some(p) => Some(p@),
            None => None,
        },
    ));
    r
}

/// Checks that the chosen run configuration exists, then builds the proxy's
/// argument vector. A missing configuration stops the launch before any
/// process is spawned.
pub fn plan_launch(
    config_exists: bool,
    args: &Vec<String>,
    config_path: &str,
    bypass_list: Option<&str>,
) -> (r: Result<Vec<String>, LaunchError>)
    ensures
        !config_exists <==> r == Err::<Vec<String>, LaunchError>(LaunchError::ConfigMissing),
        config_exists ==> (r matches Ok(v) && strings_view(v@) == launch_args_spec(
            strings_view(args@),
            config_path@,
            match bypass_list {
                Some(p) => Some(p@),
                None => None,
            },
        )),
{
    if !config_exists {
        return Err(LaunchError::ConfigMissing);
    }
    Ok(launch_args(args, config_path, bypass_list))
}

/// The first step of a launch: try the first executable name.
pub fn first_step() -> (r: LaunchStep)
    ensures
        r == LaunchStep::Try(0),
{
    LaunchStep::Try(0)
}

/// The step after attempt `attempt` ended with `outcome`: wait for a spawned
/// process, fail on an error other than a missing program, otherwise try the
/// next name, or fail once every name was missing.
pub fn next_step(attempt: usize, outcome: SpawnOutcome) -> (r: LaunchStep)
    requires
        attempt < executable_names_spec().len(),
    ensures
        r == step_after(attempt as nat, outcome),
{
    match outcome {
        SpawnOutcome::Spawned => LaunchStep::Wait,
        SpawnOutcome::OtherError => LaunchStep::Fail(LaunchError::SpawnFailed),
        SpawnOutcome::NotFound => if attempt + 1 < 3 {
            LaunchStep::Try(attempt + 1)
        } else {
            LaunchStep::Fail(LaunchError::ExecutableNotFound)
        },
    }
}

/// Reads the `use` subcommand's argument: a `host:port` shorthand where
/// `DefaultConfigItem::parse` accepts it, a path otherwise.
pub fn resolve_use_target(config: &str) -> (r: UseTarget)
    ensures
        match crate::client_config::spec_parse_host_port(config@) {
            Some(hp) => r matches UseTarget::Endpoint(item) && item@ == (
                crate::client_config::undefined_name(),
                hp.0,
                hp.1,
            ),
            None => r matches UseTarget::Path(p) && p@ == config@,
        },
{
    match DefaultConfigItem::parse(config) {
        Some(item) => UseTarget::Endpoint(item),
        None => UseTarget::Path(String::from_str(config)),
    }
}

/// When every executable name is missing, the attempts go through the names
/// in order and the launch ends in `ExecutableNotFound`.
pub proof fn lemma_all_missing_exhausts()
    ensures
        step_after(0, SpawnOutcome::NotFound) == LaunchStep::Try(1),
        step_after(1, SpawnOutcome::NotFound) == LaunchStep::Try(2),
        step_after(2, SpawnOutcome::NotFound) == LaunchStep::Fail(
            LaunchError::ExecutableNotFound,
        ),
{
}

} // verus!
