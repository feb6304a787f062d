//! Planning a game launch: which program to start, with which arguments,
//! environment and working directory, and how the spawn outcome is reported.

use vstd::prelude::*;

use crate::decimal::{decimal, u64_to_decimal};
use crate::rules::pair_views;
use crate::text::{owned, string_views};

verus! {

/// What the frontend asks to launch.
#[derive(Debug)]
pub struct LaunchConfig {
    pub host: String,
    pub port: u16,
    pub name: String,
    pub password: Option<String>,
    pub game_path: String,
    pub dll_path: String,
    pub omp_dll_path: Option<String>,
    pub is_wine: bool,
    pub wine_prefix: Option<String>,
    pub injector_exe_path: String,
}

/// What the frontend is told about a launch.
#[derive(Debug)]
pub struct LaunchResult {
    pub success: bool,
    pub error: Option<String>,
}

/// The process to start for a launch.
#[derive(Debug)]
pub struct LaunchPlan {
    /// The program that is run.
    pub program: String,
    /// Its arguments, in order.
    pub args: Vec<String>,
    /// Environment variables set for it, in order.
    pub envs: Vec<(String, String)>,
    /// Its working directory.
    pub current_dir: String,
}

/// An optional text that is given and not empty.
pub open spec fn given(o: Option<String>) -> bool {
    match o {
        Some(s) => s@.len() > 0,
        None => false,
    }
}

/// The text of a given optional value.
pub open spec fn given_text(o: Option<String>) -> Seq<char> {
    match o {
        Some(s) => s@,
        None => Seq::empty(),
    }
}

/// The libraries to inject: the SA-MP library, then the open.mp one when given.
pub open spec fn spec_dlls(c: LaunchConfig) -> Seq<Seq<char>> {
    if given(c.omp_dll_path) {
        seq![c.dll_path@, given_text(c.omp_dll_path)]
    } else {
        seq![c.dll_path@]
    }
}

/// The game executable inside the game directory.
pub open spec fn gta_exe_path(game_path: Seq<char>) -> Seq<char> {
    game_path + "/gta_sa.exe"@
}

/// The arguments that the game itself receives.
pub open spec fn spec_game_args(c: LaunchConfig) -> Seq<Seq<char>> {
    let base = seq!["-c"@, "-n"@, c.name@, "-h"@, c.host@, "-p"@, decimal(c.port as nat)];
    if given(c.password) {
        base + seq!["-z"@, given_text(c.password)]
    } else {
        base
    }
}

/// The arguments that the injector receives after its own path:
/// game executable, library count, libraries, game arguments.
pub open spec fn spec_injector_args(c: LaunchConfig) -> Seq<Seq<char>> {
    seq![gta_exe_path(c.game_path@), decimal(spec_dlls(c).len())] + spec_dlls(c) + spec_game_args(
        c,
    )
}

/// The program started: Wine, or the injector itself.
pub open spec fn spec_program(c: LaunchConfig) -> Seq<char> {
    if c.is_wine {
        "wine"@
    } else {
        c.injector_exe_path@
    }
}

/// The arguments of the started program.
pub open spec fn spec_program_args(c: LaunchConfig) -> Seq<Seq<char>> {
    if c.is_wine {
        seq![c.injector_exe_path@] + spec_injector_args(c)
    } else {
        spec_injector_args(c)
    }
}

/// The environment set for the started program.
pub open spec fn spec_envs(c: LaunchConfig) -> Seq<(Seq<char>, Seq<char>)> {
    if c.is_wine {
        if given(c.wine_prefix) {
            seq![
                ("WINEDLLOVERRIDES"@, "dinput8,samp,omp-client=n,b"@),
                ("WINEPREFIX"@, given_text(c.wine_prefix)),
            ]
        } else {
            seq![("WINEDLLOVERRIDES"@, "dinput8,samp,omp-client=n,b"@)]
        }
    } else {
        seq![]
    }
}

/// Whether `plan` is the plan for `c`.
pub open spec fn is_plan_for(plan: LaunchPlan, c: LaunchConfig) -> bool {
    &&& plan.program@ == spec_program(c)
    &&& string_views(plan.args@) == spec_program_args(c)
    &&& pair_views(plan.envs@) == spec_envs(c)
    &&& plan.current_dir@ == c.game_path@
}

fn given_value(o: Option<String>) -> (res: Option<String>)
    ensures
        res is Some <==> given(o),
        res matches Some(s) ==> s@ == given_text(o),
{
    match o {
        Some(s) => {
            if s.as_str().is_empty() {
                None
            } else {
                Some(s)
            }
        },
        None => None,
    }
}

/// The process that launches the game for `config`.
pub fn launch_plan(config: LaunchConfig) -> (plan: LaunchPlan)
    ensures
        is_plan_for(plan, config),
{
    let ghost c = config;
    let LaunchConfig {
        host,
        port,
        name,
        password,
        game_path,
        dll_path,
        omp_dll_path,
        is_wine,
        wine_prefix,
        injector_exe_path,
    } = config;

    let mut dlls: Vec<String> = Vec::new();
    dlls.push(dll_path);
    match given_value(omp_dll_path) {
        Some(omp) => dlls.push(omp),
        None => {},
    }
    assert(string_views(dlls@) =~= spec_dlls(c));

    let mut args: Vec<String> = Vec::new();
    let mut exe = game_path.clone();
    exe.append("/gta_sa.exe");
    args.push(exe);
    args.push(u64_to_decimal(dlls.len() as u64));
    assert(string_views(args@) =~= seq![gta_exe_path(c.game_path@), decimal(spec_dlls(c).len())]);
    let ghost head = args@;
    let ghost dll_list = dlls@;
    args.append(&mut dlls);
    assert(args@ == head + dll_list);
    assert(string_views(args@) =~= string_views(head) + string_views(dll_list));
    let ghost before_game = args@;

    let mut game: Vec<String> = Vec::new();
    game.push(owned("-c"));
    game.push(owned("-n"));
    game.push(name);
    game.push(owned("-h"));
    game.push(host);
    game.push(owned("-p"));
    game.push(u64_to_decimal(port as u64));
    match given_value(password) {
        Some(pw) => {
            game.push(owned("-z"));
            game.push(pw);
        },
        None => {},
    }
    assert(string_views(game@) =~= spec_game_args(c));
    let ghost game_list = game@;
    args.append(&mut game);
    assert(string_views(args@) =~= string_views(before_game) + string_views(game_list));
    assert(string_views(args@) =~= spec_injector_args(c));

    let mut envs: Vec<(String, String)> = Vec::new();
    let program;
    let program_args;
    if is_wine {
        envs.push((owned("WINEDLLOVERRIDES"), owned("dinput8,samp,omp-client=n,b")));
        match given_value(wine_prefix) {
            Some(prefix) => envs.push((owned("WINEPREFIX"), prefix)),
            None => {},
        }
        let mut all: Vec<String> = Vec::new();
        all.push(injector_exe_path);
        let ghost first = all@;
        let ghost rest = args@;
        all.append(&mut args);
        assert(string_views(all@) =~= string_views(first) + string_views(rest));
        program = owned("wine");
        program_args = all;
    } else {
        program = injector_exe_path;
        program_args = args;
    }
    assert(pair_views(envs@) =~= spec_envs(c));
    assert(program@ == spec_program(c));
    assert(string_views(program_args@) == spec_program_args(c));
    assert(game_path@ == c.game_path@);
    LaunchPlan { program, args: program_args, envs, current_dir: game_path }
}

/// The report for a spawn attempt: success, or the spawn error's text.
pub fn launch_result(spawn: Result<(), String>) -> (res: LaunchResult)
    ensures
        match spawn {
            Ok(_) => res.success && res.error is None,
            Err(e) => !res.success && res.error == Some(e),
        },
{
    match spawn {
        Ok(_) => LaunchResult { success: true, error: None },
        Err(e) => LaunchResult { success: false, error: Some(e) },
    }
}

/// Every Wine launch sets the library overrides first, whatever the prefix;
/// the prefix variable follows exactly when a non-empty prefix is given, and
/// nothing else is set. A native launch sets no environment.
pub proof fn law_wine_environment(plan: LaunchPlan, c: LaunchConfig)
    requires
        is_plan_for(plan, c),
    ensures
        c.is_wine ==> plan.envs.len() >= 1 && plan.envs[0].0@ == "WINEDLLOVERRIDES"@
            && plan.envs[0].1@ == "dinput8,samp,omp-client=n,b"@,
        c.is_wine ==> (plan.envs.len() == 2 <==> (c.wine_prefix matches Some(p) && p@.len() > 0)),
        c.is_wine ==> plan.envs.len() <= 2,
        c.is_wine && plan.envs.len() == 2 ==> plan.envs[1].0@ == "WINEPREFIX"@ && (
        c.wine_prefix matches Some(p) && plan.envs[1].1@ == p@),
        !c.is_wine ==> plan.envs.len() == 0,
{
    assert(pair_views(plan.envs@).len() == plan.envs.len());
    if plan.envs.len() >= 1 {
        assert(pair_views(plan.envs@)[0] == (plan.envs[0].0@, plan.envs[0].1@));
    }
    if plan.envs.len() >= 2 {
        assert(pair_views(plan.envs@)[1] == (plan.envs[1].0@, plan.envs[1].1@));
    }
}

} // verus!
