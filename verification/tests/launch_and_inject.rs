use omp_core::injector::{
    command_line, next_injection_action, parse_injector_args, to_wide_string, wide_byte_len,
    escape_quotes_exec, InjectAction, InjectorArgsError,
};
use omp_core::launcher::{launch_plan, launch_result, LaunchConfig};

fn config(password: Option<&str>, omp: Option<&str>, is_wine: bool, prefix: Option<&str>) -> LaunchConfig {
    LaunchConfig {
        host: "127.0.0.1".to_string(),
        port: 7777,
        name: "Player".to_string(),
        password: password.map(|s| s.to_string()),
        game_path: "C:/Games/GTA San Andreas".to_string(),
        dll_path: "C:/samp/samp.dll".to_string(),
        omp_dll_path: omp.map(|s| s.to_string()),
        is_wine,
        wine_prefix: prefix.map(|s| s.to_string()),
        injector_exe_path: "C:/omp/omp-injector.exe".to_string(),
    }
}

fn strings(v: &[&str]) -> Vec<String> {
    v.iter().map(|s| s.to_string()).collect()
}

#[test]
fn native_plan_without_optional_parts() {
    let plan = launch_plan(config(None, None, false, None));
    assert_eq!(plan.program, "C:/omp/omp-injector.exe");
    assert_eq!(
        plan.args,
        strings(&[
            "C:/Games/GTA San Andreas/gta_sa.exe", "1", "C:/samp/samp.dll", "-c", "-n", "Player",
            "-h", "127.0.0.1", "-p", "7777",
        ])
    );
    assert!(plan.envs.is_empty());
    assert_eq!(plan.current_dir, "C:/Games/GTA San Andreas");
}

#[test]
fn empty_password_and_library_are_ignored() {
    let plan = launch_plan(config(Some(""), Some(""), false, None));
    assert_eq!(plan.args.len(), 10);
    assert_eq!(plan.args[1], "1");
    assert!(!plan.args.contains(&"-z".to_string()));
}

#[test]
fn wine_plan_with_everything() {
    let plan = launch_plan(config(Some("secret"), Some("C:/omp/omp-client.dll"), true, Some("/home/u/.wine")));
    assert_eq!(plan.program, "wine");
    assert_eq!(
        plan.args,
        strings(&[
            "C:/omp/omp-injector.exe", "C:/Games/GTA San Andreas/gta_sa.exe", "2", "C:/samp/samp.dll",
            "C:/omp/omp-client.dll", "-c", "-n", "Player", "-h", "127.0.0.1", "-p", "7777", "-z",
            "secret",
        ])
    );
    assert_eq!(
        plan.envs,
        vec![
            ("WINEDLLOVERRIDES".to_string(), "dinput8,samp,omp-client=n,b".to_string()),
            ("WINEPREFIX".to_string(), "/home/u/.wine".to_string()),
        ]
    );
}

#[test]
fn wine_plan_without_prefix() {
    let plan = launch_plan(config(None, None, true, Some("")));
    assert_eq!(plan.envs.len(), 1);
    assert_eq!(plan.envs[0].0, "WINEDLLOVERRIDES");
}

#[test]
fn launch_result_reports_spawn() {
    let ok = launch_result(Ok(()));
    assert!(ok.success);
    assert_eq!(ok.error, None);
    let err = launch_result(Err("No such file or directory (os error 2)".to_string()));
    assert!(!err.success);
    assert_eq!(err.error, Some("No such file or directory (os error 2)".to_string()));
}

#[test]
fn injector_reads_what_the_launcher_passes() {
    let plan = launch_plan(config(Some("pw"), Some("omp.dll"), false, None));
    let mut argv = vec![plan.program.clone()];
    argv.extend(plan.args.clone());
    let parsed = parse_injector_args(&argv).unwrap();
    assert_eq!(parsed.gta_path, "C:/Games/GTA San Andreas/gta_sa.exe");
    assert_eq!(parsed.dlls, strings(&["C:/samp/samp.dll", "omp.dll"]));
    assert_eq!(
        parsed.game_args,
        strings(&["-c", "-n", "Player", "-h", "127.0.0.1", "-p", "7777", "-z", "pw"])
    );
}

#[test]
fn injector_argument_errors() {
    assert_eq!(
        parse_injector_args(&strings(&["inj", "gta.exe", "1"])).unwrap_err(),
        InjectorArgsError::Usage
    );
    assert_eq!(
        parse_injector_args(&strings(&["inj", "gta.exe", "x", "a.dll"])).unwrap_err(),
        InjectorArgsError::InvalidDllCount
    );
    assert_eq!(
        parse_injector_args(&strings(&["inj", "gta.exe", "2", "a.dll"])).unwrap_err(),
        InjectorArgsError::DllCountOutOfRange
    );
    let zero = parse_injector_args(&strings(&["inj", "gta.exe", "0", "-c"])).unwrap();
    assert!(zero.dlls.is_empty());
    assert_eq!(zero.game_args, strings(&["-c"]));
}

#[test]
fn game_command_line_quoting() {
    let args = strings(&["-n", "My Name", "-z", "pa\"ss", "tab\there", ""]);
    let cmd = command_line("C:/Games/GTA San Andreas/gta_sa.exe", &args);
    assert_eq!(
        cmd,
        "\"C:/Games/GTA San Andreas/gta_sa.exe\" -n \"My Name\" -z pa\\\"ss \"tab\there\" "
    );
    assert_eq!(escape_quotes_exec("a\"b\"\""), "a\\\"b\\\"\\\"");
    assert_eq!(command_line("g.exe", &Vec::new()), "\"g.exe\"");
}

#[test]
fn wide_strings() {
    assert_eq!(to_wide_string("kernel32.dll"), "kernel32.dll".encode_utf16().chain([0]).collect::<Vec<u16>>());
    assert_eq!(to_wide_string(""), vec![0u16]);
    assert_eq!(to_wide_string("a\u{1F600}é"), vec![0x61, 0xD83D, 0xDE00, 0xE9, 0]);
    let w = to_wide_string("C:/samp/samp.dll");
    assert_eq!(wide_byte_len(w.len()), 34);
}

#[test]
fn injection_order() {
    assert_eq!(next_injection_action(2, 0, true), InjectAction::Inject(0));
    assert_eq!(next_injection_action(2, 1, true), InjectAction::Inject(1));
    assert_eq!(next_injection_action(2, 2, true), InjectAction::Resume);
    assert_eq!(next_injection_action(2, 1, false), InjectAction::Terminate);
    assert_eq!(next_injection_action(0, 0, true), InjectAction::Resume);
}

#[test]
fn wide_string_has_one_terminator() {
    let w = to_wide_string("C:/Games/GTA San Andreas/samp.dll");
    assert_eq!(*w.last().unwrap(), 0);
    assert!(w[..w.len() - 1].iter().all(|&u| u != 0));
}

#[test]
fn plain_arguments_are_kept() {
    assert_eq!(escape_quotes_exec("-c"), "-c");
    assert_eq!(command_line("g.exe", &strings(&["-h", "127.0.0.1"])), "\"g.exe\" -h 127.0.0.1");
}
