use shroom::dispatch::{
    dispatch, lookup_builtin, plan_exit_code, resolve_home_cd, result_to_exit_code,
    status_exit_code, BuiltinKind, Plan,
};
use shroom::numparse::parse_i32;
use shroom::parser::Parser;

fn plan_for(input: &str) -> Plan {
    let ast = Parser::new(input).parse().expect("line should parse");
    dispatch(&ast)
}

#[test]
fn empty_line_succeeds_with_exit_code_zero() {
    let plan = plan_for("  \t \n");
    assert_eq!(plan, Plan::Success);
    assert_eq!(plan_exit_code(&plan), Some(0));
}

#[test]
fn cd_with_two_arguments_is_too_many() {
    let plan = plan_for("cd a b\n");
    assert_eq!(
        plan,
        Plan::ArityFailure { kind: BuiltinKind::Cd, too_many: true }
    );
    assert_eq!(plan_exit_code(&plan), Some(1));
    assert_eq!(
        plan_for("cd a b c\n"),
        Plan::ArityFailure { kind: BuiltinKind::Cd, too_many: true }
    );
}

#[test]
fn cd_without_argument_goes_home() {
    assert_eq!(plan_for("cd\n"), Plan::ChangeDirHome);
}

#[test]
fn home_fallback_resolves_or_fails_with_one() {
    assert_eq!(
        resolve_home_cd(Some("/home/u".to_string())),
        Ok("/home/u".to_string())
    );
    assert_eq!(resolve_home_cd(None), Err(1));
}

#[test]
fn cd_with_one_argument_changes_to_it() {
    assert_eq!(
        plan_for("cd /tmp\n"),
        Plan::ChangeDirTo { path: "/tmp".to_string() }
    );
    assert_eq!(
        plan_for("cd \"a b\"\n"),
        Plan::ChangeDirTo { path: "a b".to_string() }
    );
}

#[test]
fn exit_zero_terminates_with_zero() {
    assert_eq!(plan_for("exit 0\n"), Plan::Terminate { code: 0 });
}

#[test]
fn exit_without_argument_terminates_with_zero() {
    assert_eq!(plan_for("exit\n"), Plan::Terminate { code: 0 });
}

#[test]
fn exit_with_malformed_code_reports_and_returns_one() {
    let plan = plan_for("exit notanumber\n");
    assert_eq!(plan, Plan::ReportBadExitCode);
    assert_eq!(plan_exit_code(&plan), Some(1));
}

#[test]
fn exit_code_forms_and_limits() {
    assert_eq!(plan_for("exit 5\n"), Plan::Terminate { code: 5 });
    assert_eq!(plan_for("exit -5\n"), Plan::Terminate { code: -5 });
    assert_eq!(plan_for("exit +7\n"), Plan::Terminate { code: 7 });
    assert_eq!(
        plan_for("exit 2147483647\n"),
        Plan::Terminate { code: 2147483647 }
    );
    assert_eq!(
        plan_for("exit -2147483648\n"),
        Plan::Terminate { code: -2147483648 }
    );
    assert_eq!(plan_for("exit 2147483648\n"), Plan::ReportBadExitCode);
    assert_eq!(plan_for("exit -2147483649\n"), Plan::ReportBadExitCode);
    assert_eq!(
        plan_for("exit 99999999999999999999\n"),
        Plan::ReportBadExitCode
    );
    assert_eq!(plan_for("exit -\n"), Plan::ReportBadExitCode);
    assert_eq!(plan_for("exit 1.5\n"), Plan::ReportBadExitCode);
}

#[test]
fn parse_i32_accepts_exactly_well_formed_numbers() {
    assert_eq!(parse_i32(&"0".to_string()), Some(0));
    assert_eq!(parse_i32(&"007".to_string()), Some(7));
    assert_eq!(parse_i32(&"00000000000000000001".to_string()), Some(1));
    assert_eq!(parse_i32(&"-0".to_string()), Some(0));
    assert_eq!(parse_i32(&"".to_string()), None);
    assert_eq!(parse_i32(&"+".to_string()), None);
    assert_eq!(parse_i32(&"1x".to_string()), None);
    assert_eq!(parse_i32(&" 1".to_string()), None);
}

#[test]
fn unknown_command_becomes_a_spawn_plan() {
    assert_eq!(
        plan_for("nosuchcmd -v file\n"),
        Plan::Spawn {
            command: "nosuchcmd".to_string(),
            args: vec!["-v".to_string(), "file".to_string()],
        }
    );
    // The plan settles no exit code itself: that waits on the process.
    assert_eq!(plan_exit_code(&plan_for("nosuchcmd\n")), None);
}

#[test]
fn builtins_are_matched_by_exact_name_only() {
    assert!(lookup_builtin(&"cd".to_string()).is_some());
    assert!(lookup_builtin(&"exit".to_string()).is_some());
    assert!(lookup_builtin(&"cdd".to_string()).is_none());
    assert!(lookup_builtin(&"c".to_string()).is_none());
    assert!(lookup_builtin(&"Exit".to_string()).is_none());
}

#[test]
fn builtin_names_match_their_kinds() {
    assert_eq!(BuiltinKind::Cd.name(), "cd");
    assert_eq!(BuiltinKind::Exit.name(), "exit");
}

#[test]
fn spawn_failure_exit_code_is_127() {
    assert_eq!(status_exit_code(None, None), 127);
}

#[test]
fn signal_death_exit_code_is_128_plus_signal() {
    assert_eq!(status_exit_code(None, Some(9)), 137);
    assert_eq!(status_exit_code(None, Some(15)), 143);
}

#[test]
fn explicit_exit_code_is_kept() {
    assert_eq!(status_exit_code(Some(0), None), 0);
    assert_eq!(status_exit_code(Some(3), Some(9)), 3);
}

#[test]
fn builtin_outcome_maps_to_exit_code() {
    assert_eq!(result_to_exit_code(true), 0);
    assert_eq!(result_to_exit_code(false), 1);
}
