use cargo_examples::command::{build_features_flag, build_invocation, Invocation};
use cargo_examples::discovery::{discover, DirectoryEntry};
use cargo_examples::example::{Example, Labelled};
use cargo_examples::plan::{listing, plan, Options, Step};
use cargo_examples::selection::{is_skipped, Phase};

fn options() -> Options {
    Options {
        list: false,
        print: false,
        from: None,
        no_run: false,
        skip: Vec::new(),
        features: Vec::new(),
        cargo_args: None,
    }
}

fn strings(items: &[&str]) -> Vec<String> {
    let mut out = Vec::new();
    for item in items {
        out.push(item.to_string());
    }
    out
}

fn named(name: &str) -> Labelled {
    Labelled { name: name.to_string(), example: Example::Named(name.to_string()) }
}

fn sample() -> Vec<Labelled> {
    vec![
        Labelled {
            name: "bar".to_string(),
            example: Example::MultiFile("examples/bar/main.rs".to_string()),
        },
        Labelled {
            name: "baz".to_string(),
            example: Example::SubProject("examples/baz/Cargo.toml".to_string()),
        },
        Labelled { name: "foo".to_string(), example: Example::File("examples/foo.rs".to_string()) },
    ]
}

fn letters() -> Vec<Labelled> {
    vec![named("a"), named("b"), named("c"), named("d"), named("e")]
}

fn indices(steps: &Vec<Step>) -> Vec<usize> {
    let mut out = Vec::new();
    for step in steps {
        out.push(step.index);
    }
    out
}

fn step_names(steps: &Vec<Step>) -> Vec<String> {
    let mut out = Vec::new();
    for step in steps {
        out.push(step.name.clone());
    }
    out
}

fn by_example(name: &str, flag: &str) -> Invocation {
    Invocation {
        program: "cargo".to_string(),
        args: strings(&["run", "--manifest-path", "Cargo.toml", "--example", name, flag]),
    }
}

#[test]
fn no_features_give_an_empty_flag() {
    assert_eq!(build_features_flag(&Vec::new()), "");
}

#[test]
fn one_feature_gives_a_flag_without_comma() {
    assert_eq!(build_features_flag(&strings(&["serde"])), "--features=serde");
}

#[test]
fn features_are_joined_by_commas_in_order() {
    assert_eq!(
        build_features_flag(&strings(&["zeta", "alpha", "dep/feat"])),
        "--features=zeta,alpha,dep/feat"
    );
}

#[test]
fn empty_features_are_passed_as_they_are() {
    assert_eq!(build_features_flag(&strings(&[""])), "--features=");
    assert_eq!(build_features_flag(&strings(&["a", "", "b"])), "--features=a,,b");
}

#[test]
fn single_file_is_run_by_name_through_the_package_manifest() {
    let invocation = build_invocation(
        &Example::File("examples/foo.rs".to_string()),
        &"foo".to_string(),
        &"proj/Cargo.toml".to_string(),
        &"--features=a,b".to_string(),
        &None,
    );
    assert_eq!(
        invocation,
        Invocation {
            program: "cargo".to_string(),
            args: strings(&[
                "run",
                "--manifest-path",
                "proj/Cargo.toml",
                "--example",
                "foo",
                "--features=a,b"
            ]),
        }
    );
}

#[test]
fn multi_file_and_declared_examples_are_run_by_name_too() {
    let manifest = "Cargo.toml".to_string();
    let flag = String::new();
    assert_eq!(
        build_invocation(
            &Example::MultiFile("examples/bar/main.rs".to_string()),
            &"bar".to_string(),
            &manifest,
            &flag,
            &None
        ),
        by_example("bar", "")
    );
    assert_eq!(
        build_invocation(
            &Example::Named("decl".to_string()),
            &"decl".to_string(),
            &manifest,
            &flag,
            &None
        ),
        by_example("decl", "")
    );
}

#[test]
fn sub_project_is_run_through_its_own_manifest_without_a_name() {
    let invocation = build_invocation(
        &Example::SubProject("examples/baz/Cargo.toml".to_string()),
        &"baz".to_string(),
        &"Cargo.toml".to_string(),
        &"--features=x".to_string(),
        &None,
    );
    assert_eq!(
        invocation,
        Invocation {
            program: "cargo".to_string(),
            args: strings(&["run", "--manifest-path", "examples/baz/Cargo.toml", "--features=x"]),
        }
    );
}

#[test]
fn trailing_arguments_are_appended_as_one_argument() {
    let extra = Some("--release -- --flag value".to_string());
    let invocation = build_invocation(
        &Example::File("examples/foo.rs".to_string()),
        &"foo".to_string(),
        &"Cargo.toml".to_string(),
        &String::new(),
        &extra,
    );
    assert_eq!(
        invocation.args,
        strings(&[
            "run",
            "--manifest-path",
            "Cargo.toml",
            "--example",
            "foo",
            "",
            "--release -- --flag value"
        ])
    );
    let nested = build_invocation(
        &Example::SubProject("examples/baz/Cargo.toml".to_string()),
        &"baz".to_string(),
        &"Cargo.toml".to_string(),
        &String::new(),
        &extra,
    );
    assert_eq!(
        nested.args,
        strings(&["run", "--manifest-path", "examples/baz/Cargo.toml", "", "--release -- --flag value"])
    );
}

#[test]
fn run_is_active_from_the_start_without_a_start_name() {
    assert_eq!(Phase::initial(&None), Phase::Active);
    assert!(Phase::initial(&None).is_active());
    assert_eq!(Phase::initial(&Some("c".to_string())), Phase::Waiting);
    assert!(!Phase::initial(&Some("c".to_string())).is_active());
}

#[test]
fn run_becomes_active_at_the_start_name_and_stays_so() {
    let from = Some("c".to_string());
    let phase = Phase::initial(&from);
    let phase = phase.advance(&from, &"a".to_string());
    assert_eq!(phase, Phase::Waiting);
    let phase = phase.advance(&from, &"c".to_string());
    assert_eq!(phase, Phase::Active);
    let phase = phase.advance(&from, &"d".to_string());
    assert_eq!(phase, Phase::Active);
    let phase = phase.advance(&from, &"c".to_string());
    assert_eq!(phase, Phase::Active);
}

#[test]
fn start_goes_by_the_whole_name() {
    let from = Some("ba".to_string());
    assert_eq!(Phase::Waiting.advance(&from, &"bar".to_string()), Phase::Waiting);
    assert_eq!(Phase::Waiting.advance(&from, &"b".to_string()), Phase::Waiting);
    assert_eq!(Phase::Waiting.advance(&from, &"BA".to_string()), Phase::Waiting);
    assert_eq!(Phase::Waiting.advance(&from, &"ba".to_string()), Phase::Active);
}

#[test]
fn phase_without_start_name_never_changes() {
    assert_eq!(Phase::Active.advance(&None, &"x".to_string()), Phase::Active);
    assert_eq!(Phase::Waiting.advance(&None, &"x".to_string()), Phase::Waiting);
}

#[test]
fn skipping_goes_by_the_whole_name() {
    let skip = strings(&["a", "bb"]);
    assert!(is_skipped(&skip, &"a".to_string()));
    assert!(is_skipped(&skip, &"bb".to_string()));
    assert!(!is_skipped(&skip, &"b".to_string()));
    assert!(!is_skipped(&skip, &"A".to_string()));
    assert!(!is_skipped(&Vec::new(), &"a".to_string()));
}

#[test]
fn listing_prints_every_name_in_order() {
    let mut asked = options();
    asked.list = true;
    assert_eq!(listing(&sample(), &asked), vec!["bar", "baz", "foo"]);
    assert_eq!(listing(&Vec::new(), &asked), Vec::<String>::new());
}

#[test]
fn nothing_is_listed_unless_asked_for() {
    assert_eq!(listing(&sample(), &options()), Vec::<String>::new());
}

#[test]
fn listing_is_the_same_whatever_is_selected() {
    let mut plain = options();
    plain.list = true;
    let mut filtered = options();
    filtered.list = true;
    filtered.from = Some("baz".to_string());
    filtered.skip = strings(&["foo", "bar"]);
    filtered.no_run = true;
    filtered.print = true;
    filtered.features = strings(&["f"]);
    filtered.cargo_args = Some("x".to_string());
    assert_eq!(listing(&sample(), &plain), listing(&sample(), &filtered));
    assert_eq!(listing(&sample(), &filtered), vec!["bar", "baz", "foo"]);
}

#[test]
fn listing_keeps_duplicate_names() {
    let mut asked = options();
    asked.list = true;
    assert_eq!(listing(&vec![named("a"), named("a"), named("b")], &asked), vec!["a", "a", "b"]);
}

#[test]
fn everything_runs_in_order_by_default() {
    let steps = plan(&sample(), &"Cargo.toml".to_string(), &options());
    assert_eq!(
        steps,
        vec![
            Step {
                index: 0,
                name: "bar".to_string(),
                print: false,
                invocation: Some(by_example("bar", "")),
            },
            Step {
                index: 1,
                name: "baz".to_string(),
                print: false,
                invocation: Some(Invocation {
                    program: "cargo".to_string(),
                    args: strings(&["run", "--manifest-path", "examples/baz/Cargo.toml", ""]),
                }),
            },
            Step {
                index: 2,
                name: "foo".to_string(),
                print: false,
                invocation: Some(by_example("foo", "")),
            },
        ]
    );
}

#[test]
fn features_and_trailing_arguments_reach_every_invocation() {
    let mut asked = options();
    asked.features = strings(&["a", "b"]);
    asked.cargo_args = Some("--quiet".to_string());
    let steps = plan(&sample(), &"proj/Cargo.toml".to_string(), &asked);
    assert_eq!(steps.len(), 3);
    assert_eq!(
        steps[0].invocation.as_ref().unwrap().args,
        strings(&[
            "run",
            "--manifest-path",
            "proj/Cargo.toml",
            "--example",
            "bar",
            "--features=a,b",
            "--quiet"
        ])
    );
    assert_eq!(
        steps[1].invocation.as_ref().unwrap().args,
        strings(&["run", "--manifest-path", "examples/baz/Cargo.toml", "--features=a,b", "--quiet"])
    );
    assert_eq!(
        steps[2].invocation.as_ref().unwrap().args,
        strings(&[
            "run",
            "--manifest-path",
            "proj/Cargo.toml",
            "--example",
            "foo",
            "--features=a,b",
            "--quiet"
        ])
    );
}

#[test]
fn skipped_examples_never_appear() {
    let mut asked = options();
    asked.skip = strings(&["a", "b"]);
    asked.print = true;
    let steps = plan(&letters(), &"Cargo.toml".to_string(), &asked);
    assert_eq!(step_names(&steps), vec!["c", "d", "e"]);
    assert_eq!(indices(&steps), vec![2, 3, 4]);
}

#[test]
fn skipped_examples_never_appear_even_where_the_run_starts_at_them() {
    let mut asked = options();
    asked.skip = strings(&["a", "b"]);
    asked.from = Some("a".to_string());
    let steps = plan(&letters(), &"Cargo.toml".to_string(), &asked);
    assert_eq!(step_names(&steps), vec!["c", "d", "e"]);
    asked.from = Some("b".to_string());
    let steps = plan(&letters(), &"Cargo.toml".to_string(), &asked);
    assert_eq!(step_names(&steps), vec!["c", "d", "e"]);
}

#[test]
fn every_example_of_a_skipped_name_is_skipped() {
    let list = vec![named("a"), named("dup"), named("dup"), named("z")];
    let mut asked = options();
    asked.skip = strings(&["dup"]);
    assert_eq!(indices(&plan(&list, &"Cargo.toml".to_string(), &asked)), vec![0, 3]);
}

#[test]
fn skipping_unknown_names_changes_nothing() {
    let mut asked = options();
    asked.skip = strings(&["nope", ""]);
    assert_eq!(
        plan(&letters(), &"Cargo.toml".to_string(), &asked),
        plan(&letters(), &"Cargo.toml".to_string(), &options())
    );
}

#[test]
fn nothing_before_the_start_name_runs() {
    let mut asked = options();
    asked.from = Some("c".to_string());
    asked.print = true;
    let steps = plan(&letters(), &"Cargo.toml".to_string(), &asked);
    assert_eq!(step_names(&steps), vec!["c", "d", "e"]);
    assert_eq!(indices(&steps), vec![2, 3, 4]);
    for step in &steps {
        assert!(step.print);
        assert!(step.invocation.is_some());
    }
}

#[test]
fn starting_at_the_first_name_runs_everything() {
    let mut asked = options();
    asked.from = Some("a".to_string());
    assert_eq!(
        plan(&letters(), &"Cargo.toml".to_string(), &asked),
        plan(&letters(), &"Cargo.toml".to_string(), &options())
    );
}

#[test]
fn starting_at_the_last_name_runs_only_the_last() {
    let mut asked = options();
    asked.from = Some("e".to_string());
    assert_eq!(indices(&plan(&letters(), &"Cargo.toml".to_string(), &asked)), vec![4]);
}

#[test]
fn start_name_that_no_example_has_runs_nothing() {
    let mut asked = options();
    asked.from = Some("bb".to_string());
    assert_eq!(plan(&letters(), &"Cargo.toml".to_string(), &asked), Vec::new());
    asked.from = Some(String::new());
    assert_eq!(plan(&letters(), &"Cargo.toml".to_string(), &asked), Vec::new());
}

#[test]
fn run_starts_at_the_first_example_of_the_start_name() {
    let list = vec![named("a"), named("dup"), named("dup"), named("z")];
    let mut asked = options();
    asked.from = Some("dup".to_string());
    assert_eq!(indices(&plan(&list, &"Cargo.toml".to_string(), &asked)), vec![1, 2, 3]);
}

#[test]
fn start_name_that_is_skipped_opens_the_run_for_what_follows() {
    let mut asked = options();
    asked.from = Some("baz".to_string());
    asked.skip = strings(&["baz"]);
    let steps = plan(&sample(), &"Cargo.toml".to_string(), &asked);
    assert_eq!(
        steps,
        vec![Step {
            index: 2,
            name: "foo".to_string(),
            print: false,
            invocation: Some(by_example("foo", "")),
        }]
    );
}

#[test]
fn dry_run_prints_every_selected_name_and_invokes_nothing() {
    let mut asked = options();
    asked.no_run = true;
    asked.print = true;
    asked.from = Some("b".to_string());
    asked.skip = strings(&["d"]);
    asked.features = strings(&["f"]);
    asked.cargo_args = Some("x".to_string());
    let steps = plan(&letters(), &"Cargo.toml".to_string(), &asked);
    assert_eq!(
        steps,
        vec![
            Step { index: 1, name: "b".to_string(), print: true, invocation: None },
            Step { index: 2, name: "c".to_string(), print: true, invocation: None },
            Step { index: 4, name: "e".to_string(), print: true, invocation: None },
        ]
    );
}

#[test]
fn dry_run_without_printing_still_selects() {
    let mut asked = options();
    asked.no_run = true;
    let steps = plan(&sample(), &"Cargo.toml".to_string(), &asked);
    assert_eq!(indices(&steps), vec![0, 1, 2]);
    for step in &steps {
        assert!(!step.print);
        assert_eq!(step.invocation, None);
    }
}

#[test]
fn listing_does_not_change_the_plan() {
    let mut asked = options();
    asked.list = true;
    assert_eq!(
        plan(&sample(), &"Cargo.toml".to_string(), &asked),
        plan(&sample(), &"Cargo.toml".to_string(), &options())
    );
}

#[test]
fn empty_list_gives_an_empty_plan() {
    assert_eq!(plan(&Vec::new(), &"Cargo.toml".to_string(), &options()), Vec::new());
}

#[test]
fn steps_carry_the_label_not_a_name_derived_again() {
    let list = vec![Labelled {
        name: "label".to_string(),
        example: Example::File("examples/other.rs".to_string()),
    }];
    let steps = plan(&list, &"Cargo.toml".to_string(), &options());
    assert_eq!(steps[0].name, "label");
    assert_eq!(steps[0].invocation, Some(by_example("label", "")));
}

#[test]
fn discovered_examples_run_in_sorted_order() {
    let entries = vec![
        DirectoryEntry {
            path: "examples/foo.rs".to_string(),
            is_file: true,
            is_dir: false,
            has_entry_point: false,
            has_manifest: false,
        },
        DirectoryEntry {
            path: "examples/baz".to_string(),
            is_file: false,
            is_dir: true,
            has_entry_point: false,
            has_manifest: true,
        },
        DirectoryEntry {
            path: "examples/bar".to_string(),
            is_file: false,
            is_dir: true,
            has_entry_point: true,
            has_manifest: false,
        },
    ];
    let list = discover(&entries, &strings(&["extra", "alpha"]));
    let mut asked = options();
    asked.print = true;
    asked.list = true;
    let steps = plan(&list, &"Cargo.toml".to_string(), &asked);
    assert_eq!(step_names(&steps), vec!["alpha", "bar", "baz", "extra", "foo"]);
    assert_eq!(listing(&list, &asked), vec!["alpha", "bar", "baz", "extra", "foo"]);
    assert_eq!(indices(&steps), vec![0, 1, 2, 3, 4]);
}
