use generator::definition::{parse_definition, Rule, TemplateDef};
use generator::generation::{
    admit_destination, file_contents, generate, plan_entry, rendered_contents, step_for, Contents,
    DestinationExists, Draft, Entry, GenerationError, Step, StepKind, Substitution,
};
use generator::pattern::Pattern;
use generator::variables::{resolve, Variables};

fn file(path: &str) -> Entry {
    Entry { path: path.to_string(), is_dir: false }
}

fn dir(path: &str) -> Entry {
    Entry { path: path.to_string(), is_dir: true }
}

fn substitute(request: &Substitution) -> Result<String, tera::Error> {
    tera::Tera::one_off(&request.template, request.variables.context(), false)
}

fn settle(draft: &Draft) -> Result<Step, GenerationError> {
    step_for(draft, draft.rename.as_ref().map(substitute))
}

fn steps(
    definition: &TemplateDef,
    variables: &Variables,
    listing: &Vec<Entry>,
) -> Result<Vec<Step>, GenerationError> {
    generate(definition, variables, listing)?.iter().map(settle).collect()
}

fn written(
    variables: &Variables,
    path: &str,
    template: bool,
    input: Vec<u8>,
) -> Result<Vec<u8>, GenerationError> {
    match file_contents(variables, path, template, input)? {
        Contents::Bytes(bytes) => Ok(bytes),
        Contents::Substitute(request) => rendered_contents(path, substitute(&request)),
    }
}

fn sources(drafts: &[Draft]) -> Vec<(String, StepKind, Option<String>)> {
    drafts
        .iter()
        .map(|draft| {
            (
                draft.source.clone(),
                draft.kind,
                draft.rename.as_ref().map(|request| request.template.clone()),
            )
        })
        .collect()
}

fn shape(steps: &[Step]) -> Vec<(String, String, StepKind)> {
    steps.iter().map(|step| (step.source.clone(), step.destination.clone(), step.kind)).collect()
}

fn step(source: &str, destination: &str, kind: StepKind) -> (String, String, StepKind) {
    (source.to_string(), destination.to_string(), kind)
}

fn rule(pattern: &str, template: bool, included: bool, rename: Option<&str>) -> Rule {
    Rule {
        sources: vec![Pattern::new(pattern.to_string()).unwrap()],
        template,
        included,
        rename: rename.map(|text| text.to_string()),
    }
}

fn render_failure() -> tera::Error {
    tera::Tera::one_off("{{", &tera::Context::new(), false).unwrap_err()
}

#[test]
fn generation_does_not_start_where_the_destination_is_there() {
    assert_eq!(admit_destination(true), Err(DestinationExists));
    assert_eq!(admit_destination(false), Ok(()));
}

#[test]
fn excluded_file_is_not_generated() {
    let definition =
        parse_definition(b"files:\n  - sources: \"^secret\\\\.txt$\"\n    include: false\n")
            .unwrap();
    let listing = vec![file("secret.txt"), file("a.txt")];
    let drafts = generate(&definition, &Variables::new(), &listing).unwrap();
    assert_eq!(sources(&drafts), vec![("a.txt".to_string(), StepKind::Rendered, None)]);
    let steps = steps(&definition, &Variables::new(), &listing).unwrap();
    assert_eq!(shape(&steps), vec![step("a.txt", "a.txt", StepKind::Rendered)]);
}

#[test]
fn prompted_value_is_rendered_everywhere() {
    let definition = parse_definition(b"variables:\n  - name\n").unwrap();
    let variables = resolve(
        Variables::new(),
        Some("out"),
        &definition.variables,
        &vec!["demo".to_string()],
    )
    .unwrap();
    let output = written(
        &variables,
        "README.md",
        true,
        b"# {{ name }}\n{{ name }} lives in {{ basename }}, {{name}}!\n".to_vec(),
    )
    .unwrap();
    assert_eq!(output, b"# demo\ndemo lives in out, demo!\n".to_vec());
}

#[test]
fn rename_template_sees_the_path_as_file() {
    let definition =
        parse_definition(b"files:\n  - sources: '^input.txt$'\n    rename: '{{file}}.out'\n")
            .unwrap();
    let mut variables = Variables::new();
    variables.bind("who", "world");
    let drafts = generate(&definition, &variables, &vec![file("input.txt")]).unwrap();
    assert_eq!(
        sources(&drafts),
        vec![("input.txt".to_string(), StepKind::Rendered, Some("{{file}}.out".to_string()))]
    );
    let request = drafts[0].rename.as_ref().unwrap();
    assert_eq!(request.variables.text("file"), Some("input.txt".to_string()));
    assert_eq!(request.variables.text("who"), Some("world".to_string()));
    let steps = steps(&definition, &variables, &vec![file("input.txt")]).unwrap();
    assert_eq!(shape(&steps), vec![step("input.txt", "input.txt.out", StepKind::Rendered)]);
    let output =
        written(&variables, "input.txt", true, b"hello {{ who }} from {{ file }}".to_vec())
            .unwrap();
    assert_eq!(output, b"hello world from input.txt".to_vec());
}

#[test]
fn rename_request_binds_file_over_a_variable_of_that_name() {
    let definition = TemplateDef {
        rules: vec![rule(".*", true, true, Some("{{ file }}"))],
        variables: vec![],
    };
    let mut variables = Variables::new();
    variables.bind("file", "mine");
    let draft = plan_entry(&definition, &variables, &file("a/b")).unwrap().unwrap();
    let request = draft.rename.as_ref().unwrap();
    assert_eq!(request.template, "{{ file }}");
    assert_eq!(request.variables.text("file"), Some("a/b".to_string()));
    assert_eq!(variables.text("file"), Some("mine".to_string()));
}

#[test]
fn excluded_directory_takes_everything_under_it_along() {
    let text = "files:\n  - sources: '^build/keep\\.txt$'\n  - sources: '^build$'\n    include: false\n";
    let definition = parse_definition(text.as_bytes()).unwrap();
    let listing = vec![
        dir("build"),
        file("build/keep.txt"),
        dir("build/deep"),
        file("build/deep/x"),
        file("builder"),
        file("build.rs"),
    ];
    let drafts = generate(&definition, &Variables::new(), &listing).unwrap();
    assert_eq!(
        sources(&drafts),
        vec![
            ("builder".to_string(), StepKind::Rendered, None),
            ("build.rs".to_string(), StepKind::Rendered, None),
        ]
    );
    assert!(definition.excludes("build"));
    assert!(!definition.excludes("build/keep.txt"));
    assert!(definition.prunes("build/keep.txt"));
    assert!(definition.prunes("build/deep/x"));
    assert!(!definition.prunes("build"));
    assert!(!definition.prunes("builder"));
    assert!(matches!(
        plan_entry(&definition, &Variables::new(), &file("build/keep.txt")),
        Ok(None)
    ));
}

#[test]
fn repository_directory_and_configuration_are_left_out() {
    let definition = parse_definition(b"{}").unwrap();
    let listing = vec![
        dir(".git"),
        file(".git/config"),
        dir(".git/objects"),
        file(".gitignore"),
        file("template.yml"),
        dir("src"),
        file("src/template.yml"),
    ];
    let steps = steps(&definition, &Variables::new(), &listing).unwrap();
    assert_eq!(
        shape(&steps),
        vec![
            step(".gitignore", ".gitignore", StepKind::Rendered),
            step("src", "src", StepKind::Directory),
            step("src/template.yml", "src/template.yml", StepKind::Rendered),
        ]
    );
}

#[test]
fn names_that_only_look_like_the_left_out_ones_are_taken() {
    let definition = parse_definition(b"{}").unwrap();
    let listing = vec![
        file("agit"),
        dir("xgit"),
        file("xgit/config"),
        file("templateXyml"),
        file("template.yml"),
        dir(".git"),
        file(".git/HEAD"),
    ];
    let steps = steps(&definition, &Variables::new(), &listing).unwrap();
    assert_eq!(
        shape(&steps),
        vec![
            step("agit", "agit", StepKind::Rendered),
            step("xgit", "xgit", StepKind::Directory),
            step("xgit/config", "xgit/config", StepKind::Rendered),
            step("templateXyml", "templateXyml", StepKind::Rendered),
        ]
    );
}

#[test]
fn steps_keep_the_order_of_the_listing() {
    let definition = parse_definition(b"files:\n  - sources: '\\.bin$'\n    template: false\n")
        .unwrap();
    let listing = vec![dir("b"), file("b/z.bin"), file("b/a.txt"), dir("a"), file("a/y.bin")];
    let steps = steps(&definition, &Variables::new(), &listing).unwrap();
    assert_eq!(
        shape(&steps),
        vec![
            step("b", "b", StepKind::Directory),
            step("b/z.bin", "b/z.bin", StepKind::Verbatim),
            step("b/a.txt", "b/a.txt", StepKind::Rendered),
            step("a", "a", StepKind::Directory),
            step("a/y.bin", "a/y.bin", StepKind::Verbatim),
        ]
    );
}

#[test]
fn empty_listing_has_no_steps() {
    let definition = parse_definition(b"{}").unwrap();
    assert!(generate(&definition, &Variables::new(), &vec![]).unwrap().is_empty());
}

#[test]
fn renamed_directory_is_a_directory_step() {
    let definition =
        parse_definition(b"files:\n  - sources: '^pkg$'\n    rename: '{{ name }}'\n").unwrap();
    let mut variables = Variables::new();
    variables.bind("name", "demo");
    let steps = steps(&definition, &variables, &vec![dir("pkg"), file("pkg/mod.rs")]).unwrap();
    assert_eq!(
        shape(&steps),
        vec![
            step("pkg", "demo", StepKind::Directory),
            step("pkg/mod.rs", "pkg/mod.rs", StepKind::Rendered),
        ]
    );
}

#[test]
fn path_without_a_rule_stops_the_generation() {
    let definition = TemplateDef {
        rules: vec![rule("^a", true, true, None), rule("^skip$", true, false, None)],
        variables: vec![],
    };
    let listing = vec![file("a1"), dir("skip"), file("skip/b"), file("b"), file("c"), file("a2")];
    match generate(&definition, &Variables::new(), &listing) {
        Err(GenerationError::NoRuleMatched { path }) => assert_eq!(path, "b"),
        other => panic!("another outcome: {:?}", other),
    }
    match plan_entry(&definition, &Variables::new(), &file("zzz")) {
        Err(GenerationError::NoRuleMatched { path }) => assert_eq!(path, "zzz"),
        other => panic!("another outcome: {:?}", other),
    }
    let drafts =
        generate(&definition, &Variables::new(), &vec![file("a1"), file("skip/b"), file("a2")])
            .unwrap();
    assert_eq!(
        sources(&drafts),
        vec![
            ("a1".to_string(), StepKind::Rendered, None),
            ("a2".to_string(), StepKind::Rendered, None),
        ]
    );
}

#[test]
fn rename_that_does_not_render_names_the_entry() {
    let definition =
        parse_definition(b"files:\n  - sources: '^x$'\n    rename: '{{ missing }}'\n").unwrap();
    match steps(&definition, &Variables::new(), &vec![file("ok"), file("x")]) {
        Err(GenerationError::Render { path, .. }) => assert_eq!(path, "x"),
        other => panic!("another outcome: {:?}", other),
    }
    let definition =
        parse_definition(b"files:\n  - sources: '^x$'\n    rename: '{% if %}'\n").unwrap();
    let draft = plan_entry(&definition, &Variables::new(), &file("x")).unwrap().unwrap();
    match settle(&draft) {
        Err(GenerationError::Render { path, .. }) => assert_eq!(path, "x"),
        other => panic!("another outcome: {:?}", other),
    }
}

#[test]
fn file_that_is_not_substituted_keeps_its_bytes() {
    let bytes: Vec<u8> = vec![0, 159, 146, 150, 255, b'{', b'{', b' ', b'x', b' ', b'}', b'}'];
    match file_contents(&Variables::new(), "blob.bin", false, bytes.clone()) {
        Ok(Contents::Bytes(output)) => assert_eq!(output, bytes),
        other => panic!("another outcome: {:?}", other),
    }
    match file_contents(&Variables::new(), "empty", false, vec![]) {
        Ok(Contents::Bytes(output)) => assert!(output.is_empty()),
        other => panic!("another outcome: {:?}", other),
    }
}

#[test]
fn substituted_file_has_to_be_text() {
    match file_contents(&Variables::new(), "blob.bin", true, vec![b'a', 0xff, b'b']) {
        Err(GenerationError::InvalidUtf8 { path }) => assert_eq!(path, "blob.bin"),
        other => panic!("another outcome: {:?}", other),
    }
}

#[test]
fn text_of_a_substituted_file_is_handed_out_with_its_variables() {
    let mut variables = Variables::new();
    variables.bind("name", "demo");
    let text = "h\u{e9}llo {{ name }} \u{4e2d}\u{1f600}";
    match file_contents(&variables, "dir/a.txt", true, text.as_bytes().to_vec()) {
        Ok(Contents::Substitute(request)) => {
            assert_eq!(request.template, text);
            assert_eq!(request.variables.text("file"), Some("dir/a.txt".to_string()));
            assert_eq!(request.variables.text("name"), Some("demo".to_string()));
        }
        other => panic!("another outcome: {:?}", other),
    }
    match file_contents(&variables, "empty", true, vec![]) {
        Ok(Contents::Substitute(request)) => assert_eq!(request.template, ""),
        other => panic!("another outcome: {:?}", other),
    }
}

#[test]
fn text_without_variables_passes_through_substitution() {
    let text = "plain text, with \u{e9}\u{4e2d}\u{1f600} and no braces\n";
    let output = written(&Variables::new(), "plain.txt", true, text.as_bytes().to_vec()).unwrap();
    assert_eq!(output, text.as_bytes().to_vec());
}

#[test]
fn structured_default_can_be_walked_by_a_template() {
    let variables = Variables::from_defaults(b"tags: [a, b]\nyear: 1843\n").unwrap();
    let output = written(
        &variables,
        "t",
        true,
        b"{% for tag in tags %}<{{ tag }}>{% endfor %} {{ year + 1 }}".to_vec(),
    )
    .unwrap();
    assert_eq!(output, b"<a><b> 1844".to_vec());
}

#[test]
fn unknown_variable_fails_the_substitution() {
    match written(&Variables::new(), "a.txt", true, b"{{ nobody }}".to_vec()) {
        Err(GenerationError::Render { path, .. }) => assert_eq!(path, "a.txt"),
        other => panic!("another outcome: {:?}", other),
    }
    match written(&Variables::new(), "b.txt", true, b"{% endfor %}".to_vec()) {
        Err(GenerationError::Render { path, .. }) => assert_eq!(path, "b.txt"),
        other => panic!("another outcome: {:?}", other),
    }
}

#[test]
fn rendered_text_becomes_the_bytes_of_the_file() {
    let output = rendered_contents("p", Ok("h\u{e9}llo".to_string())).unwrap();
    assert_eq!(output, vec![b'h', 0xc3, 0xa9, b'l', b'l', b'o']);
    assert!(rendered_contents("p", Ok(String::new())).unwrap().is_empty());
}

#[test]
fn render_failure_is_handed_on_under_the_path() {
    let told = format!("{:?}", render_failure());
    match rendered_contents("dir/p", Err(render_failure())) {
        Err(GenerationError::Render { path, cause }) => {
            assert_eq!(path, "dir/p");
            assert_eq!(format!("{:?}", cause), told);
        }
        other => panic!("another outcome: {:?}", other),
    }
}

#[test]
fn step_goes_where_the_substitution_says() {
    let kept = Draft { source: "a".to_string(), kind: StepKind::Rendered, rename: None };
    let placed = step_for(&kept, None).unwrap();
    assert_eq!(shape(&[placed]), vec![step("a", "a", StepKind::Rendered)]);
    let moved = step_for(&kept, Some(Ok("b/c".to_string()))).unwrap();
    assert_eq!(shape(&[moved]), vec![step("a", "b/c", StepKind::Rendered)]);
    let made = Draft { source: "a".to_string(), kind: StepKind::Directory, rename: None };
    let made = step_for(&made, Some(Ok("d".to_string()))).unwrap();
    assert_eq!(shape(&[made]), vec![step("a", "d", StepKind::Directory)]);
    let told = format!("{:?}", render_failure());
    match step_for(&kept, Some(Err(render_failure()))) {
        Err(GenerationError::Render { path, cause }) => {
            assert_eq!(path, "a");
            assert_eq!(format!("{:?}", cause), told);
        }
        other => panic!("another outcome: {:?}", other),
    }
}

#[test]
fn draft_has_the_kind_that_entry_and_rule_call_for() {
    let definition = TemplateDef {
        rules: vec![rule("\\.bin$", false, true, None), rule(".*", true, true, None)],
        variables: vec![],
    };
    let variables = Variables::new();
    let kind = |entry: &Entry| plan_entry(&definition, &variables, entry).unwrap().unwrap().kind;
    assert_eq!(kind(&file("a.bin")), StepKind::Verbatim);
    assert_eq!(kind(&file("a.txt")), StepKind::Rendered);
    assert_eq!(kind(&dir("a.bin")), StepKind::Directory);
    assert_eq!(kind(&dir("a")), StepKind::Directory);
}

#[test]
fn ancestors_are_told_by_slashes_alone() {
    let definition = TemplateDef {
        rules: vec![rule("^a$", true, false, None), rule(".*", true, true, None)],
        variables: vec![],
    };
    assert!(definition.prunes("a/b"));
    assert!(definition.prunes("a/b/c"));
    assert!(!definition.prunes("a"));
    assert!(!definition.prunes("ab/c"));
    assert!(!definition.prunes("b/a"));
    assert!(!definition.prunes("b/a/c"));
    assert!(!definition.prunes(""));
    assert!(!definition.prunes("/a"));
    assert!(definition.excludes("a"));
    assert!(!definition.excludes("a/b"));
    let accented = TemplateDef {
        rules: vec![rule("^\u{e9}t\u{e9}$", true, false, None), rule(".*", true, true, None)],
        variables: vec![],
    };
    assert!(accented.prunes("\u{e9}t\u{e9}/x"));
    assert!(!accented.prunes("\u{e9}t\u{e9}x/y"));
}

#[test]
fn path_that_no_rule_knows_is_not_excluded() {
    let definition = TemplateDef { rules: vec![rule("^a$", true, false, None)], variables: vec![] };
    assert!(!definition.excludes("b"));
    assert!(definition.excludes("a"));
}
