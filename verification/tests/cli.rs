use codex_config_schema::cli::parse_output_arg;

fn args(xs: &[&str]) -> Vec<String> {
    xs.iter().map(|x| x.to_string()).collect()
}

#[test]
fn output_flag_short_and_long() {
    assert_eq!(parse_output_arg(&args(&["gen", "-o", "out.json"])), Ok("out.json".to_string()));
    assert_eq!(parse_output_arg(&args(&["gen", "x", "--out", "a.json", "-o", "b"])), Ok("a.json".to_string()));
}

#[test]
fn output_flag_without_path() {
    assert_eq!(
        parse_output_arg(&args(&["gen", "-o"])),
        Err("Missing output file path after -o/--out".to_string())
    );
}

#[test]
fn usage_without_output_flag() {
    assert_eq!(parse_output_arg(&args(&["gen"])), Err("Usage: gen -o <output-file>".to_string()));
    assert_eq!(parse_output_arg(&args(&[])), Err("Usage: program -o <output-file>".to_string()));
    // the program name is not read as a flag
    assert_eq!(parse_output_arg(&args(&["-o", "x"])), Err("Usage: -o -o <output-file>".to_string()));
}
