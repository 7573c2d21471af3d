//! Tests of the argument preprocessing and the query options.

use mindtape::cli::{preprocess_args, OutputFormat, QueryOpts};

#[test]
fn preprocess_rewrites_dash_number() {
    let args = vec!["mindtape".to_string(), "list".to_string(), "-5".to_string()];
    let result = preprocess_args(args);
    assert_eq!(result, vec!["mindtape", "list", "-n", "5"]);
}

#[test]
fn preprocess_leaves_other_args_alone() {
    let args = vec![
        "mindtape".to_string(),
        "list".to_string(),
        "--status".to_string(),
        "all".to_string(),
    ];
    let result = preprocess_args(args.clone());
    assert_eq!(result, args);
}

#[test]
fn preprocess_does_not_rewrite_double_dash() {
    let args = vec!["mindtape".to_string(), "--3".to_string()];
    let result = preprocess_args(args.clone());
    assert_eq!(result, args);
}

#[test]
fn query_opts_json_overrides_format() {
    let opts = QueryOpts {
        db: None,
        format: OutputFormat::Table,
        json: true,
    };
    assert_eq!(opts.output_format(), OutputFormat::Json);
}

#[test]
fn query_opts_format_csv() {
    let opts = QueryOpts {
        db: None,
        format: OutputFormat::Csv,
        json: false,
    };
    assert_eq!(opts.output_format(), OutputFormat::Csv);
}
