use fauxfs::probe::{get_inode_usage, parse_inode_usage, ProbeError, ProbeReport};

const TYPICAL: &str = "Filesystem      Inodes  IUsed   IFree IUse% Mounted on\n/dev/sda1      6553600 412345 6141255    7% /\n";

fn reference(output: &str) -> Result<u64, ProbeError> {
    let lines: Vec<&str> = output.split('\n').collect();
    if lines.len() < 2 {
        return Err(ProbeError::MissingDataLine);
    }
    let fields: Vec<&str> = lines[1].split_whitespace().collect();
    if fields.len() < 3 {
        return Err(ProbeError::MissingField);
    }
    fields[2].parse::<u64>().map_err(|_| ProbeError::InvalidNumber)
}

#[test]
fn the_third_column_of_the_second_line_is_the_usage() {
    assert_eq!(parse_inode_usage(TYPICAL), Ok(412345));
    assert_eq!(parse_inode_usage("h\na b 7"), Ok(7));
    assert_eq!(parse_inode_usage("h\na b 7 c d e\nx y 9"), Ok(7));
    assert_eq!(parse_inode_usage("\n1 2 3"), Ok(3));
    assert_eq!(parse_inode_usage("h\n  \t a   b\t\t0012  "), Ok(12));
    assert_eq!(parse_inode_usage("h\r\na b 5\r\n"), Ok(5));
    assert_eq!(parse_inode_usage("h\na b 18446744073709551615"), Ok(u64::MAX));
    assert_eq!(parse_inode_usage("h\n\u{a0}a\u{3000}b\u{2003}44"), Ok(44));
}

#[test]
fn output_without_a_second_line_is_refused() {
    assert_eq!(parse_inode_usage(""), Err(ProbeError::MissingDataLine));
    assert_eq!(parse_inode_usage("Filesystem Inodes IUsed"), Err(ProbeError::MissingDataLine));
    assert_eq!(parse_inode_usage("1 2 3"), Err(ProbeError::MissingDataLine));
}

#[test]
fn a_data_line_with_fewer_than_three_columns_is_refused() {
    assert_eq!(parse_inode_usage("h\n"), Err(ProbeError::MissingField));
    assert_eq!(parse_inode_usage("h\n   "), Err(ProbeError::MissingField));
    assert_eq!(parse_inode_usage("h\na"), Err(ProbeError::MissingField));
    assert_eq!(parse_inode_usage("h\na b"), Err(ProbeError::MissingField));
    assert_eq!(parse_inode_usage("h\na b \n3"), Err(ProbeError::MissingField));
    assert_eq!(parse_inode_usage("h\n\na b 3"), Err(ProbeError::MissingField));
}

#[test]
fn a_third_column_that_is_no_number_is_refused() {
    assert_eq!(parse_inode_usage("h\na b c"), Err(ProbeError::InvalidNumber));
    assert_eq!(parse_inode_usage("h\na b -"), Err(ProbeError::InvalidNumber));
    assert_eq!(parse_inode_usage("h\na b -5"), Err(ProbeError::InvalidNumber));
    assert_eq!(parse_inode_usage("h\na b 7%"), Err(ProbeError::InvalidNumber));
    assert_eq!(parse_inode_usage("h\na b 1.5"), Err(ProbeError::InvalidNumber));
    assert_eq!(
        parse_inode_usage("h\na b 18446744073709551616"),
        Err(ProbeError::InvalidNumber)
    );
}

#[test]
fn parsing_agrees_with_splitting_by_the_standard_library() {
    let pieces = ["", " ", "\n", "a", "12", "\t", "x y", " 7 ", "\r", "+3", "9999999999999999999999"];
    let mut samples: Vec<String> = vec![TYPICAL.to_string()];
    for a in pieces {
        for b in pieces {
            for c in pieces {
                for d in pieces {
                    samples.push(format!("{}{}{}{}", a, b, c, d));
                    samples.push(format!("h\n{} {} {} {}", a, b, c, d));
                }
            }
        }
    }
    for s in &samples {
        assert_eq!(parse_inode_usage(s), reference(s), "for {:?}", s);
    }
}

#[test]
fn a_host_without_accounting_reports_zero() {
    assert_eq!(get_inode_usage(&ProbeReport::Unsupported), Ok(0));
}

#[test]
fn a_failed_command_is_an_error() {
    assert_eq!(get_inode_usage(&ProbeReport::Failed), Err(ProbeError::CommandFailed));
}

#[test]
fn the_output_of_the_command_is_parsed() {
    assert_eq!(get_inode_usage(&ProbeReport::Output(TYPICAL.to_string())), Ok(412345));
    assert_eq!(
        get_inode_usage(&ProbeReport::Output(String::from("nothing"))),
        Err(ProbeError::MissingDataLine)
    );
    assert_eq!(
        get_inode_usage(&ProbeReport::Output(String::from("h\n1 2"))),
        Err(ProbeError::MissingField)
    );
    assert_eq!(
        get_inode_usage(&ProbeReport::Output(String::from("h\n1 2 x"))),
        Err(ProbeError::InvalidNumber)
    );
}
