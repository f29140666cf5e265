use fauxfs::shell::{
    is_confirmed, parse_args, parse_positive, ArgumentError, Event, Phase, Session,
};

fn args(list: &[&str]) -> Vec<String> {
    list.iter().map(|s| s.to_string()).collect()
}

fn run(events: &[Event]) -> Option<Session> {
    let mut session = Session::new();
    for event in events {
        session = session.advance(*event)?;
    }
    Some(session)
}

const EVENTS: [Event; 8] = [
    Event::ArgumentsAccepted,
    Event::ArgumentsRejected,
    Event::Confirmed,
    Event::Declined,
    Event::GenerationSucceeded,
    Event::GenerationFailed,
    Event::UsageReported,
    Event::ProbeFailed,
];

#[test]
fn parse_positive_reads_positive_integers() {
    assert_eq!(parse_positive("1"), Some(1));
    assert_eq!(parse_positive("3"), Some(3));
    assert_eq!(parse_positive("+10"), Some(10));
    assert_eq!(parse_positive("0042"), Some(42));
    assert_eq!(parse_positive(&usize::MAX.to_string()), Some(usize::MAX));
}

#[test]
fn parse_positive_refuses_zero_and_what_is_no_number() {
    assert_eq!(parse_positive("0"), None);
    assert_eq!(parse_positive("000"), None);
    assert_eq!(parse_positive("+0"), None);
    assert_eq!(parse_positive(""), None);
    assert_eq!(parse_positive("-3"), None);
    assert_eq!(parse_positive("ten"), None);
    assert_eq!(parse_positive("10k"), None);
    assert_eq!(parse_positive(" 10"), None);
    assert_eq!(parse_positive("1.0"), None);
    assert_eq!(parse_positive("340282366920938463463374607431768211456"), None);
}

#[test]
fn three_arguments_make_a_request_without_signature() {
    let request = parse_args(&args(&["fauxfs", "/tmp/t", "3", "10"])).ok().unwrap();
    assert_eq!(request.base_path, "/tmp/t");
    assert_eq!(request.count, 3);
    assert_eq!(request.max_size, 10);
    assert!(!request.use_signature);
    assert!(request.is_valid());
}

#[test]
fn the_signature_flag_turns_signatures_on() {
    let request = parse_args(&args(&["fauxfs", "data", "1000", "4096", "--signature"])).ok().unwrap();
    assert_eq!(request.base_path, "data");
    assert_eq!(request.count, 1000);
    assert_eq!(request.max_size, 4096);
    assert!(request.use_signature);
}

#[test]
fn a_wrong_number_of_arguments_is_a_usage_error() {
    assert_eq!(parse_args(&args(&[])).err(), Some(ArgumentError::Usage));
    assert_eq!(parse_args(&args(&["fauxfs"])).err(), Some(ArgumentError::Usage));
    assert_eq!(parse_args(&args(&["fauxfs", "/tmp/t"])).err(), Some(ArgumentError::Usage));
    assert_eq!(parse_args(&args(&["fauxfs", "/tmp/t", "3"])).err(), Some(ArgumentError::Usage));
    assert_eq!(
        parse_args(&args(&["fauxfs", "/tmp/t", "3", "10", "--signature", "x"])).err(),
        Some(ArgumentError::Usage)
    );
    assert_eq!(
        parse_args(&args(&["fauxfs", "/tmp/t", "0", "0", "--signature", "x"])).err(),
        Some(ArgumentError::Usage)
    );
}

#[test]
fn an_unknown_fifth_argument_is_a_usage_error() {
    assert_eq!(
        parse_args(&args(&["fauxfs", "/tmp/t", "3", "10", "--sig"])).err(),
        Some(ArgumentError::Usage)
    );
    assert_eq!(
        parse_args(&args(&["fauxfs", "/tmp/t", "3", "10", "--SIGNATURE"])).err(),
        Some(ArgumentError::Usage)
    );
    assert_eq!(
        parse_args(&args(&["fauxfs", "/tmp/t", "3", "10", ""])).err(),
        Some(ArgumentError::Usage)
    );
    assert_eq!(
        parse_args(&args(&["fauxfs", "--signature", "/tmp/t", "3", "10"])).err(),
        Some(ArgumentError::Usage)
    );
}

#[test]
fn a_count_of_zero_is_refused() {
    assert_eq!(
        parse_args(&args(&["fauxfs", "/tmp/t", "0", "10"])).err(),
        Some(ArgumentError::InvalidCount)
    );
    let session = Session::new().advance(Event::ArgumentsRejected).unwrap();
    assert_eq!(session.phase, Phase::Aborted);
    assert_eq!(session.exit_code(), Some(1));
    for event in EVENTS {
        assert_eq!(session.advance(event), None);
    }
}

#[test]
fn a_count_that_is_no_number_is_refused() {
    for bad in ["", "x", "-1", "3.5", "1e3", " 3", "99999999999999999999999999"] {
        assert_eq!(
            parse_args(&args(&["fauxfs", "/tmp/t", bad, "10"])).err(),
            Some(ArgumentError::InvalidCount)
        );
    }
}

#[test]
fn a_bad_size_limit_is_refused() {
    for bad in ["0", "", "big", "-10", "10MB"] {
        assert_eq!(
            parse_args(&args(&["fauxfs", "/tmp/t", "3", bad])).err(),
            Some(ArgumentError::InvalidMaxSize)
        );
        assert_eq!(
            parse_args(&args(&["fauxfs", "/tmp/t", "3", bad, "--signature"])).err(),
            Some(ArgumentError::InvalidMaxSize)
        );
    }
}

#[test]
fn a_bad_count_is_told_before_a_bad_size_limit() {
    assert_eq!(
        parse_args(&args(&["fauxfs", "/tmp/t", "0", "0"])).err(),
        Some(ArgumentError::InvalidCount)
    );
}

#[test]
fn yes_in_any_case_confirms() {
    for answer in ["yes", "YES", "Yes", "yEs", "yeS", "yes\n", "yes\r\n", "  yes  ", "\tYES\t\n"] {
        assert!(is_confirmed(answer), "for {:?}", answer);
    }
}

#[test]
fn anything_but_yes_declines() {
    for answer in [
        "", "\n", "no", "No", "y", "ye", "yess", "yes!", "yes yes", "y es", "ok", "1", "oui",
        "yes no", "no yes", "nyes", "\u{ff59}es",
    ] {
        assert!(!is_confirmed(answer), "for {:?}", answer);
    }
}

#[test]
fn confirmation_agrees_with_trimming_and_comparing_without_case() {
    let pieces = ["", " ", "\n", "\t", "y", "Y", "e", "E", "s", "S", "yes", "YES", "no", "\u{a0}", "\u{2003}"];
    for a in pieces {
        for b in pieces {
            for c in pieces {
                for d in pieces {
                    let answer = format!("{}{}{}{}", a, b, c, d);
                    assert_eq!(
                        is_confirmed(&answer),
                        answer.trim().eq_ignore_ascii_case("yes"),
                        "for {:?}",
                        answer
                    );
                }
            }
        }
    }
}

#[test]
fn a_session_starts_by_reading_arguments() {
    let session = Session::new();
    assert_eq!(session.phase, Phase::ParsingArgs);
    assert!(!session.failed);
    assert_eq!(session.exit_code(), None);
}

#[test]
fn a_session_in_which_nothing_fails_ends_with_status_zero() {
    let session = run(&[
        Event::ArgumentsAccepted,
        Event::Confirmed,
        Event::GenerationSucceeded,
        Event::UsageReported,
    ])
    .unwrap();
    assert_eq!(session, Session { phase: Phase::Done, failed: false });
    assert_eq!(session.exit_code(), Some(0));
}

#[test]
fn the_phases_follow_one_another() {
    assert_eq!(run(&[Event::ArgumentsAccepted]).unwrap().phase, Phase::Confirming);
    assert_eq!(run(&[Event::ArgumentsAccepted, Event::Confirmed]).unwrap().phase, Phase::Generating);
    assert_eq!(
        run(&[Event::ArgumentsAccepted, Event::Confirmed, Event::GenerationSucceeded])
            .unwrap()
            .phase,
        Phase::Reporting
    );
    for events in [
        &[Event::ArgumentsAccepted][..],
        &[Event::ArgumentsAccepted, Event::Confirmed][..],
        &[Event::ArgumentsAccepted, Event::Confirmed, Event::GenerationSucceeded][..],
    ] {
        assert_eq!(run(events).unwrap().exit_code(), None);
    }
}

#[test]
fn declining_aborts_before_anything_is_created() {
    assert!(!is_confirmed("no\n"));
    let session = run(&[Event::ArgumentsAccepted, Event::Declined]).unwrap();
    assert_eq!(session.phase, Phase::Aborted);
    assert_eq!(session.exit_code(), Some(1));
    for event in EVENTS {
        assert_eq!(session.advance(event), None);
    }
}

#[test]
fn a_failed_generation_ends_the_session_without_a_probe() {
    let session = run(&[Event::ArgumentsAccepted, Event::Confirmed, Event::GenerationFailed]).unwrap();
    assert_eq!(session, Session { phase: Phase::Done, failed: true });
    assert_eq!(session.exit_code(), Some(1));
    assert_eq!(session.advance(Event::UsageReported), None);
    assert_eq!(session.advance(Event::ProbeFailed), None);
}

#[test]
fn a_failed_probe_ends_the_session_with_status_one() {
    let session = run(&[
        Event::ArgumentsAccepted,
        Event::Confirmed,
        Event::GenerationSucceeded,
        Event::ProbeFailed,
    ])
    .unwrap();
    assert_eq!(session, Session { phase: Phase::Done, failed: true });
    assert_eq!(session.exit_code(), Some(1));
}

#[test]
fn events_of_another_phase_are_refused() {
    let phases = [
        Phase::ParsingArgs,
        Phase::Confirming,
        Phase::Generating,
        Phase::Reporting,
        Phase::Done,
        Phase::Aborted,
    ];
    let mut accepted = 0;
    for phase in phases {
        for event in EVENTS {
            let session = Session { phase, failed: false };
            if session.advance(event).is_some() {
                accepted += 1;
            }
        }
    }
    assert_eq!(accepted, 8);
    assert_eq!(Session::new().advance(Event::Confirmed), None);
    assert_eq!(Session::new().advance(Event::GenerationSucceeded), None);
    assert_eq!(run(&[Event::ArgumentsAccepted, Event::ArgumentsAccepted]), None);
    assert_eq!(run(&[Event::ArgumentsAccepted, Event::GenerationSucceeded]), None);
}

#[test]
fn only_one_sequence_of_events_reaches_generation() {
    let mut reaching = 0;
    for a in EVENTS {
        if let Some(s) = run(&[a]) {
            assert_ne!(s.phase, Phase::Generating);
        }
        for b in EVENTS {
            if let Some(s) = run(&[a, b]) {
                if s.phase == Phase::Generating {
                    assert_eq!([a, b], [Event::ArgumentsAccepted, Event::Confirmed]);
                    reaching += 1;
                }
            }
            for c in EVENTS {
                if let Some(s) = run(&[a, b, c]) {
                    assert_ne!(s.phase, Phase::Generating);
                }
            }
        }
    }
    assert_eq!(reaching, 1);
}
