use pseudocode::ast::{Execution, Literal, Request};
use pseudocode::host::Host;
use pseudocode::run::{parse_and_run, Failure};

const BUBBLE_SORT: &str = "// Sorts five numbers, smallest first.
DECLARE numbers : ARRAY[1:5] OF INTEGER
DECLARE i : INTEGER
DECLARE j : INTEGER
DECLARE temp : INTEGER
DECLARE swapped : BOOLEAN

numbers[1] <- 5
numbers[2] <- 3
numbers[3] <- 4
numbers[4] <- 1
numbers[5] <- 2

FOR i <- 1 TO LEN(numbers) - 1
    swapped <- FALSE
    FOR j <- 1 TO LEN(numbers) - i
        IF numbers[j] > numbers[j + 1] THEN
            temp <- numbers[j]
            numbers[j] <- numbers[j + 1]
            numbers[j + 1] <- temp
            swapped <- TRUE
        ENDIF
    NEXT j
NEXT i

FOR i <- 1 TO 5
    OUTPUT numbers[i]   // one number on each line
ENDFOR
";

#[test]
fn examples() {
    let mut host = Host::new(1_000_000);
    parse_and_run(BUBBLE_SORT, &mut host).unwrap();
    assert_eq!(host.output, vec!["1", "2", "3", "4", "5"]);
}

#[test]
fn output_of_a_sum() {
    let mut host = Host::new(1000);
    assert_eq!(parse_and_run("OUTPUT 1 + 2 * 3", &mut host), Ok(()));
    assert_eq!(host.output, vec!["7".to_string()]);
}

#[test]
fn real_division_waits_for_the_host() {
    let mut host = Host::new(1000);
    let result = parse_and_run("OUTPUT 7 / 2", &mut host);
    match result {
        Err(Failure::Runtime(Execution::Waiting(Request::Operate(_, a, b)), _)) => {
            assert_eq!(a, Literal::Integer(7));
            assert_eq!(b, Literal::Integer(2));
        }
        other => panic!("unexpected result {:?}", other),
    }
}
